use crate::byte_order::{
    be_bytes, be_value, lemma_radix_values, radix, to_signed, to_unsigned, ByteOrder,
    ProtoByteOrder,
};
use crate::deserialize::{
    agrees, DecodeFailure, Decoded, Deserialize, DeserializeErr, DeserializeResult, Deserialized,
};
use crate::serialize::{Serialize, SerializeErr};
use crate::types::{
    after, decode_n, deserialize_vec_directly, encode_all, lemma_counter_casts,
    lemma_decode_n_encode_all, lemma_fixed_round_trip, lemma_wrap_usize, ProtocolType,
};
use crate::utils::{string_from_utf8, take};
use vstd::prelude::*;
use vstd::slice::slice_to_vec;
use vstd::string::StringSliceAdditionalSpecFns;
use vstd::utf8::{decode_utf8, encode_utf8, valid_utf8};

verus! {

/// A tree of tagged values.
///
/// `Float` and `Double` hold the IEEE-754 bit pattern of their number: the
/// wire carries the pattern, and nothing here computes with the number.
#[derive(Debug, PartialEq)]
pub enum Tag {
    Byte(i8),
    Short(i16),
    Int(i32),
    Long(i64),
    Float(u32),
    Double(u64),
    ByteArray(Vec<u8>),
    String(String),
    List(Vec<Tag>),
    Compound(Vec<NamedTag>),
    IntArray(Vec<i32>),
    LongArray(Vec<i64>),
    End,
}

/// A tag with the name it goes by inside a compound.
#[derive(Debug, PartialEq)]
pub struct NamedTag {
    pub name: String,
    pub payload: Tag,
}

/// The mathematical content of a [`Tag`].
pub enum TagView {
    Byte(i8),
    Short(i16),
    Int(i32),
    Long(i64),
    Float(u32),
    Double(u64),
    ByteArray(Seq<u8>),
    String(Seq<char>),
    List(Seq<TagView>),
    Compound(Seq<NamedTagView>),
    IntArray(Seq<i32>),
    LongArray(Seq<i64>),
    End,
}

/// The mathematical content of a [`NamedTag`].
pub struct NamedTagView {
    pub name: Seq<char>,
    pub payload: TagView,
}

/// The content of a tag.
pub open spec fn tag_view(t: Tag) -> TagView
    decreases t,
{
    match t {
        Tag::Byte(v) => TagView::Byte(v),
        Tag::Short(v) => TagView::Short(v),
        Tag::Int(v) => TagView::Int(v),
        Tag::Long(v) => TagView::Long(v),
        Tag::Float(v) => TagView::Float(v),
        Tag::Double(v) => TagView::Double(v),
        Tag::ByteArray(v) => TagView::ByteArray(v@),
        Tag::String(v) => TagView::String(v@),
        Tag::List(v) => TagView::List(tag_views(v, v@.len())),
        Tag::Compound(v) => TagView::Compound(named_tag_views(v, v@.len())),
        Tag::IntArray(v) => TagView::IntArray(v@),
        Tag::LongArray(v) => TagView::LongArray(v@),
        Tag::End => TagView::End,
    }
}

/// The contents of the first `n` of `tags`.
pub open spec fn tag_views(tags: Vec<Tag>, n: nat) -> Seq<TagView>
    decreases tags, n,
{
    if n == 0 || n > tags@.len() {
        Seq::empty()
    } else {
        tag_views(tags, (n - 1) as nat).push(tag_view(tags@[n - 1]))
    }
}

/// The content of a named tag.
pub open spec fn named_tag_view(t: NamedTag) -> NamedTagView
    decreases t,
{
    NamedTagView { name: t.name@, payload: tag_view(t.payload) }
}

/// The contents of the first `n` of `tags`.
pub open spec fn named_tag_views(tags: Vec<NamedTag>, n: nat) -> Seq<NamedTagView>
    decreases tags, n,
{
    if n == 0 || n > tags@.len() {
        Seq::empty()
    } else {
        named_tag_views(tags, (n - 1) as nat).push(named_tag_view(tags@[n - 1]))
    }
}

impl DeepView for Tag {
    type V = TagView;

    open spec fn deep_view(&self) -> TagView {
        tag_view(*self)
    }
}

impl DeepView for NamedTag {
    type V = NamedTagView;

    open spec fn deep_view(&self) -> NamedTagView {
        named_tag_view(*self)
    }
}

/// The first `n` contents are those of the first `n` tags, in order.
pub proof fn lemma_tag_views(tags: Vec<Tag>, n: nat)
    requires
        n <= tags@.len(),
    ensures
        tag_views(tags, n).len() == n,
        forall|i: int| 0 <= i < n ==> #[trigger] tag_views(tags, n)[i] == tag_view(tags@[i]),
    decreases n,
{
    if n > 0 {
        lemma_tag_views(tags, (n - 1) as nat);
    }
}

/// The first `n` contents are those of the first `n` named tags, in order.
pub proof fn lemma_named_tag_views(tags: Vec<NamedTag>, n: nat)
    requires
        n <= tags@.len(),
    ensures
        named_tag_views(tags, n).len() == n,
        forall|i: int|
            0 <= i < n ==> #[trigger] named_tag_views(tags, n)[i] == named_tag_view(tags@[i]),
    decreases n,
{
    if n > 0 {
        lemma_named_tag_views(tags, (n - 1) as nat);
    }
}

/// The byte that announces a tag's kind.
pub open spec fn kind_of(t: TagView) -> u8 {
    match t {
        TagView::End => 0x00,
        TagView::Byte(_) => 0x01,
        TagView::Short(_) => 0x02,
        TagView::Int(_) => 0x03,
        TagView::Long(_) => 0x04,
        TagView::Float(_) => 0x05,
        TagView::Double(_) => 0x06,
        TagView::ByteArray(_) => 0x07,
        TagView::String(_) => 0x08,
        TagView::List(_) => 0x09,
        TagView::Compound(_) => 0x0A,
        TagView::IntArray(_) => 0x0B,
        TagView::LongArray(_) => 0x0C,
    }
}

/// The name that a kind goes by.
pub open spec fn kind_name(kind: u8) -> Seq<char> {
    if kind == 0x01 {
        "Byte"@
    } else if kind == 0x02 {
        "Short"@
    } else if kind == 0x03 {
        "Int"@
    } else if kind == 0x04 {
        "Long"@
    } else if kind == 0x05 {
        "Float"@
    } else if kind == 0x06 {
        "Double"@
    } else if kind == 0x07 {
        "Byte_Array"@
    } else if kind == 0x08 {
        "String"@
    } else if kind == 0x09 {
        "List"@
    } else if kind == 0x0A {
        "Compound"@
    } else if kind == 0x0B {
        "Int_Array"@
    } else if kind == 0x0C {
        "Long_Array"@
    } else {
        "END"@
    }
}

/// A count in front of what it counts: the low `width` bytes of `len`, big
/// endian.
pub open spec fn length_prefix(len: nat, width: nat) -> Seq<u8> {
    be_bytes(len % radix(width), width)
}

/// A text on the wire: its UTF-8 bytes behind their count in two bytes.
pub open spec fn text_bytes(text: Seq<char>) -> Seq<u8> {
    length_prefix(encode_utf8(text).len(), 2) + encode_utf8(text)
}

/// The kind byte of a list: that of its items, or 0 where there are none.
pub open spec fn list_kind(items: Seq<TagView>) -> u8 {
    if items.len() == 0 {
        0x00
    } else {
        kind_of(items[0])
    }
}

/// All of `items` are of one kind.
pub open spec fn one_kind(items: Seq<TagView>) -> bool {
    forall|i: int| 0 <= i < items.len() ==> kind_of(#[trigger] items[i]) == kind_of(items[0])
}

/// The tag can be written: every list in it, at any depth, holds items of
/// one kind.
pub open spec fn writable(t: TagView) -> bool
    decreases t,
{
    match t {
        TagView::List(items) => one_kind(items) && forall|i: int|
            0 <= i < items.len() ==> writable(#[trigger] items[i]),
        TagView::Compound(children) => forall|i: int|
            0 <= i < children.len() ==> writable((#[trigger] children[i]).payload),
        _ => true,
    }
}

/// What follows a tag's kind (and name): the bytes of its value.
pub open spec fn payload_bytes(t: TagView) -> Seq<u8>
    decreases t,
{
    match t {
        TagView::Byte(v) => seq![to_unsigned(v as int, 1) as u8],
        TagView::Short(v) => be_bytes(to_unsigned(v as int, 2), 2),
        TagView::Int(v) => be_bytes(to_unsigned(v as int, 4), 4),
        TagView::Long(v) => be_bytes(to_unsigned(v as int, 8), 8),
        TagView::Float(bits) => be_bytes(bits as nat, 4),
        TagView::Double(bits) => be_bytes(bits as nat, 8),
        TagView::ByteArray(v) => length_prefix(v.len(), 4) + v,
        TagView::String(v) => text_bytes(v),
        TagView::List(items) => seq![list_kind(items)] + length_prefix(items.len(), 4)
            + payloads_bytes(items),
        TagView::Compound(children) => children_bytes(children) + seq![0x00u8],
        TagView::IntArray(v) => length_prefix(v.len(), 4) + encode_all::<i32>(v),
        TagView::LongArray(v) => length_prefix(v.len(), 4) + encode_all::<i64>(v),
        TagView::End => Seq::empty(),
    }
}

/// The values of `items`, one after another, with no kind or name between.
pub open spec fn payloads_bytes(items: Seq<TagView>) -> Seq<u8>
    decreases items,
{
    if items.len() == 0 {
        Seq::empty()
    } else {
        payloads_bytes(items.drop_last()) + payload_bytes(items.last())
    }
}

/// A tag with its kind and name in front. An end tag is its kind byte alone.
pub open spec fn named_bytes(t: NamedTagView) -> Seq<u8>
    decreases t,
{
    if kind_of(t.payload) == 0x00 {
        seq![0x00u8]
    } else {
        seq![kind_of(t.payload)] + text_bytes(t.name) + payload_bytes(t.payload)
    }
}

/// The `children`, one after another, each with kind and name.
pub open spec fn children_bytes(children: Seq<NamedTagView>) -> Seq<u8>
    decreases children,
{
    if children.len() == 0 {
        Seq::empty()
    } else {
        children_bytes(children.drop_last()) + named_bytes(children.last())
    }
}

/// The message of the error for a list whose items differ in kind.
pub open spec fn mixed_list_message() -> Seq<char> {
    "list contains tags of different types, cannot serialize"@
}

impl Tag {
    pub fn with_name(self, name: &str) -> (r: NamedTag)
        ensures
            r.name@ == name@,
            r.payload == self,
    {
        NamedTag { name: name.to_owned(), payload: self }
    }

    /// The name of the tag's kind.
    pub fn tag_type_name(&self) -> (r: &'static str)
        ensures
            r@ == kind_name(kind_of(self.deep_view())),
    {
        match self {
            Tag::Byte(_) => "Byte",
            Tag::Short(_) => "Short",
            Tag::Int(_) => "Int",
            Tag::Long(_) => "Long",
            Tag::Float(_) => "Float",
            Tag::Double(_) => "Double",
            Tag::ByteArray(_) => "Byte_Array",
            Tag::String(_) => "String",
            Tag::List(_) => "List",
            Tag::Compound(_) => "Compound",
            Tag::IntArray(_) => "Int_Array",
            Tag::LongArray(_) => "Long_Array",
            Tag::End => "END",
        }
    }

    pub fn id(&self) -> (r: u8)
        ensures
            r == kind_of(self.deep_view()),
    {
        match self {
            Tag::Byte(_) => 0x01,
            Tag::Short(_) => 0x02,
            Tag::Int(_) => 0x03,
            Tag::Long(_) => 0x04,
            Tag::Float(_) => 0x05,
            Tag::Double(_) => 0x06,
            Tag::ByteArray(_) => 0x07,
            Tag::String(_) => 0x08,
            Tag::List(_) => 0x09,
            Tag::Compound(_) => 0x0A,
            Tag::IntArray(_) => 0x0B,
            Tag::LongArray(_) => 0x0C,
            Tag::End => 0x00,
        }
    }

    /// The bytes of the tag's value, or an error for a tag that holds a list
    /// of mixed kinds.
    pub fn bytes(&self) -> (r: Result<Vec<u8>, SerializeErr>)
        ensures
            match r {
                Ok(out) => writable(self.deep_view()) && out@ == payload_bytes(self.deep_view()),
                Err(e) => !writable(self.deep_view()) && (e matches SerializeErr::CannotSerialize(
                    m,
                ) && m@ == mixed_list_message()),
            },
        decreases *self,
    {
        proof {
            lemma_radix_values();
        }
        match self {
            Tag::Byte(b) => {
                let data = ProtoByteOrder::write_byte(*b);
                Ok(slice_to_vec(data.as_slice()))
            },
            Tag::Short(v) => {
                let data = ProtoByteOrder::write_short(*v);
                Ok(slice_to_vec(data.as_slice()))
            },
            Tag::Int(v) => {
                let data = ProtoByteOrder::write_int(*v);
                Ok(slice_to_vec(data.as_slice()))
            },
            Tag::Long(v) => {
                let data = ProtoByteOrder::write_long(*v);
                Ok(slice_to_vec(data.as_slice()))
            },
            Tag::Float(v) => {
                let data = ProtoByteOrder::write_uint(*v);
                Ok(slice_to_vec(data.as_slice()))
            },
            Tag::Double(v) => {
                let data = ProtoByteOrder::write_ulong(*v);
                Ok(slice_to_vec(data.as_slice()))
            },
            Tag::ByteArray(v) => {
                let n = v.len();
                proof {
                    lemma_wrap_usize(n);
                    lemma_counter_casts(n);
                }
                let size_bytes = ProtoByteOrder::write_uint(#[verifier::truncate] (n as u32));
                let mut out = slice_to_vec(size_bytes.as_slice());
                out.extend_from_slice(v.as_slice());
                Ok(out)
            },
            Tag::String(v) => Ok(text_to_bytes(v.as_str())),
            Tag::List(v) => {
                let count = v.len();
                let ghost items = tag_views(*v, v@.len());
                proof {
                    lemma_tag_views(*v, v@.len());
                    lemma_wrap_usize(count);
                }
                let mut elem_id: u8 = 0x00;
                let mut i: usize = 0;
                while i < count
                    invariant
                        i <= count,
                        count == v@.len(),
                        items.len() == count,
                        forall|j: int| 0 <= j < count ==> #[trigger] items[j] == tag_view(v@[j]),
                        forall|j: int| 0 <= j < i ==> kind_of(#[trigger] items[j]) == elem_id,
                        i == 0 ==> elem_id == 0,
                        self.deep_view() == TagView::List(items),
                    decreases count - i,
                {
                    let id = v[i].id();
                    if i > 0 && id != elem_id {
                        proof {
                            assert(kind_of(items[i as int]) != kind_of(items[0]));
                        }
                        return Err(
                            SerializeErr::CannotSerialize(
                                "list contains tags of different types, cannot serialize".to_owned(),
                            ),
                        );
                    }
                    elem_id = id;
                    i += 1;
                }
                let mut out: Vec<u8> = Vec::new();
                out.push(elem_id);
                let count_bytes = ProtoByteOrder::write_uint(#[verifier::truncate] (count as u32));
                out.extend_from_slice(count_bytes.as_slice());
                let ghost head = out@;
                let mut i: usize = 0;
                while i < count
                    invariant
                        i <= count,
                        count == v@.len(),
                        items.len() == count,
                        self.deep_view() == TagView::List(items),
                        decreases_to!(*self => *v),
                        forall|j: int| 0 <= j < count ==> #[trigger] items[j] == tag_view(v@[j]),
                        forall|j: int| 0 <= j < i ==> writable(#[trigger] items[j]),
                        one_kind(items),
                        out@ == head + payloads_bytes(items.take(i as int)),
                    decreases count - i,
                {
                    proof {
                        assert(decreases_to!(*v => v@));
                        assert(decreases_to!(v@ => v@[i as int]));
                    }
                    let elem = match v[i].bytes() {
                        Ok(b) => b,
                        Err(e) => {
                            proof {
                                assert(!writable(items[i as int]));
                            }
                            return Err(e);
                        },
                    };
                    out.extend_from_slice(elem.as_slice());
                    proof {
                        assert(items.take(i + 1).drop_last() =~= items.take(i as int));
                        assert(items.take(i + 1).last() == items[i as int]);
                        assert(head + payloads_bytes(items.take(i as int)) + elem@ =~= head + (
                        payloads_bytes(items.take(i as int)) + elem@));
                    }
                    i += 1;
                }
                proof {
                    assert(items.take(count as int) =~= items);
                    assert(head =~= seq![list_kind(items)] + length_prefix(items.len(), 4));
                }
                Ok(out)
            },
            Tag::Compound(v) => {
                let count = v.len();
                let ghost children = named_tag_views(*v, v@.len());
                proof {
                    lemma_named_tag_views(*v, v@.len());
                }
                let mut out: Vec<u8> = Vec::new();
                let mut i: usize = 0;
                while i < count
                    invariant
                        i <= count,
                        count == v@.len(),
                        children.len() == count,
                        decreases_to!(*self => *v),
                        self.deep_view() == TagView::Compound(children),
                        forall|j: int|
                            0 <= j < count ==> #[trigger] children[j] == named_tag_view(v@[j]),
                        forall|j: int| 0 <= j < i ==> writable((#[trigger] children[j]).payload),
                        out@ == children_bytes(children.take(i as int)),
                    decreases count - i,
                {
                    proof {
                        assert(decreases_to!(*v => v@));
                        assert(decreases_to!(v@ => v@[i as int]));
                    }
                    let elem = match v[i].bytes() {
                        Ok(b) => b,
                        Err(e) => {
                            proof {
                                assert(!writable(children[i as int].payload));
                            }
                            return Err(e);
                        },
                    };
                    out.extend_from_slice(elem.as_slice());
                    proof {
                        assert(children.take(i + 1).drop_last() =~= children.take(i as int));
                        assert(children.take(i + 1).last() == children[i as int]);
                    }
                    i += 1;
                }
                out.push(0x00);
                proof {
                    assert(children.take(count as int) =~= children);
                    assert(out@ =~= children_bytes(children) + seq![0x00u8]);
                }
                Ok(out)
            },
            Tag::IntArray(v) => {
                let n = v.len();
                proof {
                    lemma_wrap_usize(n);
                }
                let n_bytes = ProtoByteOrder::write_uint(#[verifier::truncate] (n as u32));
                let mut out = slice_to_vec(n_bytes.as_slice());
                let ghost head = out@;
                let mut i: usize = 0;
                while i < n
                    invariant
                        i <= n,
                        n == v@.len(),
                        out@ == head + encode_all::<i32>(v@.take(i as int)),
                    decreases n - i,
                {
                    let bytes = ProtoByteOrder::write_int(v[i]);
                    out.extend_from_slice(bytes.as_slice());
                    proof {
                        reveal(<i32 as Serialize>::encode);
                        crate::types::lemma_encode_all_push::<i32>(v@.take(i as int), v@[i as int]);
                        assert(v@.take(i + 1) =~= v@.take(i as int).push(v@[i as int]));
                        assert(head + encode_all::<i32>(v@.take(i as int)) + bytes@ =~= head + (
                        encode_all::<i32>(v@.take(i as int)) + bytes@));
                    }
                    i += 1;
                }
                proof {
                    assert(v@.take(n as int) =~= v@);
                }
                Ok(out)
            },
            Tag::LongArray(v) => {
                let n = v.len();
                proof {
                    lemma_wrap_usize(n);
                }
                let n_bytes = ProtoByteOrder::write_uint(#[verifier::truncate] (n as u32));
                let mut out = slice_to_vec(n_bytes.as_slice());
                let ghost head = out@;
                let mut i: usize = 0;
                while i < n
                    invariant
                        i <= n,
                        n == v@.len(),
                        out@ == head + encode_all::<i64>(v@.take(i as int)),
                    decreases n - i,
                {
                    let bytes = ProtoByteOrder::write_long(v[i]);
                    out.extend_from_slice(bytes.as_slice());
                    proof {
                        reveal(<i64 as Serialize>::encode);
                        crate::types::lemma_encode_all_push::<i64>(v@.take(i as int), v@[i as int]);
                        assert(v@.take(i + 1) =~= v@.take(i as int).push(v@[i as int]));
                        assert(head + encode_all::<i64>(v@.take(i as int)) + bytes@ =~= head + (
                        encode_all::<i64>(v@.take(i as int)) + bytes@));
                    }
                    i += 1;
                }
                proof {
                    assert(v@.take(n as int) =~= v@);
                }
                Ok(out)
            },
            Tag::End => Ok(Vec::new()),
        }
    }
}

impl NamedTag {
    pub fn is_end(&self) -> (r: bool)
        ensures
            r == (self.deep_view().payload is End),
    {
        match self.payload {
            Tag::End => true,
            _ => false,
        }
    }

    /// The bytes of the tag with its kind and name in front, or an error for
    /// a tag that holds a list of mixed kinds.
    pub fn bytes(&self) -> (r: Result<Vec<u8>, SerializeErr>)
        ensures
            match r {
                Ok(out) => (kind_of(self.deep_view().payload) == 0 || writable(
                    self.deep_view().payload,
                )) && out@ == named_bytes(self.deep_view()),
                Err(e) => !writable(self.deep_view().payload) && (e
                    matches SerializeErr::CannotSerialize(m) && m@ == mixed_list_message()),
            },
        decreases *self,
    {
        let type_id = self.payload.id();
        if type_id == 0x00 {
            let mut out: Vec<u8> = Vec::new();
            out.push(0x00);
            Ok(out)
        } else {
            let payload_bytes = self.payload.bytes()?;
            let mut out: Vec<u8> = Vec::new();
            out.push(type_id);
            let name = text_to_bytes(self.name.as_str());
            out.extend_from_slice(name.as_slice());
            out.extend_from_slice(payload_bytes.as_slice());
            Ok(out)
        }
    }
}

/// The UTF-8 bytes of `text` behind their count in two bytes.
fn text_to_bytes(text: &str) -> (out: Vec<u8>)
    ensures
        out@ == text_bytes(text@),
{
    let bytes = text.as_bytes();
    let n = bytes.len();
    proof {
        lemma_wrap_usize(n);
                    lemma_counter_casts(n);
        lemma_radix_values();
    }
    let size_bytes = ProtoByteOrder::write_ushort(#[verifier::truncate] (n as u16));
    let mut out = slice_to_vec(size_bytes.as_slice());
    out.extend_from_slice(bytes);
    out
}

/// A text off the front of `data`: a two-byte count and that many bytes of
/// UTF-8.
pub open spec fn parse_text(data: Seq<u8>) -> Decoded<Seq<char>> {
    if data.len() < 2 {
        Err(DecodeFailure::Eof)
    } else {
        let len = be_value(data.take(2));
        let body = data.skip(2);
        if body.len() < len {
            Err(DecodeFailure::Eof)
        } else if !valid_utf8(body.take(len as int)) {
            Err(DecodeFailure::BadStringEncoding)
        } else {
            Ok((decode_utf8(body.take(len as int)), 2 + len))
        }
    }
}

/// The signed count in the first four bytes of `data`.
pub open spec fn count_at(data: Seq<u8>) -> int {
    to_signed(be_value(data.take(4)), 4)
}

/// The value of a tag of kind `kind` off the front of `data`.
#[verifier::opaque]
pub open spec fn parse_payload(kind: u8, data: Seq<u8>) -> Decoded<TagView>
    decreases data.len(), 2int, 0int,
{
    if kind == 0x00 {
        Ok((TagView::End, 0))
    } else if kind == 0x01 {
        match i8::decode(data) {
            Ok((v, n)) => Ok((TagView::Byte(v), n)),
            Err(e) => Err(e),
        }
    } else if kind == 0x02 {
        match i16::decode(data) {
            Ok((v, n)) => Ok((TagView::Short(v), n)),
            Err(e) => Err(e),
        }
    } else if kind == 0x03 {
        match i32::decode(data) {
            Ok((v, n)) => Ok((TagView::Int(v), n)),
            Err(e) => Err(e),
        }
    } else if kind == 0x04 {
        match i64::decode(data) {
            Ok((v, n)) => Ok((TagView::Long(v), n)),
            Err(e) => Err(e),
        }
    } else if kind == 0x05 {
        match u32::decode(data) {
            Ok((v, n)) => Ok((TagView::Float(v), n)),
            Err(e) => Err(e),
        }
    } else if kind == 0x06 {
        match u64::decode(data) {
            Ok((v, n)) => Ok((TagView::Double(v), n)),
            Err(e) => Err(e),
        }
    } else if kind == 0x07 {
        if data.len() < 4 {
            Err(DecodeFailure::Eof)
        } else if count_at(data) < 0 {
            Err(DecodeFailure::NbtBadLength(count_at(data)))
        } else if data.len() - 4 < count_at(data) {
            Err(DecodeFailure::Eof)
        } else {
            Ok(
                (
                    TagView::ByteArray(data.subrange(4, 4 + count_at(data))),
                    (4 + count_at(data)) as nat,
                ),
            )
        }
    } else if kind == 0x08 {
        match parse_text(data) {
            Ok((v, n)) => Ok((TagView::String(v), n)),
            Err(e) => Err(e),
        }
    } else if kind == 0x09 {
        if data.len() < 5 {
            Err(DecodeFailure::Eof)
        } else if count_at(data.skip(1)) <= 0 {
            if data[0] != 0x00 {
                Err(DecodeFailure::NbtBadLength(count_at(data.skip(1))))
            } else {
                Ok((TagView::List(Seq::empty()), 5))
            }
        } else {
            match parse_items(data[0], data.skip(5), count_at(data.skip(1)) as nat) {
                Ok((items, n)) => Ok((TagView::List(items), 5 + n)),
                Err(e) => Err(e),
            }
        }
    } else if kind == 0x0A {
        match parse_children(data) {
            Ok((children, n)) => Ok((TagView::Compound(children), n)),
            Err(e) => Err(e),
        }
    } else if kind == 0x0B {
        match parse_array::<i32>(data) {
            Ok((v, n)) => Ok((TagView::IntArray(v), n)),
            Err(e) => Err(e),
        }
    } else if kind == 0x0C {
        match parse_array::<i64>(data) {
            Ok((v, n)) => Ok((TagView::LongArray(v), n)),
            Err(e) => Err(e),
        }
    } else {
        Err(DecodeFailure::NbtUnknownTagType(kind))
    }
}

/// An array of numbers off the front of `data`: a count that must not be
/// negative, then that many numbers.
pub open spec fn parse_array<R: Deserialize>(data: Seq<u8>) -> Decoded<Seq<R::V>> {
    if data.len() < 4 {
        Err(DecodeFailure::Eof)
    } else if count_at(data) < 0 {
        Err(DecodeFailure::NbtBadLength(count_at(data)))
    } else {
        match decode_n::<R>(data.skip(4), count_at(data) as nat) {
            Ok((items, n)) => Ok((items, 4 + n)),
            Err(e) => Err(e),
        }
    }
}

/// `count` values of kind `kind` in a row off the front of `data`.
///
/// The test on the length that the first value took is there to show that
/// the recursion ends; no value takes more than there is
/// ([`lemma_parse_bounds`]).
#[verifier::opaque]
pub open spec fn parse_items(kind: u8, data: Seq<u8>, count: nat) -> Decoded<Seq<TagView>>
    decreases data.len(), 3int, count,
{
    if count == 0 {
        Ok((Seq::empty(), 0))
    } else {
        match parse_payload(kind, data) {
            Err(e) => Err(e),
            Ok((first, n)) => if n <= data.len() {
                after(seq![first], n, parse_items(kind, data.skip(n as int), (count - 1) as nat))
            } else {
                Err(DecodeFailure::Eof)
            },
        }
    }
}

/// A tag with kind and name off the front of `data`. A kind byte of 0 is an
/// end tag, which has neither name nor value.
#[verifier::opaque]
pub open spec fn parse_named(data: Seq<u8>) -> Decoded<NamedTagView>
    decreases data.len(), 0int, 0int,
{
    if data.len() < 1 {
        Err(DecodeFailure::Eof)
    } else if data[0] == 0x00 {
        Ok((NamedTagView { name: Seq::empty(), payload: TagView::End }, 1))
    } else {
        match parse_text(data.skip(1)) {
            Err(e) => Err(e),
            Ok((name, n)) => match parse_payload(data[0], data.skip(1 + n as int)) {
                Err(e) => Err(e),
                Ok((payload, m)) => Ok((NamedTagView { name, payload }, 1 + n + m)),
            },
        }
    }
}

/// Named tags in a row off the front of `data`, up to and including the end
/// tag that closes them. The end tag is counted in the length and left out
/// of the result.
///
/// The test on the length that the first child took is there to show that
/// the recursion ends; a child takes at least its kind byte and no more than
/// there is ([`lemma_parse_bounds`]).
#[verifier::opaque]
pub open spec fn parse_children(data: Seq<u8>) -> Decoded<Seq<NamedTagView>>
    decreases data.len(), 1int, 0int,
{
    match parse_named(data) {
        Err(e) => Err(e),
        Ok((child, n)) => if child.payload is End {
            Ok((Seq::empty(), n))
        } else if 0 < n <= data.len() {
            after(seq![child], n, parse_children(data.skip(n as int)))
        } else {
            Err(DecodeFailure::Eof)
        },
    }
}

/// A whole tree off the front of `data`: a named compound.
pub open spec fn parse_root(data: Seq<u8>) -> Decoded<NamedTagView> {
    if data.len() < 1 {
        Err(DecodeFailure::Eof)
    } else if data[0] != 0x0A {
        Err(DecodeFailure::NbtInvalidStartTag(data[0]))
    } else {
        parse_named(data)
    }
}

impl NamedTag {
    /// Reads a whole tree: a named compound at the front of `data`.
    pub fn root_compound_tag_from_bytes(data: &[u8]) -> (r: DeserializeResult<'_, NamedTag>)
        ensures
            agrees(r, data@, parse_root(data@)),
    {
        read_nbt_data(data)
    }
}

fn read_nbt_data(data: &[u8]) -> (r: DeserializeResult<'_, NamedTag>)
    ensures
        agrees(r, data@, parse_root(data@)),
{
    let Deserialized { value: tag_type_id, data: _ } = ProtoByteOrder::read_ubyte(data)?;
    match tag_type_id {
        0x0A => read_named_tag(data),
        other => Err(DeserializeErr::NbtInvalidStartTag(other)),
    }
}

/// Reads a tag with its kind and name in front.
pub fn read_named_tag(data: &[u8]) -> (r: DeserializeResult<'_, NamedTag>)
    ensures
        agrees(r, data@, parse_named(data@)),
    decreases data@.len(), 0int,
{
    proof {
        reveal(parse_named);
        reveal(parse_payload);
    }
    let Deserialized { value: tag_type_id, data: rest } = ProtoByteOrder::read_ubyte(data)?;
    if tag_type_id == 0x00 {
        Ok(Deserialized { value: NamedTag { name: String::new(), payload: Tag::End }, data: rest })
    } else {
        let Deserialized { value: name, data: body } = read_string(rest)?;
        let ghost n = (rest@.len() - body@.len()) as int;
        proof {
            assert(body@ =~= data@.skip(1 + n));
        }
        let Deserialized { value: payload, data: after_payload } = read_tag(tag_type_id, body)?;
        proof {
            let m = body@.len() - after_payload@.len();
            assert(after_payload@ =~= data@.skip(1 + n + m));
        }
        Ok(Deserialized { value: NamedTag { name, payload }, data: after_payload })
    }
}

/// Reads the value of a tag of the kind `tag_type_id`.
pub fn read_tag(tag_type_id: u8, data: &[u8]) -> (r: DeserializeResult<'_, Tag>)
    ensures
        agrees(r, data@, parse_payload(tag_type_id, data@)),
    decreases data@.len(), 2int,
{
    proof {
        reveal(parse_payload);
    }
    match tag_type_id {
        0x00 => {
            proof {
                assert(data@.skip(0) =~= data@);
            }
            Ok(Deserialized { value: Tag::End, data })
        },
        0x01 => read_tag_byte(data),
        0x02 => read_tag_short(data),
        0x03 => read_tag_int(data),
        0x04 => read_tag_long(data),
        0x05 => read_tag_float(data),
        0x06 => read_tag_double(data),
        0x07 => read_tag_byte_array(data),
        0x08 => read_tag_string(data),
        0x09 => read_tag_list(data),
        0x0A => read_tag_compound(data),
        0x0B => read_tag_int_array(data),
        0x0C => read_tag_long_array(data),
        other => Err(DeserializeErr::NbtUnknownTagType(other)),
    }
}

fn read_tag_byte(data: &[u8]) -> (r: DeserializeResult<'_, Tag>)
    ensures
        agrees(r, data@, parse_payload(0x01, data@)),
{
    proof {
        reveal(parse_payload);
    }
    let Deserialized { value, data: rest } = i8::mc_deserialize(data)?;
    Ok(Deserialized { value: Tag::Byte(value), data: rest })
}

fn read_tag_short(data: &[u8]) -> (r: DeserializeResult<'_, Tag>)
    ensures
        agrees(r, data@, parse_payload(0x02, data@)),
{
    proof {
        reveal(parse_payload);
    }
    let Deserialized { value, data: rest } = i16::mc_deserialize(data)?;
    Ok(Deserialized { value: Tag::Short(value), data: rest })
}

fn read_tag_int(data: &[u8]) -> (r: DeserializeResult<'_, Tag>)
    ensures
        agrees(r, data@, parse_payload(0x03, data@)),
{
    proof {
        reveal(parse_payload);
    }
    let Deserialized { value, data: rest } = i32::mc_deserialize(data)?;
    Ok(Deserialized { value: Tag::Int(value), data: rest })
}

fn read_tag_long(data: &[u8]) -> (r: DeserializeResult<'_, Tag>)
    ensures
        agrees(r, data@, parse_payload(0x04, data@)),
{
    proof {
        reveal(parse_payload);
    }
    let Deserialized { value, data: rest } = i64::mc_deserialize(data)?;
    Ok(Deserialized { value: Tag::Long(value), data: rest })
}

fn read_tag_float(data: &[u8]) -> (r: DeserializeResult<'_, Tag>)
    ensures
        agrees(r, data@, parse_payload(0x05, data@)),
{
    proof {
        reveal(parse_payload);
    }
    let Deserialized { value, data: rest } = u32::mc_deserialize(data)?;
    Ok(Deserialized { value: Tag::Float(value), data: rest })
}

fn read_tag_double(data: &[u8]) -> (r: DeserializeResult<'_, Tag>)
    ensures
        agrees(r, data@, parse_payload(0x06, data@)),
{
    proof {
        reveal(parse_payload);
    }
    let Deserialized { value, data: rest } = u64::mc_deserialize(data)?;
    Ok(Deserialized { value: Tag::Double(value), data: rest })
}

/// Reads the four-byte count in front of an array or a list.
fn read_count(data: &[u8]) -> (r: DeserializeResult<'_, i32>)
    ensures
        match r {
            Ok(d) => data@.len() >= 4 && d.value == count_at(data@) && d.data@ == data@.skip(4),
            Err(e) => data@.len() < 4 && e@ == DecodeFailure::Eof,
        },
{
    ProtoByteOrder::read_int(data)
}

fn read_tag_byte_array(data: &[u8]) -> (r: DeserializeResult<'_, Tag>)
    ensures
        agrees(r, data@, parse_payload(0x07, data@)),
{
    proof {
        reveal(parse_payload);
    }
    let Deserialized { value: size, data: rest } = read_count(data)?;
    if size < 0 {
        Err(DeserializeErr::NbtBadLength(size as isize))
    } else {
        let Deserialized { value: arr, data: rest } = take(size as usize, rest)?;
        proof {
            assert(arr@ =~= data@.subrange(4, 4 + size));
            assert(rest@ =~= data@.skip(4 + size));
        }
        Ok(Deserialized { value: Tag::ByteArray(slice_to_vec(arr)), data: rest })
    }
}

fn read_tag_string(data: &[u8]) -> (r: DeserializeResult<'_, Tag>)
    ensures
        agrees(r, data@, parse_payload(0x08, data@)),
{
    proof {
        reveal(parse_payload);
    }
    let Deserialized { value, data: rest } = read_string(data)?;
    Ok(Deserialized { value: Tag::String(value), data: rest })
}

fn read_tag_list(data: &[u8]) -> (r: DeserializeResult<'_, Tag>)
    ensures
        agrees(r, data@, parse_payload(0x09, data@)),
    decreases data@.len(), 1int,
{
    proof {
        reveal(parse_payload);
        reveal(parse_items);
    }
    let Deserialized { value: contents_tag_type_id, data: rest } = ProtoByteOrder::read_ubyte(
        data,
    )?;
    let Deserialized { value: list_length, data: body } = read_count(rest)?;
    proof {
        assert(body@ =~= data@.skip(5));
    }
    if list_length <= 0 {
        if contents_tag_type_id != 0x00 {
            Err(DeserializeErr::NbtBadLength(list_length as isize))
        } else {
            let empty: Vec<Tag> = Vec::new();
            proof {
                assert(tag_views(empty, 0) =~= Seq::<TagView>::empty());
            }
            Ok(Deserialized { value: Tag::List(empty), data: body })
        }
    } else {
        let mut out_vec: Vec<Tag> = Vec::new();
        let mut remaining_data = body;
        let mut i: i32 = 0;
        let ghost whole = parse_items(contents_tag_type_id, body@, list_length as nat);
        proof {
            assert(body@.skip(0) =~= body@);
            match whole {
                Ok((items, m)) => {
                    assert(Seq::<TagView>::empty() + items =~= items);
                },
                Err(_) => {},
            }
        }
        proof {
            reveal(parse_items);
        }
        while i < list_length
            invariant
                0 <= i <= list_length,
                parse_payload(0x09, data@) == (match whole {
                    Ok((items, n)) => Ok::<_, DecodeFailure>((TagView::List(items), 5 + n)),
                    Err(e) => Err(e),
                }),
                out_vec@.len() == i,
                body@.len() + 5 == data@.len(),
                body@ == data@.skip(5),
                data@[0] == contents_tag_type_id,
                count_at(data@.skip(1)) == list_length,
                remaining_data@.len() <= body@.len(),
                remaining_data@ == body@.skip(body@.len() - remaining_data@.len()),
                whole == parse_items(contents_tag_type_id, body@, list_length as nat),
                whole == after(
                    tag_views(out_vec, out_vec@.len()),
                    (body@.len() - remaining_data@.len()) as nat,
                    parse_items(contents_tag_type_id, remaining_data@, (list_length - i) as nat),
                ),
            decreases list_length - i,
        {
            let ghost seen = tag_views(out_vec, out_vec@.len());
            let ghost taken = body@.len() - remaining_data@.len();
            let ghost before = out_vec;
            proof {
                reveal(parse_items);
                reveal(parse_payload);
            }
            let Deserialized { value: element, data: rest } = read_tag(
                contents_tag_type_id,
                remaining_data,
            )?;
            proof {
                let n = remaining_data@.len() - rest@.len();
                assert(rest@ =~= body@.skip(taken + n));
            }
            let ghost first = tag_view(element);
            out_vec.push(element);
            remaining_data = rest;
            proof {
                lemma_tag_views(before, before@.len());
                lemma_tag_views(out_vec, out_vec@.len());
                assert(tag_views(out_vec, out_vec@.len()) =~= seen.push(first));
                let tail = parse_items(
                    contents_tag_type_id,
                    remaining_data@,
                    (list_length - i - 1) as nat,
                );
                match tail {
                    Ok((items, m)) => {
                        assert(seen + (seq![first] + items) =~= seen.push(first) + items);
                    },
                    Err(_) => {},
                }
            }
            i += 1;
        }
        proof {
            let items = tag_views(out_vec, out_vec@.len());
            assert(items + Seq::<TagView>::empty() =~= items);
            let m = body@.len() - remaining_data@.len();
            assert(remaining_data@ =~= data@.skip(5 + m));
        }
        Ok(Deserialized { value: Tag::List(out_vec), data: remaining_data })
    }
}

/// Putting one item in front of an outcome, then more in front of that, is
/// putting them all in front at once.
proof fn lemma_after_after<V>(
    seen: Seq<V>,
    taken: nat,
    first: V,
    n: nat,
    tail: Decoded<Seq<V>>,
)
    ensures
        after(seen, taken, after(seq![first], n, tail)) == after(seen.push(first), taken + n, tail),
{
    match tail {
        Ok((items, m)) => {
            assert(seen + (seq![first] + items) =~= seen.push(first) + items);
        },
        Err(_) => {},
    }
}

/// One step of reading children: an end tag closes the run, any other child
/// is followed by the rest of the run.
proof fn lemma_children_step(here: Seq<u8>)
    ensures
        match parse_named(here) {
            Err(e) => parse_children(here) == Err::<(Seq<NamedTagView>, nat), _>(e),
            Ok((child, n)) => 1 <= n && if child.payload is End {
                parse_children(here) == Ok::<_, DecodeFailure>((Seq::<NamedTagView>::empty(), n))
            } else {
                n <= here.len() ==> parse_children(here) == after(
                    seq![child],
                    n,
                    parse_children(here.skip(n as int)),
                )
            },
        },
{
    reveal(parse_children);
    reveal(parse_named);
    reveal(parse_payload);
}

fn read_tag_compound(data: &[u8]) -> (r: DeserializeResult<'_, Tag>)
    ensures
        agrees(r, data@, parse_payload(0x0A, data@)),
    decreases data@.len(), 1int,
{
    let mut out: Vec<NamedTag> = Vec::new();
    let mut remaining_data = data;
    let ghost whole = parse_children(data@);
    proof {
        assert(parse_payload(0x0A, data@) == (match whole {
            Ok((children, n)) => Ok::<_, DecodeFailure>((TagView::Compound(children), n)),
            Err(e) => Err(e),
        })) by {
            reveal(parse_payload);
            reveal(parse_children);
        }
        assert(data@.skip(0) =~= data@);
        match whole {
            Ok((items, m)) => {
                assert(Seq::<NamedTagView>::empty() + items =~= items);
            },
            Err(_) => {},
        }
    }
    loop
        invariant_except_break
            whole == after(
                named_tag_views(out, out@.len()),
                (data@.len() - remaining_data@.len()) as nat,
                parse_children(remaining_data@),
            ),
        invariant
            parse_payload(0x0A, data@) == (match whole {
                Ok((children, n)) => Ok::<_, DecodeFailure>((TagView::Compound(children), n)),
                Err(e) => Err(e),
            }),
            remaining_data@.len() <= data@.len(),
            remaining_data@ == data@.skip(data@.len() - remaining_data@.len()),
            whole == parse_children(data@),
        ensures
            whole matches Ok((children, n)) && children == named_tag_views(out, out@.len()) && n
                <= data@.len() && remaining_data@ == data@.skip(n as int),
        decreases remaining_data@.len(),
    {
        let ghost seen = named_tag_views(out, out@.len());
        let ghost taken = (data@.len() - remaining_data@.len()) as nat;
        let ghost before = out;
        let ghost here = remaining_data@;
        proof {
            lemma_children_step(here);
        }
        let Deserialized { value: elem, data: rest } = read_named_tag(remaining_data)?;
        let ghost n = (here.len() - rest@.len()) as nat;
        proof {
            assert(rest@ =~= data@.skip((taken + n) as int));
            assert(rest@ =~= here.skip(n as int));
        }
        remaining_data = rest;
        if elem.is_end() {
            proof {
                assert(seen + Seq::<NamedTagView>::empty() =~= seen);
            }
            break ;
        }
        let ghost first = named_tag_view(elem);
        out.push(elem);
        proof {
            lemma_named_tag_views(before, before@.len());
            lemma_named_tag_views(out, out@.len());
            assert(named_tag_views(out, out@.len()) =~= seen.push(first));
            lemma_after_after(seen, taken, first, n, parse_children(remaining_data@));
        }
    }
    Ok(Deserialized { value: Tag::Compound(out), data: remaining_data })
}

fn read_tag_int_array(data: &[u8]) -> (r: DeserializeResult<'_, Tag>)
    ensures
        agrees(r, data@, parse_payload(0x0B, data@)),
{
    proof {
        reveal(parse_payload);
    }
    let Deserialized { value: out, data: rest } = read_array_tag::<i32>(data)?;
    proof {
        assert(out@ =~= out.deep_view());
    }
    Ok(Deserialized { value: Tag::IntArray(out), data: rest })
}

fn read_tag_long_array(data: &[u8]) -> (r: DeserializeResult<'_, Tag>)
    ensures
        agrees(r, data@, parse_payload(0x0C, data@)),
{
    proof {
        reveal(parse_payload);
    }
    let Deserialized { value: out, data: rest } = read_array_tag::<i64>(data)?;
    proof {
        assert(out@ =~= out.deep_view());
    }
    Ok(Deserialized { value: Tag::LongArray(out), data: rest })
}

fn read_array_tag<R: Deserialize>(data: &[u8]) -> (r: DeserializeResult<'_, Vec<R>>)
    ensures
        agrees(r, data@, parse_array::<R>(data@)),
{
    let Deserialized { value: count, data: body } = read_count(data)?;
    if count < 0 {
        Err(DeserializeErr::NbtBadLength(count as isize))
    } else {
        let Deserialized { value: out, data: rest } = deserialize_vec_directly::<R>(
            count as usize,
            body,
        )?;
        proof {
            let m = body@.len() - rest@.len();
            assert(rest@ =~= data@.skip(4 + m));
        }
        Ok(Deserialized { value: out, data: rest })
    }
}

fn read_string(data: &[u8]) -> (r: DeserializeResult<'_, String>)
    ensures
        agrees(r, data@, parse_text(data@)),
{
    let Deserialized { value: length, data: rest } = ProtoByteOrder::read_ushort(data)?;
    let Deserialized { value: bytes, data: rest } = take(length as usize, rest)?;
    proof {
        assert(rest@ =~= data@.skip(2 + length));
    }
    match string_from_utf8(slice_to_vec(bytes)) {
        Ok(text) => Ok(Deserialized { value: text, data: rest }),
        Err(err) => Err(DeserializeErr::BadStringEncoding(err)),
    }
}

/// A text that fits the two-byte count in front of it.
pub open spec fn faithful_text(text: Seq<char>) -> bool {
    encode_utf8(text).len() <= u16::MAX
}

/// The tags that come back from their own bytes: every count fits its
/// prefix, every list holds items of one kind, and no compound holds an end
/// tag as a child.
pub open spec fn faithful_tag(t: TagView) -> bool
    decreases t,
{
    match t {
        TagView::ByteArray(v) => v.len() <= i32::MAX,
        TagView::String(v) => faithful_text(v),
        TagView::List(items) => items.len() <= i32::MAX && one_kind(items) && forall|i: int|
            0 <= i < items.len() ==> faithful_tag(#[trigger] items[i]),
        TagView::Compound(children) => forall|i: int|
            0 <= i < children.len() ==> faithful_child(#[trigger] children[i]),
        TagView::IntArray(v) => v.len() <= i32::MAX,
        TagView::LongArray(v) => v.len() <= i32::MAX,
        _ => true,
    }
}

/// A named tag that can stand inside a compound: not an end tag, with a
/// name that fits and a value that comes back.
pub open spec fn faithful_child(t: NamedTagView) -> bool
    decreases t,
{
    !(t.payload is End) && faithful_text(t.name) && faithful_tag(t.payload)
}

/// A named tag that comes back from its own bytes: a child of a compound,
/// or the end tag, which has no name.
pub open spec fn faithful_named(t: NamedTagView) -> bool {
    if t.payload is End {
        t.name == Seq::<char>::empty()
    } else {
        faithful_child(t)
    }
}

/// What comes back can be written.
pub proof fn lemma_faithful_writable(t: TagView)
    requires
        faithful_tag(t),
    ensures
        writable(t),
    decreases t,
{
    match t {
        TagView::List(items) => {
            assert forall|i: int| 0 <= i < items.len() implies writable(#[trigger] items[i]) by {
                lemma_faithful_writable(items[i]);
            }
        },
        TagView::Compound(children) => {
            assert forall|i: int| 0 <= i < children.len() implies writable(
                (#[trigger] children[i]).payload,
            ) by {
                assert(faithful_child(children[i]));
                lemma_faithful_writable(children[i].payload);
            }
        },
        _ => {},
    }
}

/// The values of a run are the first value, then the values of the others.
pub proof fn lemma_payloads_bytes_front(items: Seq<TagView>)
    requires
        items.len() > 0,
    ensures
        payloads_bytes(items) == payload_bytes(items[0]) + payloads_bytes(items.skip(1)),
    decreases items.len(),
{
    if items.len() == 1 {
        assert(items.drop_last() =~= Seq::<TagView>::empty());
        assert(items.skip(1) =~= Seq::<TagView>::empty());
        assert(payloads_bytes(items.drop_last()) =~= Seq::<u8>::empty());
        assert(payloads_bytes(items.skip(1)) =~= Seq::<u8>::empty());
        assert(payloads_bytes(items) =~= payload_bytes(items[0]) + payloads_bytes(items.skip(1)));
    } else {
        let front = items.drop_last();
        lemma_payloads_bytes_front(front);
        assert(front.skip(1) =~= items.skip(1).drop_last());
        assert(items.skip(1).last() == items.last());
        assert(payloads_bytes(items) =~= payload_bytes(items[0]) + payloads_bytes(items.skip(1)));
    }
}

/// The bytes of a run of children are the first child, then the others.
pub proof fn lemma_children_bytes_front(children: Seq<NamedTagView>)
    requires
        children.len() > 0,
    ensures
        children_bytes(children) == named_bytes(children[0]) + children_bytes(children.skip(1)),
    decreases children.len(),
{
    if children.len() == 1 {
        assert(children.drop_last() =~= Seq::<NamedTagView>::empty());
        assert(children.skip(1) =~= Seq::<NamedTagView>::empty());
        assert(children_bytes(children.drop_last()) =~= Seq::<u8>::empty());
        assert(children_bytes(children.skip(1)) =~= Seq::<u8>::empty());
        assert(children_bytes(children) =~= named_bytes(children[0]) + children_bytes(
            children.skip(1),
        ));
    } else {
        let front = children.drop_last();
        lemma_children_bytes_front(front);
        assert(front.skip(1) =~= children.skip(1).drop_last());
        assert(children.skip(1).last() == children.last());
        assert(children_bytes(children) =~= named_bytes(children[0]) + children_bytes(
            children.skip(1),
        ));
    }
}

/// A count that fits its four bytes reads back from behind them.
proof fn lemma_count_round_trip(len: nat, rest: Seq<u8>)
    requires
        len <= i32::MAX,
    ensures
        length_prefix(len, 4).len() == 4,
        count_at(length_prefix(len, 4) + rest) == len,
        (length_prefix(len, 4) + rest).skip(4) == rest,
{
    lemma_radix_values();
    vstd::arithmetic::div_mod::lemma_small_mod(len, radix(4));
    lemma_fixed_round_trip(len, 4, rest);
    assert((length_prefix(len, 4) + rest).skip(4) =~= rest);
}

/// A text that fits its count, followed by anything, reads back.
pub proof fn lemma_text_round_trip(text: Seq<char>, rest: Seq<u8>)
    requires
        faithful_text(text),
    ensures
        parse_text(text_bytes(text) + rest) == Ok::<_, DecodeFailure>(
            (text, text_bytes(text).len()),
        ),
        text_bytes(text).len() >= 2,
{
    let body = encode_utf8(text);
    let head = length_prefix(body.len(), 2);
    lemma_radix_values();
    vstd::arithmetic::div_mod::lemma_small_mod(body.len(), radix(2));
    lemma_fixed_round_trip(body.len(), 2, body + rest);
    assert(head + body + rest =~= head + (body + rest));
    assert((head + (body + rest)).skip(2) =~= body + rest);
    assert((body + rest).take(body.len() as int) =~= body);
    vstd::utf8::encode_utf8_valid_utf8(text);
    vstd::utf8::encode_utf8_decode_utf8(text);
}

/// The value of a tag that comes back, written out and followed by anything,
/// reads back as the tag and stops where its bytes end.
pub proof fn lemma_tag_round_trip(t: TagView, rest: Seq<u8>)
    requires
        faithful_tag(t),
    ensures
        parse_payload(kind_of(t), payload_bytes(t) + rest) == Ok::<_, DecodeFailure>(
            (t, payload_bytes(t).len()),
        ),
    decreases t, 1int,
{
    match t {
        TagView::List(items) => {
            if items.len() > 0 {
                lemma_items_round_trip(kind_of(items[0]), items, rest);
            }
            lemma_list_round_trip(items, rest);
        },
        TagView::Compound(children) => {
            lemma_children_round_trip(children, rest);
            assert(children_bytes(children) + seq![0x00u8] + rest =~= children_bytes(children) + (
            seq![0x00u8] + rest));
            assert(parse_payload(0x0A, payload_bytes(t) + rest) == Ok::<_, DecodeFailure>(
                (t, payload_bytes(t).len()),
            )) by {
                reveal(parse_payload);
                reveal(parse_children);
            }
        },
        TagView::ByteArray(_) | TagView::IntArray(_) | TagView::LongArray(_) => {
            lemma_array_round_trip(t, rest);
        },
        _ => {
            lemma_scalar_round_trip(t, rest);
        },
    }
}

/// The round trip of the tags that hold one number or one text.
proof fn lemma_scalar_round_trip(t: TagView, rest: Seq<u8>)
    requires
        faithful_tag(t),
        !(t is List),
        !(t is Compound),
        !(t is ByteArray),
        !(t is IntArray),
        !(t is LongArray),
    ensures
        parse_payload(kind_of(t), payload_bytes(t) + rest) == Ok::<_, DecodeFailure>(
            (t, payload_bytes(t).len()),
        ),
{
    reveal(<i8 as Serialize>::encode);
    reveal(<i8 as Deserialize>::decode);
    reveal(<u8 as Serialize>::encode);
    reveal(<u8 as Deserialize>::decode);
    reveal(<i16 as Serialize>::encode);
    reveal(<i16 as Deserialize>::decode);
    reveal(<i32 as Serialize>::encode);
    reveal(<i32 as Deserialize>::decode);
    reveal(<i64 as Serialize>::encode);
    reveal(<i64 as Deserialize>::decode);
    reveal(<u16 as Serialize>::encode);
    reveal(<u16 as Deserialize>::decode);
    reveal(<u32 as Serialize>::encode);
    reveal(<u32 as Deserialize>::decode);
    reveal(<u64 as Serialize>::encode);
    reveal(<u64 as Deserialize>::decode);
    reveal(parse_payload);
    match t {
        TagView::End => {
            assert(payload_bytes(t).len() == 0);
        },
        TagView::Byte(v) => {
            i8::lemma_round_trip(v, rest);
        },
        TagView::Short(v) => {
            i16::lemma_round_trip(v, rest);
        },
        TagView::Int(v) => {
            i32::lemma_round_trip(v, rest);
        },
        TagView::Long(v) => {
            i64::lemma_round_trip(v, rest);
        },
        TagView::Float(v) => {
            u32::lemma_round_trip(v, rest);
        },
        TagView::Double(v) => {
            u64::lemma_round_trip(v, rest);
        },
        TagView::String(v) => {
            lemma_text_round_trip(v, rest);
        },
        _ => {},
    }
}

/// The round trip of the tags that hold a counted run of numbers.
proof fn lemma_array_round_trip(t: TagView, rest: Seq<u8>)
    requires
        faithful_tag(t),
        t is ByteArray || t is IntArray || t is LongArray,
    ensures
        parse_payload(kind_of(t), payload_bytes(t) + rest) == Ok::<_, DecodeFailure>(
            (t, payload_bytes(t).len()),
        ),
{
    reveal(parse_payload);
    match t {
        TagView::ByteArray(v) => {
            let head = length_prefix(v.len(), 4);
            lemma_count_round_trip(v.len(), v + rest);
            assert(head + v + rest =~= head + (v + rest));
            assert((head + (v + rest)).subrange(4, 4 + v.len() as int) =~= v);
        },
        TagView::IntArray(v) => {
            let head = length_prefix(v.len(), 4);
            let body = encode_all::<i32>(v);
            lemma_count_round_trip(v.len(), body + rest);
            assert(head + body + rest =~= head + (body + rest));
            lemma_decode_n_encode_all::<i32>(v, rest);
        },
        TagView::LongArray(v) => {
            let head = length_prefix(v.len(), 4);
            let body = encode_all::<i64>(v);
            lemma_count_round_trip(v.len(), body + rest);
            assert(head + body + rest =~= head + (body + rest));
            lemma_decode_n_encode_all::<i64>(v, rest);
        },
        _ => {},
    }
}

/// The round trip of a list, given that of its items in a row.
proof fn lemma_list_round_trip(items: Seq<TagView>, rest: Seq<u8>)
    requires
        items.len() <= i32::MAX,
        items.len() > 0 ==> parse_items(
            kind_of(items[0]),
            payloads_bytes(items) + rest,
            items.len(),
        ) == Ok::<_, DecodeFailure>((items, payloads_bytes(items).len())),
    ensures
        parse_payload(0x09, payload_bytes(TagView::List(items)) + rest) == Ok::<_, DecodeFailure>(
            (TagView::List(items), payload_bytes(TagView::List(items)).len()),
        ),
{
    reveal(parse_payload);
    reveal(parse_items);
    let head = length_prefix(items.len(), 4);
    let body = payloads_bytes(items);
    let data = payload_bytes(TagView::List(items)) + rest;
    lemma_count_round_trip(items.len(), body + rest);
    assert(data =~= seq![list_kind(items)] + (head + (body + rest)));
    assert(data.skip(1) =~= head + (body + rest));
    assert(data.skip(5) =~= body + rest);
    if items.len() == 0 {
        assert(items =~= Seq::<TagView>::empty());
        assert(body =~= Seq::<u8>::empty());
    }
}

/// Values of one kind, written in a row and followed by anything, read back
/// in a row.
pub proof fn lemma_items_round_trip(kind: u8, items: Seq<TagView>, rest: Seq<u8>)
    requires
        forall|i: int| 0 <= i < items.len() ==> kind_of(#[trigger] items[i]) == kind,
        forall|i: int| 0 <= i < items.len() ==> faithful_tag(#[trigger] items[i]),
    ensures
        parse_items(kind, payloads_bytes(items) + rest, items.len()) == Ok::<_, DecodeFailure>(
            (items, payloads_bytes(items).len()),
        ),
    decreases items, 0int,
{
    let data = payloads_bytes(items) + rest;
    if items.len() == 0 {
        assert(items =~= Seq::<TagView>::empty());
        assert(parse_items(kind, data, 0) == Ok::<_, DecodeFailure>(
            (Seq::<TagView>::empty(), 0nat),
        )) by {
            reveal(parse_items);
        }
    } else {
        let first = items[0];
        let tail = items.skip(1);
        let head = payload_bytes(first);
        let body = payloads_bytes(tail);
        lemma_payloads_bytes_front(items);
        assert forall|i: int| 0 <= i < tail.len() implies kind_of(#[trigger] tail[i]) == kind
            && faithful_tag(tail[i]) by {
            assert(tail[i] == items[i + 1]);
        }
        lemma_tag_round_trip(first, body + rest);
        lemma_items_round_trip(kind, tail, rest);
        assert(data =~= head + (body + rest));
        assert(data.skip(head.len() as int) =~= body + rest);
        assert(seq![first] + tail =~= items);
        assert(parse_items(kind, data, items.len()) == after(
            seq![first],
            head.len(),
            parse_items(kind, data.skip(head.len() as int), (items.len() - 1) as nat),
        )) by {
            reveal(parse_items);
            reveal(parse_payload);
        }
    }
}

/// A named tag that comes back, written out and followed by anything, reads
/// back and stops where its bytes end.
pub proof fn lemma_named_round_trip(t: NamedTagView, rest: Seq<u8>)
    requires
        faithful_named(t),
    ensures
        parse_named(named_bytes(t) + rest) == Ok::<_, DecodeFailure>((t, named_bytes(t).len())),
    decreases t, 0int,
{
    let data = named_bytes(t) + rest;
    if t.payload is End {
        assert(parse_named(data) == Ok::<_, DecodeFailure>((t, 1nat))) by {
            reveal(parse_named);
        }
    } else {
        let name = text_bytes(t.name);
        let value = payload_bytes(t.payload);
        lemma_text_round_trip(t.name, value + rest);
        lemma_tag_round_trip(t.payload, rest);
        assert(data =~= seq![kind_of(t.payload)] + (name + (value + rest)));
        assert(data.skip(1) =~= name + (value + rest));
        assert(data.skip(1 + name.len() as int) =~= value + rest);
        assert(parse_named(data) == Ok::<_, DecodeFailure>((t, named_bytes(t).len()))) by {
            reveal(parse_named);
            reveal(parse_payload);
        }
    }
}

/// Children written in a row, closed by an end tag and followed by anything,
/// read back in a row; the end tag is consumed and left out.
pub proof fn lemma_children_round_trip(children: Seq<NamedTagView>, rest: Seq<u8>)
    requires
        forall|i: int| 0 <= i < children.len() ==> faithful_child(#[trigger] children[i]),
    ensures
        parse_children(children_bytes(children) + (seq![0x00u8] + rest)) == Ok::<
            _,
            DecodeFailure,
        >((children, children_bytes(children).len() + 1)),
    decreases children, 0int,
{
    let data = children_bytes(children) + (seq![0x00u8] + rest);
    if children.len() == 0 {
        assert(children =~= Seq::<NamedTagView>::empty());
        assert(data =~= seq![0x00u8] + rest);
        let end = NamedTagView { name: Seq::empty(), payload: TagView::End };
        assert(data.len() >= 1 && data[0] == 0x00);
        assert(parse_named(data) == Ok::<_, DecodeFailure>((end, 1nat))) by {
            reveal(parse_named);
        }
        lemma_children_step(data);
    } else {
        let first = children[0];
        let tail = children.skip(1);
        let head = named_bytes(first);
        let body = children_bytes(tail) + (seq![0x00u8] + rest);
        lemma_children_bytes_front(children);
        assert forall|i: int| 0 <= i < tail.len() implies faithful_child(#[trigger] tail[i]) by {
            assert(tail[i] == children[i + 1]);
        }
        assert(faithful_child(first));
        lemma_named_round_trip(first, body);
        lemma_children_round_trip(tail, rest);
        assert(data =~= head + body);
        assert(data.skip(head.len() as int) =~= body);
        assert(seq![first] + tail =~= children);
        lemma_children_step(data);
    }
}

/// Whatever a compound is read from, the last byte read is the end tag that
/// closes it, and none of the children is an end tag.
pub proof fn lemma_compound_end(data: Seq<u8>)
    ensures
        parse_children(data) matches Ok((children, n)) ==> 1 <= n <= data.len() && data[n - 1]
            == 0x00 && forall|i: int|
            0 <= i < children.len() ==> !((#[trigger] children[i]).payload is End),
    decreases data.len(),
{
    lemma_children_step(data);
    match parse_named(data) {
        Err(_) => {},
        Ok((child, n)) => {
            lemma_named_end(data);
            if !(child.payload is End) {
                assert(parse_children(data) is Ok ==> 0 < n <= data.len()) by {
                    reveal(parse_children);
                    reveal(parse_named);
                }
                if n <= data.len() {
                    let tail = data.skip(n as int);
                    lemma_compound_end(tail);
                    match parse_children(tail) {
                        Ok((others, m)) => {
                            assert(data[n + m - 1] == tail[m - 1]);
                            let children = seq![child] + others;
                            assert forall|i: int| 0 <= i < children.len() implies !((
                            #[trigger] children[i]).payload is End) by {
                                if i > 0 {
                                    assert(children[i] == others[i - 1]);
                                }
                            }
                        },
                        Err(_) => {},
                    }
                }
            }
        },
    }
}

/// A named tag that was read is an end tag exactly when its kind byte is 0,
/// and an end tag is that one byte.
pub proof fn lemma_named_end(data: Seq<u8>)
    ensures
        parse_named(data) matches Ok((t, n)) ==> data.len() >= 1 && (t.payload is End <==> data[0]
            == 0x00) && (t.payload is End ==> n == 1),
{
    reveal(parse_named);
    reveal(parse_payload);
}

impl Tag {
    /// A copy of the whole tree.
    fn copy_tree(&self) -> (r: Tag)
        ensures
            r.deep_view() == self.deep_view(),
        decreases *self,
    {
        match self {
            Tag::Byte(v) => Tag::Byte(*v),
            Tag::Short(v) => Tag::Short(*v),
            Tag::Int(v) => Tag::Int(*v),
            Tag::Long(v) => Tag::Long(*v),
            Tag::Float(v) => Tag::Float(*v),
            Tag::Double(v) => Tag::Double(*v),
            Tag::ByteArray(v) => Tag::ByteArray(slice_to_vec(v.as_slice())),
            Tag::String(v) => Tag::String(v.clone()),
            Tag::List(v) => {
                let mut out: Vec<Tag> = Vec::new();
                let mut i: usize = 0;
                proof {
                    lemma_tag_views(*v, v@.len());
                }
                while i < v.len()
                    invariant
                        i <= v@.len(),
                        out@.len() == i,
                        decreases_to!(*self => *v),
                        forall|j: int| 0 <= j < i ==> tag_view(#[trigger] out@[j]) == tag_view(v@[j]),
                    decreases v@.len() - i,
                {
                    proof {
                        assert(decreases_to!(*v => v@));
                        assert(decreases_to!(v@ => v@[i as int]));
                    }
                    let item = v[i].copy_tree();
                    out.push(item);
                    i += 1;
                }
                proof {
                    lemma_tag_views(out, out@.len());
                    assert(tag_views(out, out@.len()) =~= tag_views(*v, v@.len()));
                }
                Tag::List(out)
            },
            Tag::Compound(v) => {
                let mut out: Vec<NamedTag> = Vec::new();
                let mut i: usize = 0;
                proof {
                    lemma_named_tag_views(*v, v@.len());
                }
                while i < v.len()
                    invariant
                        i <= v@.len(),
                        out@.len() == i,
                        decreases_to!(*self => *v),
                        forall|j: int|
                            0 <= j < i ==> named_tag_view(#[trigger] out@[j]) == named_tag_view(
                                v@[j],
                            ),
                    decreases v@.len() - i,
                {
                    proof {
                        assert(decreases_to!(*v => v@));
                        assert(decreases_to!(v@ => v@[i as int]));
                    }
                    let item = v[i].copy_named();
                    out.push(item);
                    i += 1;
                }
                proof {
                    lemma_named_tag_views(out, out@.len());
                    assert(named_tag_views(out, out@.len()) =~= named_tag_views(*v, v@.len()));
                }
                Tag::Compound(out)
            },
            Tag::IntArray(v) => Tag::IntArray(slice_to_vec(v.as_slice())),
            Tag::LongArray(v) => Tag::LongArray(slice_to_vec(v.as_slice())),
            Tag::End => Tag::End,
        }
    }
}

impl NamedTag {
    /// A copy of the tag and the whole tree below it.
    fn copy_named(&self) -> (r: NamedTag)
        ensures
            r.deep_view() == self.deep_view(),
        decreases *self,
    {
        NamedTag { name: self.name.clone(), payload: self.payload.copy_tree() }
    }
}

impl Clone for Tag {
    fn clone(&self) -> (r: Self)
        ensures
            r.deep_view() == self.deep_view(),
    {
        self.copy_tree()
    }
}

impl Clone for NamedTag {
    fn clone(&self) -> (r: Self)
        ensures
            r.deep_view() == self.deep_view(),
    {
        self.copy_named()
    }
}

/// A tree that does not start with the kind byte of a compound is refused
/// for that byte.
pub proof fn lemma_invalid_start_tag(data: Seq<u8>)
    ensures
        data.len() >= 1 && data[0] != 0x0A ==> parse_root(data) == Err::<(NamedTagView, nat), _>(
            DecodeFailure::NbtInvalidStartTag(data[0]),
        ),
        data.len() == 0 ==> parse_root(data) == Err::<(NamedTagView, nat), _>(DecodeFailure::Eof),
{
}

} // verus!
