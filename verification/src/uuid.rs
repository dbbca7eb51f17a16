use crate::byte_order::{
    be_bytes, be_value, lemma_be_bytes_len, lemma_be_value_of_bytes, lemma_radix_values, radix,
    ByteOrder, ProtoByteOrder,
};
use crate::utils::{hex, hex_digit, hex_text, hex_value, parse_hex_char};
use vstd::prelude::*;
use vstd::slice::slice_subrange;
use vstd::string::{StringExecFns, StringSliceAdditionalSpecFns};
use vstd::utf8::{encode_utf8, is_ascii_chars};

verus! {

/// A 128-bit identifier, written `8-4-4-4-12` in hexadecimal.
#[derive(Copy, Clone, PartialEq, Hash, Eq, Debug)]
pub struct UUID4 {
    raw: u128,
}

impl View for UUID4 {
    type V = u128;

    closed spec fn view(&self) -> u128 {
        self.raw
    }
}

impl DeepView for UUID4 {
    type V = u128;

    open spec fn deep_view(&self) -> u128 {
        self@
    }
}

impl From<u128> for UUID4 {
    fn from(raw: u128) -> (r: Self) {
        UUID4 { raw }
    }
}

impl vstd::std_specs::convert::FromSpecImpl<u128> for UUID4 {
    open spec fn obeys_from_spec() -> bool {
        true
    }

    closed spec fn from_spec(v: u128) -> Self {
        UUID4 { raw: v }
    }
}

/// An identifier made from a number has that number.
pub proof fn lemma_from_u128(v: u128)
    ensures
        <UUID4 as vstd::std_specs::convert::FromSpec<u128>>::from_spec(v)@ == v,
{
}

/// Every byte of `text` is a hexadecimal digit.
pub open spec fn all_hex(text: Seq<u8>) -> bool {
    forall|i: int| 0 <= i < text.len() ==> hex_value(#[trigger] text[i]) is Some
}

/// The value of one hexadecimal digit, 0 for a byte that is none.
pub open spec fn digit_value(code: u8) -> nat {
    match hex_value(code) {
        Some(v) => v as nat,
        None => 0,
    }
}

/// The number that hexadecimal digits spell, most significant first.
pub open spec fn hex_number(digits: Seq<u8>) -> nat
    decreases digits.len(),
{
    if digits.len() == 0 {
        0
    } else {
        hex_number(digits.drop_last()) * 16 + digit_value(digits.last())
    }
}

/// The 32 digits of an identifier's text, without the dashes between them.
pub open spec fn uuid_digits(text: Seq<u8>) -> Seq<u8> {
    text.subrange(0, 8) + text.subrange(9, 13) + text.subrange(14, 18) + text.subrange(19, 23)
        + text.subrange(24, 36)
}

/// The text has the form `8-4-4-4-12`: 36 bytes, dashes in their four
/// places, hexadecimal digits everywhere else.
pub open spec fn is_uuid_text(text: Seq<u8>) -> bool {
    &&& text.len() == 36
    &&& text[8] == 45
    &&& text[13] == 45
    &&& text[18] == 45
    &&& text[23] == 45
    &&& all_hex(uuid_digits(text))
}

/// The identifier that a text spells, if it has the form of one.
pub open spec fn uuid_of_text(text: Seq<u8>) -> Option<u128> {
    if is_uuid_text(text) {
        Some(hex_number(uuid_digits(text)) as u128)
    } else {
        None
    }
}

/// The text of an identifier: its 16 bytes in hexadecimal, most significant
/// first, with dashes after the 4th, 6th, 8th and 10th byte.
pub open spec fn uuid_text(raw: u128) -> Seq<char> {
    let bytes = be_bytes(raw as nat, 16);
    hex_text(bytes.subrange(0, 4)) + seq!['-'] + hex_text(bytes.subrange(4, 6)) + seq!['-']
        + hex_text(bytes.subrange(6, 8)) + seq!['-'] + hex_text(bytes.subrange(8, 10)) + seq!['-']
        + hex_text(bytes.subrange(10, 16))
}

/// `rand::random` at `u128`: 128 bits from the thread's generator. Nothing
/// is known of them.
#[verifier::external_body]
fn random_bits() -> u128 {
    rand::random()
}

impl UUID4 {
    /// Reads an identifier from its text.
    pub fn parse(from: &str) -> (r: Option<UUID4>)
        ensures
            match r {
                Some(id) => uuid_of_text(from.spec_bytes()) == Some(id@),
                None => uuid_of_text(from.spec_bytes()) is None,
            },
    {
        match RawUUID::from_str(from.as_bytes()) {
            Some(raw) => raw.parse4(),
            None => None,
        }
    }

    /// An identifier drawn at random.
    pub fn random() -> Self {
        UUID4 { raw: random_bits() }
    }

    pub fn to_u128(self) -> (r: u128)
        ensures
            r == self@,
    {
        self.raw
    }

    /// The text of the identifier.
    pub fn hex(self) -> (r: String)
        ensures
            r@ == uuid_text(self@),
    {
        let bytes = ProtoByteOrder::write_u2long(self.raw);
        let bytes = bytes.as_slice();
        let mut out = hex(slice_subrange(bytes, 0, 4));
        out.push('-');
        out.append(hex(slice_subrange(bytes, 4, 6)).as_str());
        out.push('-');
        out.append(hex(slice_subrange(bytes, 6, 8)).as_str());
        out.push('-');
        out.append(hex(slice_subrange(bytes, 8, 10)).as_str());
        out.push('-');
        out.append(hex(slice_subrange(bytes, 10, 16)).as_str());
        proof {
            let b = be_bytes(self.raw as nat, 16);
            assert(out@ =~= hex_text(b.subrange(0, 4)) + seq!['-'] + hex_text(b.subrange(4, 6))
                + seq!['-'] + hex_text(b.subrange(6, 8)) + seq!['-'] + hex_text(b.subrange(8, 10))
                + seq!['-'] + hex_text(b.subrange(10, 16)));
        }
        out
    }
}

/// The five runs of digits of an identifier's text.
struct RawUUID<'a> {
    s0: &'a [u8],
    s1: &'a [u8],
    s2: &'a [u8],
    s3: &'a [u8],
    s4: &'a [u8],
}

impl<'a> RawUUID<'a> {
    spec fn digits(self) -> Seq<u8> {
        self.s0@ + self.s1@ + self.s2@ + self.s3@ + self.s4@
    }

    fn from_str(from: &'a [u8]) -> (r: Option<RawUUID<'a>>)
        ensures
            match r {
                Some(raw) => is_uuid_text(from@) && raw.digits() == uuid_digits(from@),
                None => !is_uuid_text(from@),
            },
    {
        let text = from;
        // 8-4-4-4-12
        let (s0, from) = str_split(from, 8)?;
        proof {
            assert(s0@ =~= text@.subrange(0, 8));
            if !all_hex(s0@) && text@.len() == 36 {
                let i = choose|i: int| 0 <= i < 8 && !(hex_value(#[trigger] s0@[i]) is Some);
                assert(uuid_digits(text@)[i] == s0@[i]);
            }
        }
        str_check_hex(s0)?;
        let from = str_tag(from, 45)?;
        let (s1, from) = str_split(from, 4)?;
        proof {
            assert(s1@ =~= text@.subrange(9, 13));
            if !all_hex(s1@) && text@.len() == 36 {
                let i = choose|i: int| 0 <= i < 4 && !(hex_value(#[trigger] s1@[i]) is Some);
                assert(uuid_digits(text@)[8 + i] == s1@[i]);
            }
        }
        str_check_hex(s1)?;
        let from = str_tag(from, 45)?;
        let (s2, from) = str_split(from, 4)?;
        proof {
            assert(s2@ =~= text@.subrange(14, 18));
            if !all_hex(s2@) && text@.len() == 36 {
                let i = choose|i: int| 0 <= i < 4 && !(hex_value(#[trigger] s2@[i]) is Some);
                assert(uuid_digits(text@)[12 + i] == s2@[i]);
            }
        }
        str_check_hex(s2)?;
        let from = str_tag(from, 45)?;
        let (s3, from) = str_split(from, 4)?;
        proof {
            assert(s3@ =~= text@.subrange(19, 23));
            if !all_hex(s3@) && text@.len() == 36 {
                let i = choose|i: int| 0 <= i < 4 && !(hex_value(#[trigger] s3@[i]) is Some);
                assert(uuid_digits(text@)[16 + i] == s3@[i]);
            }
        }
        str_check_hex(s3)?;
        let from = str_tag(from, 45)?;
        let (s4, from) = str_split(from, 12)?;
        proof {
            assert(s4@ =~= text@.subrange(24, 36));
            if !all_hex(s4@) && text@.len() == 36 {
                let i = choose|i: int| 0 <= i < 12 && !(hex_value(#[trigger] s4@[i]) is Some);
                assert(uuid_digits(text@)[20 + i] == s4@[i]);
            }
        }
        str_check_hex(s4)?;
        str_check_eof(from)?;
        proof {
            let d = uuid_digits(text@);
            assert forall|i: int| 0 <= i < d.len() implies hex_value(#[trigger] d[i]) is Some by {
                if i < 8 {
                    assert(d[i] == s0@[i]);
                } else if i < 12 {
                    assert(d[i] == s1@[i - 8]);
                } else if i < 16 {
                    assert(d[i] == s2@[i - 12]);
                } else if i < 20 {
                    assert(d[i] == s3@[i - 16]);
                } else {
                    assert(d[i] == s4@[i - 20]);
                }
            }
        }
        Some(Self { s0, s1, s2, s3, s4 })
    }

    fn parse4(self) -> (r: Option<UUID4>)
        requires
            self.digits().len() == 32,
            all_hex(self.digits()),
        ensures
            r matches Some(id) && id@ == hex_number(self.digits()),
    {
        let ghost all = self.digits();
        proof {
            assert(Seq::<u8>::empty() + self.s0@ =~= self.s0@);
            assert forall|i: int| 0 <= i < 32 implies hex_value(#[trigger] all[i]) is Some by {}
            assert(all_hex(self.s0@)) by {
                assert forall|i: int| 0 <= i < self.s0@.len() implies hex_value(
                    #[trigger] self.s0@[i],
                ) is Some by {
                    assert(all[i] == self.s0@[i]);
                }
            }
            assert(all_hex(self.s1@)) by {
                assert forall|i: int| 0 <= i < self.s1@.len() implies hex_value(
                    #[trigger] self.s1@[i],
                ) is Some by {
                    assert(all[self.s0@.len() + i] == self.s1@[i]);
                }
            }
            assert(all_hex(self.s2@)) by {
                assert forall|i: int| 0 <= i < self.s2@.len() implies hex_value(
                    #[trigger] self.s2@[i],
                ) is Some by {
                    assert(all[self.s0@.len() + self.s1@.len() + i] == self.s2@[i]);
                }
            }
            assert(all_hex(self.s3@)) by {
                assert forall|i: int| 0 <= i < self.s3@.len() implies hex_value(
                    #[trigger] self.s3@[i],
                ) is Some by {
                    assert(all[self.s0@.len() + self.s1@.len() + self.s2@.len() + i]
                        == self.s3@[i]);
                }
            }
            assert(all_hex(self.s4@)) by {
                assert forall|i: int| 0 <= i < self.s4@.len() implies hex_value(
                    #[trigger] self.s4@[i],
                ) is Some by {
                    assert(all[self.s0@.len() + self.s1@.len() + self.s2@.len() + self.s3@.len()
                        + i] == self.s4@[i]);
                }
            }
        }
        proof {
            lemma_gather_ends(0, 0);
        }
        let (raw, bit_index) = gather(0, 0, self.s0, Ghost(Seq::empty()))?;
        let (raw, bit_index) = gather(raw, bit_index, self.s1, Ghost(self.s0@))?;
        let (raw, bit_index) = gather(raw, bit_index, self.s2, Ghost(self.s0@ + self.s1@))?;
        let (raw, bit_index) = gather(
            raw,
            bit_index,
            self.s3,
            Ghost(self.s0@ + self.s1@ + self.s2@),
        )?;
        let (raw, bit_index) = gather(
            raw,
            bit_index,
            self.s4,
            Ghost(self.s0@ + self.s1@ + self.s2@ + self.s3@),
        )?;
        proof {
            lemma_gather_ends(raw, 0);
            assert(self.s0@ + self.s1@ + self.s2@ + self.s3@ + self.s4@ =~= all);
        }
        Some(UUID4 { raw })
    }
}

/// `raw` holds the digits `seen` in its top `bit_index` bits and nothing
/// below them.
spec fn gathered(raw: u128, bit_index: u128, seen: Seq<u8>) -> bool {
    &&& bit_index == 4 * seen.len()
    &&& bit_index <= 128
    &&& bit_index < 128 ==> raw << bit_index == 0
    &&& bit_index == 0 ==> raw == 0
    &&& bit_index > 0 ==> raw >> ((128 - bit_index) as u128) == hex_number(seen)
}

proof fn lemma_gather(raw: u128, p: u128, b: u128)
    by (bit_vector)
    requires
        b <= 124,
        p < 16,
        raw << b == 0,
    ensures
        b < 124 ==> (raw | (p << ((124 - b) as u128))) << ((b + 4) as u128) == 0,
        b > 0 ==> (raw | (p << ((124 - b) as u128))) >> ((124 - b) as u128) == (raw >> ((128
            - b) as u128)) * 16 + p,
        b == 0 ==> (raw | (p << ((124 - b) as u128))) >> ((124 - b) as u128) == p,
{
}

proof fn lemma_gather_ends(raw: u128, b: u128)
    by (bit_vector)
    ensures
        0u128 << b == 0,
        raw >> 0u128 == raw,
{
}

/// Puts the digits of `part` into `raw` below those that are there.
fn gather(raw: u128, bit_index: u128, part: &[u8], Ghost(seen): Ghost<Seq<u8>>) -> (r: Option<
    (u128, u128),
>)
    requires
        gathered(raw, bit_index, seen),
        all_hex(part@),
        bit_index + 4 * part@.len() <= 128,
    ensures
        r matches Some((raw2, b2)) && gathered(raw2, b2, seen + part@),
{
    let mut raw = raw;
    let mut bit_index = bit_index;
    let mut i: usize = 0;
    proof {
        assert(seen + part@.take(0) =~= seen);
    }
    while i < part.len()
        invariant
            i <= part@.len(),
            all_hex(part@),
            bit_index + 4 * (part@.len() - i) <= 128,
            gathered(raw, bit_index, seen + part@.take(i as int)),
        decreases part@.len() - i,
    {
        let c = part[i];
        if let Some(parsed) = parse_hex_char(c) {
            proof {
                let before = seen + part@.take(i as int);
                let now = seen + part@.take(i + 1);
                assert(now.drop_last() =~= before);
                assert(now.last() == c);
                lemma_gather(raw, parsed as u128, bit_index);
                assert(hex_number(now) == hex_number(before) * 16 + parsed);
                if bit_index == 0 {
                    assert(before =~= Seq::<u8>::empty());
                }
            }
            raw |= (parsed as u128) << (124 - bit_index);
            bit_index += 4;
        } else {
            proof {
                assert(hex_value(part@[i as int]) is Some);
            }
            return None;
        }
        i += 1;
    }
    proof {
        assert(part@.take(i as int) =~= part@);
    }
    Some((raw, bit_index))
}

/// Steps over the byte `tag` at the front of `source`.
fn str_tag(source: &[u8], tag: u8) -> (r: Option<&[u8]>)
    ensures
        match r {
            Some(back) => source@.len() >= 1 && source@[0] == tag && back@ == source@.skip(1),
            None => source@.len() < 1 || source@[0] != tag,
        },
{
    let (front, back) = str_split(source, 1)?;
    if front[0] != tag {
        None
    } else {
        Some(back)
    }
}

fn str_check_eof(source: &[u8]) -> (r: Option<()>)
    ensures
        r is Some <==> source@.len() == 0,
{
    if source.is_empty() {
        Some(())
    } else {
        None
    }
}

/// Accepts a run of hexadecimal digits that is not empty and has an even
/// length.
fn str_check_hex(source: &[u8]) -> (r: Option<()>)
    ensures
        r is Some <==> source@.len() > 0 && source@.len() % 2 == 0 && all_hex(source@),
{
    if source.is_empty() {
        return None;
    }
    let mut rest = source;
    proof {
        assert(source@.skip(0) =~= source@);
    }
    loop
        invariant
            0 < rest@.len() <= source@.len(),
            rest@ == source@.skip(source@.len() - rest@.len()),
            (source@.len() - rest@.len()) % 2 == 0,
            all_hex(source@.take(source@.len() - rest@.len())),
        decreases rest@.len(),
    {
        let ghost done = source@.len() - rest@.len();
        let (part, next) = match str_split(rest, 2) {
            Some(pair) => pair,
            None => {
                return None;
            },
        };
        proof {
            assert(part@[0] == source@[done]);
            assert(part@[1] == source@[done + 1]);
            assert(next@ =~= source@.skip(done + 2));
        }
        if parse_hex_char(part[0]).is_none() {
            return None;
        }
        if parse_hex_char(part[1]).is_none() {
            return None;
        }
        proof {
            let upto = source@.take(done + 2);
            assert forall|j: int| 0 <= j < upto.len() implies hex_value(#[trigger] upto[j]) is Some by {
                if j < done {
                    assert(source@.take(done)[j] == upto[j]);
                }
            }
        }
        rest = next;
        if rest.is_empty() {
            proof {
                assert(source@.take(source@.len() as int) =~= source@);
            }
            return Some(());
        }
    }
}

/// Splits `source` after `n` bytes, if it has as many.
fn str_split(source: &[u8], n: usize) -> (r: Option<(&[u8], &[u8])>)
    ensures
        match r {
            Some((front, back)) => source@.len() >= n && front@ == source@.take(n as int) && back@
                == source@.skip(n as int),
            None => source@.len() < n,
        },
{
    if source.len() < n {
        None
    } else {
        Some(source.split_at(n))
    }
}

/// The hexadecimal digits of bytes as ASCII codes.
pub open spec fn hex_codes(data: Seq<u8>) -> Seq<u8> {
    Seq::new(hex_text(data).len(), |k: int| hex_text(data)[k] as u8)
}

/// A hexadecimal digit is an ASCII character that reads back as its value.
pub proof fn lemma_hex_digit(half: u8)
    requires
        half < 16,
    ensures
        hex_digit(half) as u32 <= 0x7F,
        hex_digit(half) != '-',
        hex_value(hex_digit(half) as u8) == Some(half),
{
}

/// The hexadecimal text of bytes has two digits to a byte, is in ASCII, and
/// spells the number that the bytes spell in base 256.
pub proof fn lemma_hex_text(data: Seq<u8>)
    ensures
        hex_text(data).len() == 2 * data.len(),
        is_ascii_chars(hex_text(data)),
        all_hex(hex_codes(data)),
        hex_number(hex_codes(data)) == be_value(data),
    decreases data.len(),
{
    if data.len() > 0 {
        let front = data.drop_last();
        let last = data.last();
        lemma_hex_text(front);
        lemma_hex_digit(last / 16);
        lemma_hex_digit(last % 16);
        let text = hex_text(data);
        let codes = hex_codes(data);
        assert(text == hex_text(front).push(hex_digit(last / 16)).push(hex_digit(last % 16)));
        assert forall|i: int| 0 <= i < text.len() implies '\0' <= #[trigger] text[i] <= '\u{7f}' by {
            if i < hex_text(front).len() {
                assert(text[i] == hex_text(front)[i]);
            }
        }
        assert forall|i: int| 0 <= i < codes.len() implies hex_value(#[trigger] codes[i]) is Some by {
            if i < hex_text(front).len() {
                assert(codes[i] == hex_codes(front)[i]);
            }
        }
        let n = codes.len() as int;
        assert(codes.drop_last().drop_last() =~= hex_codes(front));
        assert(codes.drop_last().last() == hex_digit(last / 16) as u8);
        assert(codes.last() == hex_digit(last % 16) as u8);
        assert(hex_number(codes) == hex_number(codes.drop_last()) * 16 + digit_value(codes.last()));
        assert(hex_number(codes.drop_last()) == hex_number(hex_codes(front)) * 16 + digit_value(
            codes.drop_last().last(),
        ));
    } else {
        assert(hex_codes(data) =~= Seq::<u8>::empty());
    }
}

/// The hexadecimal text of two runs of bytes is the text of the first, then
/// that of the second.
pub proof fn lemma_hex_text_concat(a: Seq<u8>, b: Seq<u8>)
    ensures
        hex_text(a + b) == hex_text(a) + hex_text(b),
    decreases b.len(),
{
    if b.len() == 0 {
        assert(a + b =~= a);
        assert(hex_text(a) + hex_text(b) =~= hex_text(a));
    } else {
        lemma_hex_text_concat(a, b.drop_last());
        assert((a + b).drop_last() =~= a + b.drop_last());
        assert((a + b).last() == b.last());
        assert(hex_text(a + b) =~= hex_text(a) + hex_text(b));
    }
}

/// The text of an identifier reads back as the identifier.
pub proof fn lemma_uuid_text_round_trip(raw: u128)
    ensures
        is_ascii_chars(uuid_text(raw)),
        uuid_text(raw).len() == 36,
        uuid_of_text(encode_utf8(uuid_text(raw))) == Some(raw),
{
    let bytes = be_bytes(raw as nat, 16);
    lemma_be_bytes_len(raw as nat, 16);
    lemma_be_value_of_bytes(raw as nat, 16);
    lemma_radix_values();
    let b0 = bytes.subrange(0, 4);
    let b1 = bytes.subrange(4, 6);
    let b2 = bytes.subrange(6, 8);
    let b3 = bytes.subrange(8, 10);
    let b4 = bytes.subrange(10, 16);
    lemma_hex_text(b0);
    lemma_hex_text(b1);
    lemma_hex_text(b2);
    lemma_hex_text(b3);
    lemma_hex_text(b4);
    lemma_hex_text(bytes);
    lemma_hex_text_concat(b0, b1);
    lemma_hex_text_concat(b0 + b1, b2);
    lemma_hex_text_concat(b0 + b1 + b2, b3);
    lemma_hex_text_concat(b0 + b1 + b2 + b3, b4);
    assert(b0 + b1 + b2 + b3 + b4 =~= bytes);
    let text = uuid_text(raw);
    let digits = hex_text(bytes);
    assert(digits == hex_text(b0) + hex_text(b1) + hex_text(b2) + hex_text(b3) + hex_text(b4));
    assert(text.len() == 36);
    assert forall|i: int| 0 <= i < text.len() implies '\0' <= #[trigger] text[i] <= '\u{7f}' by {
        if i < 8 {
            assert(text[i] == hex_text(b0)[i]);
        } else if i == 8 {
        } else if i < 13 {
            assert(text[i] == hex_text(b1)[i - 9]);
        } else if i == 13 {
        } else if i < 18 {
            assert(text[i] == hex_text(b2)[i - 14]);
        } else if i == 18 {
        } else if i < 23 {
            assert(text[i] == hex_text(b3)[i - 19]);
        } else if i == 23 {
        } else {
            assert(text[i] == hex_text(b4)[i - 24]);
        }
    }
    vstd::utf8::is_ascii_chars_encode_utf8(text);
    let wire = encode_utf8(text);
    assert(wire[8] == 45 && wire[13] == 45 && wire[18] == 45 && wire[23] == 45) by {
        assert(text[8] == '-' && text[13] == '-' && text[18] == '-' && text[23] == '-');
    }
    let found = uuid_digits(wire);
    assert(found =~= hex_codes(bytes)) by {
        assert(found.len() == 32);
        assert forall|k: int| 0 <= k < 32 implies found[k] == hex_codes(bytes)[k] by {
            if k < 8 {
                assert(found[k] == wire[k]);
                assert(text[k] == digits[k]);
            } else if k < 12 {
                assert(found[k] == wire[k + 1]);
                assert(text[k + 1] == digits[k]);
            } else if k < 16 {
                assert(found[k] == wire[k + 2]);
                assert(text[k + 2] == digits[k]);
            } else if k < 20 {
                assert(found[k] == wire[k + 3]);
                assert(text[k + 3] == digits[k]);
            } else {
                assert(found[k] == wire[k + 4]);
                assert(text[k + 4] == digits[k]);
            }
        }
    }
    vstd::arithmetic::div_mod::lemma_small_mod(raw as nat, radix(16));
}

} // verus!
