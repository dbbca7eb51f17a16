use crate::byte_order::{
    be_bytes, be_value, lemma_be_bytes_len, lemma_be_value_of_bytes, lemma_radix_values,
    lemma_signed_unsigned, radix, to_signed, to_unsigned, ByteOrder, ProtoByteOrder,
};
use crate::deserialize::{
    agrees, DecodeFailure, Decoded, Deserialize, DeserializeErr, DeserializeResult, Deserialized,
};
use crate::serialize::{Serialize, SerializeErr, SerializeResult, Serializer};
use crate::nbt::{
    faithful_child, kind_of, lemma_faithful_writable, lemma_named_round_trip, named_bytes,
    parse_named, parse_root, read_named_tag, writable, NamedTag, NamedTagView, Tag, TagView,
};
use crate::utils::{string_from_utf8, take};
use crate::uuid::UUID4;
pub use crate::varnum::{VarInt, VarLong};
use vstd::prelude::*;
use vstd::slice::slice_to_vec;
use vstd::string::StringSliceAdditionalSpecFns;
use vstd::utf8::{decode_utf8, encode_utf8, valid_utf8};

verus! {

/// A type whose decoder undoes its encoder.
///
/// `faithful` marks the values that survive the trip. For each of them,
/// decoding the encoding gives the value back and stops exactly where the
/// encoding ends. Where the type is `delimited`, its encoding marks its own
/// end, and this holds whatever bytes follow on the wire; a type that is not
/// takes all the input there is, and can only stand last.
pub trait ProtocolType: Serialize + Deserialize {
    spec fn faithful(v: Self::V) -> bool;

    spec fn delimited() -> bool;

    proof fn lemma_round_trip(v: Self::V, rest: Seq<u8>)
        requires
            Self::faithful(v),
            Self::delimited() || rest.len() == 0,
        ensures
            Self::serializable(v),
            Self::decode(Self::encode(v) + rest) == Ok::<(Self::V, nat), DecodeFailure>(
                (v, Self::encode(v).len()),
            ),
    ;
}

/// Decoding exactly what was encoded gives the value back and leaves nothing.
pub proof fn lemma_decode_encode<T: ProtocolType>(v: T::V)
    requires
        T::faithful(v),
    ensures
        T::decode(T::encode(v)) == Ok::<(T::V, nat), DecodeFailure>((v, T::encode(v).len())),
        T::encode(v).skip(T::encode(v).len() as int) == Seq::<u8>::empty(),
{
    T::lemma_round_trip(v, Seq::empty());
    assert(T::encode(v) + Seq::<u8>::empty() =~= T::encode(v));
    assert(T::encode(v).skip(T::encode(v).len() as int) =~= Seq::<u8>::empty());
}

/// A big-endian number of `width` bytes, followed by anything, reads back.
pub proof fn lemma_fixed_round_trip(v: nat, width: nat, rest: Seq<u8>)
    requires
        v < radix(width),
    ensures
        be_bytes(v, width).len() == width,
        (be_bytes(v, width) + rest).take(width as int) == be_bytes(v, width),
        be_value((be_bytes(v, width) + rest).take(width as int)) == v,
{
    lemma_be_bytes_len(v, width);
    lemma_be_value_of_bytes(v, width);
    vstd::arithmetic::div_mod::lemma_small_mod(v, radix(width));
    assert((be_bytes(v, width) + rest).take(width as int) =~= be_bytes(v, width));
}

// One byte: 1 for true, 0 for false.
impl Serialize for bool {
    open spec fn serializable(v: bool) -> bool {
        true
    }

    #[verifier::opaque]
    open spec fn encode(v: bool) -> Seq<u8> {
        seq![if v { 1u8 } else { 0u8 }]
    }

    fn mc_serialize<S: Serializer>(&self, to: &mut S) -> (r: SerializeResult) {
        proof {
            reveal(<bool as Serialize>::encode);
        }
        let r = to.serialize_byte(if *self { 1 } else { 0 });
        proof {
            assert(old(to).written().push(if *self { 1u8 } else { 0u8 }) =~= old(to).written()
                + Self::encode(*self));
        }
        r
    }
}

impl Deserialize for bool {
    #[verifier::opaque]
    open spec fn decode(data: Seq<u8>) -> Decoded<bool> {
        if data.len() < 1 {
            Err(DecodeFailure::Eof)
        } else if data[0] == 0 {
            Ok((false, 1))
        } else if data[0] == 1 {
            Ok((true, 1))
        } else {
            Err(DecodeFailure::InvalidBool(data[0]))
        }
    }

    fn mc_deserialize(data: &[u8]) -> (r: DeserializeResult<'_, bool>) {
        proof {
            reveal(<bool as Deserialize>::decode);
        }
        let Deserialized { value: b, data: rest } = ProtoByteOrder::read_ubyte(data)?;
        match b {
            0x00 => Ok(Deserialized { value: false, data: rest }),
            0x01 => Ok(Deserialized { value: true, data: rest }),
            other => Err(DeserializeErr::InvalidBool(other)),
        }
    }
}

impl ProtocolType for bool {
    open spec fn faithful(v: bool) -> bool {
        true
    }

    open spec fn delimited() -> bool {
        true
    }

    proof fn lemma_round_trip(v: bool, rest: Seq<u8>) {
        reveal(<bool as Serialize>::encode);
        reveal(<bool as Deserialize>::decode);
    }
}

impl Serialize for u8 {
    open spec fn serializable(v: u8) -> bool {
        true
    }

    #[verifier::opaque]
    open spec fn encode(v: u8) -> Seq<u8> {
        seq![v]
    }

    fn mc_serialize<S: Serializer>(&self, to: &mut S) -> (r: SerializeResult) {
        proof {
            reveal(<u8 as Serialize>::encode);
        }
        let data = ProtoByteOrder::write_ubyte(*self);
        to.serialize_bytes(data.as_slice())
    }
}

impl Deserialize for u8 {
    #[verifier::opaque]
    open spec fn decode(data: Seq<u8>) -> Decoded<u8> {
        if data.len() < 1 {
            Err(DecodeFailure::Eof)
        } else {
            Ok((data[0], 1))
        }
    }

    fn mc_deserialize(data: &[u8]) -> (r: DeserializeResult<'_, u8>) {
        proof {
            reveal(<u8 as Deserialize>::decode);
        }
        ProtoByteOrder::read_ubyte(data)
    }
}

impl ProtocolType for u8 {
    open spec fn faithful(v: u8) -> bool {
        true
    }

    open spec fn delimited() -> bool {
        true
    }

    proof fn lemma_round_trip(v: u8, rest: Seq<u8>) {
        reveal(<u8 as Serialize>::encode);
        reveal(<u8 as Deserialize>::decode);
    }
}

impl Serialize for i8 {
    open spec fn serializable(v: i8) -> bool {
        true
    }

    #[verifier::opaque]
    open spec fn encode(v: i8) -> Seq<u8> {
        seq![to_unsigned(v as int, 1) as u8]
    }

    fn mc_serialize<S: Serializer>(&self, to: &mut S) -> (r: SerializeResult) {
        proof {
            reveal(<i8 as Serialize>::encode);
        }
        let data = ProtoByteOrder::write_byte(*self);
        to.serialize_bytes(data.as_slice())
    }
}

impl Deserialize for i8 {
    #[verifier::opaque]
    open spec fn decode(data: Seq<u8>) -> Decoded<i8> {
        if data.len() < 1 {
            Err(DecodeFailure::Eof)
        } else {
            Ok((to_signed(data[0] as nat, 1) as i8, 1))
        }
    }

    fn mc_deserialize(data: &[u8]) -> (r: DeserializeResult<'_, i8>) {
        proof {
            reveal(<i8 as Deserialize>::decode);
        }
        ProtoByteOrder::read_byte(data)
    }
}

impl ProtocolType for i8 {
    open spec fn faithful(v: i8) -> bool {
        true
    }

    open spec fn delimited() -> bool {
        true
    }

    proof fn lemma_round_trip(v: i8, rest: Seq<u8>) {
        reveal(<i8 as Serialize>::encode);
        reveal(<i8 as Deserialize>::decode);
        lemma_radix_values();
        lemma_signed_unsigned(v as int, 0, 1);
    }
}

impl Serialize for u16 {
    open spec fn serializable(v: u16) -> bool {
        true
    }

    #[verifier::opaque]
    open spec fn encode(v: u16) -> Seq<u8> {
        be_bytes(v as nat, 2)
    }

    fn mc_serialize<S: Serializer>(&self, to: &mut S) -> (r: SerializeResult) {
        proof {
            reveal(<u16 as Serialize>::encode);
        }
        let data = ProtoByteOrder::write_ushort(*self);
        to.serialize_bytes(data.as_slice())
    }
}

impl Deserialize for u16 {
    #[verifier::opaque]
    open spec fn decode(data: Seq<u8>) -> Decoded<u16> {
        if data.len() < 2 {
            Err(DecodeFailure::Eof)
        } else {
            Ok((be_value(data.take(2)) as u16, 2))
        }
    }

    fn mc_deserialize(data: &[u8]) -> (r: DeserializeResult<'_, u16>) {
        proof {
            reveal(<u16 as Deserialize>::decode);
        }
        ProtoByteOrder::read_ushort(data)
    }
}

impl ProtocolType for u16 {
    open spec fn faithful(v: u16) -> bool {
        true
    }

    open spec fn delimited() -> bool {
        true
    }

    proof fn lemma_round_trip(v: u16, rest: Seq<u8>) {
        reveal(<u16 as Serialize>::encode);
        reveal(<u16 as Deserialize>::decode);
        lemma_radix_values();
        lemma_fixed_round_trip(v as nat, 2, rest);
    }
}

impl Serialize for i16 {
    open spec fn serializable(v: i16) -> bool {
        true
    }

    #[verifier::opaque]
    open spec fn encode(v: i16) -> Seq<u8> {
        be_bytes(to_unsigned(v as int, 2), 2)
    }

    fn mc_serialize<S: Serializer>(&self, to: &mut S) -> (r: SerializeResult) {
        proof {
            reveal(<i16 as Serialize>::encode);
        }
        let data = ProtoByteOrder::write_short(*self);
        to.serialize_bytes(data.as_slice())
    }
}

impl Deserialize for i16 {
    #[verifier::opaque]
    open spec fn decode(data: Seq<u8>) -> Decoded<i16> {
        if data.len() < 2 {
            Err(DecodeFailure::Eof)
        } else {
            Ok((to_signed(be_value(data.take(2)), 2) as i16, 2))
        }
    }

    fn mc_deserialize(data: &[u8]) -> (r: DeserializeResult<'_, i16>) {
        proof {
            reveal(<i16 as Deserialize>::decode);
        }
        ProtoByteOrder::read_short(data)
    }
}

impl ProtocolType for i16 {
    open spec fn faithful(v: i16) -> bool {
        true
    }

    open spec fn delimited() -> bool {
        true
    }

    proof fn lemma_round_trip(v: i16, rest: Seq<u8>) {
        reveal(<i16 as Serialize>::encode);
        reveal(<i16 as Deserialize>::decode);
        lemma_radix_values();
            lemma_signed_unsigned(v as int, 0, 2);
        lemma_fixed_round_trip(to_unsigned(v as int, 2), 2, rest);
    }
}

impl Serialize for u32 {
    open spec fn serializable(v: u32) -> bool {
        true
    }

    #[verifier::opaque]
    open spec fn encode(v: u32) -> Seq<u8> {
        be_bytes(v as nat, 4)
    }

    fn mc_serialize<S: Serializer>(&self, to: &mut S) -> (r: SerializeResult) {
        proof {
            reveal(<u32 as Serialize>::encode);
        }
        let data = ProtoByteOrder::write_uint(*self);
        to.serialize_bytes(data.as_slice())
    }
}

impl Deserialize for u32 {
    #[verifier::opaque]
    open spec fn decode(data: Seq<u8>) -> Decoded<u32> {
        if data.len() < 4 {
            Err(DecodeFailure::Eof)
        } else {
            Ok((be_value(data.take(4)) as u32, 4))
        }
    }

    fn mc_deserialize(data: &[u8]) -> (r: DeserializeResult<'_, u32>) {
        proof {
            reveal(<u32 as Deserialize>::decode);
        }
        ProtoByteOrder::read_uint(data)
    }
}

impl ProtocolType for u32 {
    open spec fn faithful(v: u32) -> bool {
        true
    }

    open spec fn delimited() -> bool {
        true
    }

    proof fn lemma_round_trip(v: u32, rest: Seq<u8>) {
        reveal(<u32 as Serialize>::encode);
        reveal(<u32 as Deserialize>::decode);
        lemma_radix_values();
        lemma_fixed_round_trip(v as nat, 4, rest);
    }
}

impl Serialize for i32 {
    open spec fn serializable(v: i32) -> bool {
        true
    }

    #[verifier::opaque]
    open spec fn encode(v: i32) -> Seq<u8> {
        be_bytes(to_unsigned(v as int, 4), 4)
    }

    fn mc_serialize<S: Serializer>(&self, to: &mut S) -> (r: SerializeResult) {
        proof {
            reveal(<i32 as Serialize>::encode);
        }
        let data = ProtoByteOrder::write_int(*self);
        to.serialize_bytes(data.as_slice())
    }
}

impl Deserialize for i32 {
    #[verifier::opaque]
    open spec fn decode(data: Seq<u8>) -> Decoded<i32> {
        if data.len() < 4 {
            Err(DecodeFailure::Eof)
        } else {
            Ok((to_signed(be_value(data.take(4)), 4) as i32, 4))
        }
    }

    fn mc_deserialize(data: &[u8]) -> (r: DeserializeResult<'_, i32>) {
        proof {
            reveal(<i32 as Deserialize>::decode);
        }
        ProtoByteOrder::read_int(data)
    }
}

impl ProtocolType for i32 {
    open spec fn faithful(v: i32) -> bool {
        true
    }

    open spec fn delimited() -> bool {
        true
    }

    proof fn lemma_round_trip(v: i32, rest: Seq<u8>) {
        reveal(<i32 as Serialize>::encode);
        reveal(<i32 as Deserialize>::decode);
        lemma_radix_values();
            lemma_signed_unsigned(v as int, 0, 4);
        lemma_fixed_round_trip(to_unsigned(v as int, 4), 4, rest);
    }
}

impl Serialize for u64 {
    open spec fn serializable(v: u64) -> bool {
        true
    }

    #[verifier::opaque]
    open spec fn encode(v: u64) -> Seq<u8> {
        be_bytes(v as nat, 8)
    }

    fn mc_serialize<S: Serializer>(&self, to: &mut S) -> (r: SerializeResult) {
        proof {
            reveal(<u64 as Serialize>::encode);
        }
        let data = ProtoByteOrder::write_ulong(*self);
        to.serialize_bytes(data.as_slice())
    }
}

impl Deserialize for u64 {
    #[verifier::opaque]
    open spec fn decode(data: Seq<u8>) -> Decoded<u64> {
        if data.len() < 8 {
            Err(DecodeFailure::Eof)
        } else {
            Ok((be_value(data.take(8)) as u64, 8))
        }
    }

    fn mc_deserialize(data: &[u8]) -> (r: DeserializeResult<'_, u64>) {
        proof {
            reveal(<u64 as Deserialize>::decode);
        }
        ProtoByteOrder::read_ulong(data)
    }
}

impl ProtocolType for u64 {
    open spec fn faithful(v: u64) -> bool {
        true
    }

    open spec fn delimited() -> bool {
        true
    }

    proof fn lemma_round_trip(v: u64, rest: Seq<u8>) {
        reveal(<u64 as Serialize>::encode);
        reveal(<u64 as Deserialize>::decode);
        lemma_radix_values();
        lemma_fixed_round_trip(v as nat, 8, rest);
    }
}

impl Serialize for i64 {
    open spec fn serializable(v: i64) -> bool {
        true
    }

    #[verifier::opaque]
    open spec fn encode(v: i64) -> Seq<u8> {
        be_bytes(to_unsigned(v as int, 8), 8)
    }

    fn mc_serialize<S: Serializer>(&self, to: &mut S) -> (r: SerializeResult) {
        proof {
            reveal(<i64 as Serialize>::encode);
        }
        let data = ProtoByteOrder::write_long(*self);
        to.serialize_bytes(data.as_slice())
    }
}

impl Deserialize for i64 {
    #[verifier::opaque]
    open spec fn decode(data: Seq<u8>) -> Decoded<i64> {
        if data.len() < 8 {
            Err(DecodeFailure::Eof)
        } else {
            Ok((to_signed(be_value(data.take(8)), 8) as i64, 8))
        }
    }

    fn mc_deserialize(data: &[u8]) -> (r: DeserializeResult<'_, i64>) {
        proof {
            reveal(<i64 as Deserialize>::decode);
        }
        ProtoByteOrder::read_long(data)
    }
}

impl ProtocolType for i64 {
    open spec fn faithful(v: i64) -> bool {
        true
    }

    open spec fn delimited() -> bool {
        true
    }

    proof fn lemma_round_trip(v: i64, rest: Seq<u8>) {
        reveal(<i64 as Serialize>::encode);
        reveal(<i64 as Deserialize>::decode);
        lemma_radix_values();
            lemma_signed_unsigned(v as int, 0, 8);
        lemma_fixed_round_trip(to_unsigned(v as int, 8), 8, rest);
    }
}

impl Serialize for u128 {
    open spec fn serializable(v: u128) -> bool {
        true
    }

    #[verifier::opaque]
    open spec fn encode(v: u128) -> Seq<u8> {
        be_bytes(v as nat, 16)
    }

    fn mc_serialize<S: Serializer>(&self, to: &mut S) -> (r: SerializeResult) {
        proof {
            reveal(<u128 as Serialize>::encode);
        }
        let data = ProtoByteOrder::write_u2long(*self);
        to.serialize_bytes(data.as_slice())
    }
}

impl Deserialize for u128 {
    #[verifier::opaque]
    open spec fn decode(data: Seq<u8>) -> Decoded<u128> {
        if data.len() < 16 {
            Err(DecodeFailure::Eof)
        } else {
            Ok((be_value(data.take(16)) as u128, 16))
        }
    }

    fn mc_deserialize(data: &[u8]) -> (r: DeserializeResult<'_, u128>) {
        proof {
            reveal(<u128 as Deserialize>::decode);
        }
        ProtoByteOrder::read_u2long(data)
    }
}

impl ProtocolType for u128 {
    open spec fn faithful(v: u128) -> bool {
        true
    }

    open spec fn delimited() -> bool {
        true
    }

    proof fn lemma_round_trip(v: u128, rest: Seq<u8>) {
        reveal(<u128 as Serialize>::encode);
        reveal(<u128 as Deserialize>::decode);
        lemma_radix_values();
        lemma_fixed_round_trip(v as nat, 16, rest);
    }
}

impl Serialize for i128 {
    open spec fn serializable(v: i128) -> bool {
        true
    }

    #[verifier::opaque]
    open spec fn encode(v: i128) -> Seq<u8> {
        be_bytes(to_unsigned(v as int, 16), 16)
    }

    fn mc_serialize<S: Serializer>(&self, to: &mut S) -> (r: SerializeResult) {
        proof {
            reveal(<i128 as Serialize>::encode);
        }
        let data = ProtoByteOrder::write_2long(*self);
        to.serialize_bytes(data.as_slice())
    }
}

impl Deserialize for i128 {
    #[verifier::opaque]
    open spec fn decode(data: Seq<u8>) -> Decoded<i128> {
        if data.len() < 16 {
            Err(DecodeFailure::Eof)
        } else {
            Ok((to_signed(be_value(data.take(16)), 16) as i128, 16))
        }
    }

    fn mc_deserialize(data: &[u8]) -> (r: DeserializeResult<'_, i128>) {
        proof {
            reveal(<i128 as Deserialize>::decode);
        }
        ProtoByteOrder::read_2long(data)
    }
}

impl ProtocolType for i128 {
    open spec fn faithful(v: i128) -> bool {
        true
    }

    open spec fn delimited() -> bool {
        true
    }

    proof fn lemma_round_trip(v: i128, rest: Seq<u8>) {
        reveal(<i128 as Serialize>::encode);
        reveal(<i128 as Deserialize>::decode);
        lemma_radix_values();
            lemma_signed_unsigned(v as int, 0, 16);
        lemma_fixed_round_trip(to_unsigned(v as int, 16), 16, rest);
    }
}



/// The `i32` that `n as i32` gives: the low 32 bits of `n`, read as two's
/// complement.
pub open spec fn wrap_i32(n: nat) -> i32 {
    to_signed(n % radix(4), 4) as i32
}

pub(crate) proof fn lemma_wrap_usize(n: usize)
    by (bit_vector)
    ensures
        (n as u32) == (n as u64) % 0x1_0000_0000,
        (n as i32) == ((n as u32) as i32),
{
}

/// The text's UTF-8 bytes behind their count, the count as a [`VarInt`].
#[verifier::opaque]
pub open spec fn string_bytes(text: Seq<char>) -> Seq<u8> {
    VarInt::encode(VarInt(wrap_i32(encode_utf8(text).len()))) + encode_utf8(text)
}

/// What stands at the front of `data` as a text: a count as a [`VarInt`],
/// that many bytes, and those bytes read as UTF-8.
#[verifier::opaque]
pub open spec fn string_read(data: Seq<u8>) -> Decoded<Seq<char>> {
    match VarInt::decode(data) {
        Err(e) => Err(e),
        Ok((length, n)) => {
            let body = data.skip(n as int);
            if length.0 < 0 {
                Err(DecodeFailure::NegativeLength(length.0))
            } else if body.len() < length.0 {
                Err(DecodeFailure::Eof)
            } else if !valid_utf8(body.take(length.0 as int)) {
                Err(DecodeFailure::BadStringEncoding)
            } else {
                Ok((decode_utf8(body.take(length.0 as int)), n + length.0 as nat))
            }
        },
    }
}

impl Serialize for String {
    open spec fn serializable(v: Seq<char>) -> bool {
        true
    }

    open spec fn encode(v: Seq<char>) -> Seq<u8> {
        string_bytes(v)
    }

    fn mc_serialize<S: Serializer>(&self, to: &mut S) -> (r: SerializeResult) {
        let bytes = self.as_str().as_bytes();
        proof {
            reveal(string_bytes);
            lemma_wrap_usize(bytes.len());
            crate::byte_order::lemma_pattern_i32(0, bytes.len() as u32);
            lemma_radix_values();
        }
        let length = VarInt(bytes.len() as i32);
        length.mc_serialize(to)?;
        let r = to.serialize_bytes(bytes);
        proof {
            assert(old(to).written() + VarInt::encode(length) + bytes@ =~= old(to).written() + (
            VarInt::encode(length) + bytes@));
        }
        r
    }
}

impl Deserialize for String {
    open spec fn decode(data: Seq<u8>) -> Decoded<Seq<char>> {
        string_read(data)
    }

    fn mc_deserialize(data: &[u8]) -> (r: DeserializeResult<'_, String>) {
        proof {
            reveal(string_read);
        }
        let Deserialized { value: length, data: rest } = VarInt::mc_deserialize(data)?;
        if length.0 < 0 {
            Err(DeserializeErr::NegativeLength(length.0))
        } else {
            let Deserialized { value: taken, data: rest } = take(length.0 as usize, rest)?;
            match string_from_utf8(slice_to_vec(taken)) {
                Ok(text) => {
                    proof {
                        let n = (data@.len() - rest@.len() - length.0) as int;
                        assert(rest@ =~= data@.skip(n + length.0));
                    }
                    Ok(Deserialized { value: text, data: rest })
                },
                Err(err) => Err(DeserializeErr::BadStringEncoding(err)),
            }
        }
    }
}

impl ProtocolType for String {
    /// The byte count has to fit the signed 32-bit length prefix.
    open spec fn faithful(v: Seq<char>) -> bool {
        encode_utf8(v).len() <= i32::MAX
    }

    open spec fn delimited() -> bool {
        true
    }

    proof fn lemma_round_trip(v: Seq<char>, rest: Seq<u8>) {
        reveal(string_bytes);
        reveal(string_read);
        let body = encode_utf8(v);
        let length = VarInt(wrap_i32(body.len()));
        let head = VarInt::encode(length);
        lemma_radix_values();
        vstd::arithmetic::div_mod::lemma_small_mod(body.len(), radix(4));
        VarInt::lemma_round_trip(length, body + rest);
        assert(head + (body + rest) =~= (head + body) + rest);
        assert((head + body + rest).skip(head.len() as int) =~= body + rest);
        assert((body + rest).take(body.len() as int) =~= body);
        vstd::utf8::encode_utf8_valid_utf8(v);
        vstd::utf8::encode_utf8_decode_utf8(v);
    }
}

/// A block position: `x` and `z` in 26 bits each and `y` in 12, packed into
/// one 64-bit number.
#[derive(Clone, Copy, PartialEq, Hash, Debug)]
pub struct IntPosition {
    pub x: i32,
    pub y: i16,
    pub z: i32,
}

impl View for IntPosition {
    type V = IntPosition;

    open spec fn view(&self) -> IntPosition {
        *self
    }
}

impl DeepView for IntPosition {
    type V = IntPosition;

    open spec fn deep_view(&self) -> IntPosition {
        *self
    }
}

/// The field of `2 * half` values that carries the coordinate `c`: the low
/// bits of a non-negative `c`; for a negative `c` its low bits below `half`,
/// with the sign bit `half` set.
pub open spec fn coordinate_field(c: int, half: int) -> nat {
    if c < 0 {
        (c % half + half) as nat
    } else {
        (c % (2 * half)) as nat
    }
}

/// The coordinate that a field of `2 * half` values carries: the field read
/// as two's complement.
pub open spec fn field_coordinate(f: nat, half: int) -> int {
    if f >= half {
        f - 2 * half
    } else {
        f as int
    }
}

/// The 64-bit number that carries a position: `x` on top, then `z`, then `y`.
pub open spec fn packed_position(p: IntPosition) -> nat {
    coordinate_field(p.x as int, 0x200_0000) * 0x40_0000_0000 + coordinate_field(
        p.z as int,
        0x200_0000,
    ) * 0x1000 + coordinate_field(p.y as int, 0x800)
}

/// The position that a 64-bit number carries.
pub open spec fn unpacked_position(raw: nat) -> IntPosition {
    IntPosition {
        x: field_coordinate(raw / 0x40_0000_0000, 0x200_0000) as i32,
        y: field_coordinate(raw % 0x1000, 0x800) as i16,
        z: field_coordinate((raw / 0x1000) % 0x400_0000, 0x200_0000) as i32,
    }
}

proof fn lemma_horizontal_field(c: i32, shifted: i32)
    by (bit_vector)
    requires
        c < 0 ==> shifted == c + 0x200_0000,
    ensures
        c < 0 ==> ((shifted as u64) | 0x200_0000) & 0x3FF_FFFF == (c as u32) % 0x200_0000
            + 0x200_0000,
        c >= 0 ==> (c as u64) & 0x3FF_FFFF == (c as u32) % 0x400_0000,
{
}

proof fn lemma_vertical_field(c: i16, shifted: i16)
    by (bit_vector)
    requires
        c < 0 ==> shifted == c + 0x800,
    ensures
        c < 0 ==> ((shifted as u64) | 0x800) & 0xFFF == (c as u16) % 0x800 + 0x800,
        c >= 0 ==> (c as u64) & 0xFFF == (c as u16) % 0x1000,
{
}

proof fn lemma_pack_fields(x: u64, z: u64, y: u64)
    by (bit_vector)
    requires
        x < 0x400_0000,
        z < 0x400_0000,
        y < 0x1000,
    ensures
        (x << 38) | (z << 12) | y == x * 0x40_0000_0000 + z * 0x1000 + y,
{
}

proof fn lemma_unpack_fields(raw: u64)
    by (bit_vector)
    ensures
        ((raw >> 38) as u32) & 0x3FF_FFFF == raw / 0x40_0000_0000,
        ((raw >> 12) & 0x3FF_FFFF) as u32 == (raw / 0x1000) % 0x400_0000,
        ((raw & 0xFFF) as u16) & 0xFFF == raw % 0x1000,
{
}

proof fn lemma_extend_horizontal(f: u32)
    by (bit_vector)
    requires
        f < 0x400_0000,
    ensures
        (f & 0x200_0000) != 0 <==> f >= 0x200_0000,
        f >= 0x200_0000 ==> ((f & 0x1FF_FFFF) as i32) == f - 0x200_0000,
{
}

proof fn lemma_extend_vertical(f: u16)
    by (bit_vector)
    requires
        f < 0x1000,
    ensures
        (f & 0x800) != 0 <==> f >= 0x800,
        f >= 0x800 ==> ((f & 0x7FF) as i16) == f - 0x800,
{
}

impl Serialize for IntPosition {
    open spec fn serializable(v: IntPosition) -> bool {
        true
    }

    #[verifier::opaque]
    open spec fn encode(v: IntPosition) -> Seq<u8> {
        be_bytes(packed_position(v), 8)
    }

    fn mc_serialize<S: Serializer>(&self, to: &mut S) -> (r: SerializeResult) {
        proof {
            reveal(<IntPosition as Serialize>::encode);
        }
        proof {
            lemma_horizontal_field(self.x, (self.x + 0x200_0000) as i32);
            lemma_horizontal_field(self.z, (self.z + 0x200_0000) as i32);
            lemma_vertical_field(self.y, (self.y + 0x800) as i16);
            crate::byte_order::lemma_pattern_i32(self.x, 0);
            crate::byte_order::lemma_pattern_i32(self.z, 0);
            crate::byte_order::lemma_pattern_i16(self.y, 0);
        }
        let x_raw = (if self.x < 0 {
            (self.x + 0x2000000) as u64 | 0x2000000
        } else {
            self.x as u64
        }) & 0x3FFFFFF;

        let z_raw = (if self.z < 0 {
            (self.z + 0x2000000) as u64 | 0x2000000
        } else {
            self.z as u64
        }) & 0x3FFFFFF;

        let y_raw = (if self.y < 0 {
            (self.y + 0x800) as u64 | 0x800
        } else {
            self.y as u64
        }) & 0xFFF;
        proof {
            lemma_pack_fields(x_raw, z_raw, y_raw);
        }
        let data = ProtoByteOrder::write_ulong((x_raw << 38) | (z_raw << 12) | y_raw);
        to.serialize_bytes(data.as_slice())
    }
}

impl Deserialize for IntPosition {
    #[verifier::opaque]
    open spec fn decode(data: Seq<u8>) -> Decoded<IntPosition> {
        if data.len() < 8 {
            Err(DecodeFailure::Eof)
        } else {
            Ok((unpacked_position(be_value(data.take(8))), 8))
        }
    }

    fn mc_deserialize(data: &[u8]) -> (r: DeserializeResult<'_, IntPosition>) {
        proof {
            reveal(<IntPosition as Deserialize>::decode);
        }
        let Deserialized { value: raw, data } = ProtoByteOrder::read_ulong(data)?;
        let mut x = ((raw >> 38) as u32) & 0x3FFFFFF;
        let mut z = ((raw >> 12) & 0x3FFFFFF) as u32;
        let mut y = ((raw & 0xFFF) as u16) & 0xFFF;
        proof {
            lemma_unpack_fields(raw);
            lemma_extend_horizontal(x);
            lemma_extend_horizontal(z);
            lemma_extend_vertical(y);
        }
        let x = if (x & 0x2000000) != 0 {
            ((x & 0x1FFFFFF) as i32) - 0x2000000
        } else {
            x as i32
        };
        let y = if (y & 0x800) != 0 {
            ((y & 0x7FF) as i16) - 0x800
        } else {
            y as i16
        };
        let z = if (z & 0x2000000) != 0 {
            ((z & 0x1FFFFFF) as i32) - 0x2000000
        } else {
            z as i32
        };
        Ok(Deserialized { value: IntPosition { x, y, z }, data })
    }
}

impl ProtocolType for IntPosition {
    /// Each coordinate has to fit its field.
    open spec fn faithful(v: IntPosition) -> bool {
        &&& -0x200_0000 <= v.x < 0x200_0000
        &&& -0x200_0000 <= v.z < 0x200_0000
        &&& -0x800 <= v.y < 0x800
    }

    open spec fn delimited() -> bool {
        true
    }

    proof fn lemma_round_trip(v: IntPosition, rest: Seq<u8>) {
        reveal(<IntPosition as Serialize>::encode);
        reveal(<IntPosition as Deserialize>::decode);
        reveal(<IntPosition as Serialize>::encode);
        reveal(<IntPosition as Deserialize>::decode);
        let x = coordinate_field(v.x as int, 0x200_0000);
        let z = coordinate_field(v.z as int, 0x200_0000);
        let y = coordinate_field(v.y as int, 0x800);
        lemma_packed_fields(x, z, y);
        lemma_radix_values();
        lemma_fixed_round_trip(packed_position(v), 8, rest);
    }
}

/// Three fields that fit their widths can be read back out of their packing.
proof fn lemma_packed_fields(x: nat, z: nat, y: nat)
    requires
        x < 0x400_0000,
        z < 0x400_0000,
        y < 0x1000,
    ensures
        x * 0x40_0000_0000 + z * 0x1000 + y < 0x1_0000_0000_0000_0000,
        (x * 0x40_0000_0000 + z * 0x1000 + y) / 0x40_0000_0000 == x,
        ((x * 0x40_0000_0000 + z * 0x1000 + y) / 0x1000) % 0x400_0000 == z,
        (x * 0x40_0000_0000 + z * 0x1000 + y) % 0x1000 == y,
{
    let raw = (x * 0x40_0000_0000 + z * 0x1000 + y) as int;
    vstd::arithmetic::div_mod::lemma_fundamental_div_mod_converse(
        raw,
        0x40_0000_0000,
        x as int,
        (z * 0x1000 + y) as int,
    );
    vstd::arithmetic::div_mod::lemma_fundamental_div_mod_converse(
        raw,
        0x1000,
        (x * 0x400_0000 + z) as int,
        y as int,
    );
    vstd::arithmetic::div_mod::lemma_fundamental_div_mod_converse(
        (x * 0x400_0000 + z) as int,
        0x400_0000,
        x as int,
        z as int,
    );
}

/// A rotation in steps of 1/256 of a full turn.
#[derive(Copy, Clone, PartialEq, Hash, Debug)]
pub struct Angle {
    pub value: u8,
}

impl View for Angle {
    type V = Angle;

    open spec fn view(&self) -> Angle {
        *self
    }
}

impl DeepView for Angle {
    type V = Angle;

    open spec fn deep_view(&self) -> Angle {
        *self
    }
}

impl Serialize for Angle {
    open spec fn serializable(v: Angle) -> bool {
        true
    }

    #[verifier::opaque]
    open spec fn encode(v: Angle) -> Seq<u8> {
        seq![v.value]
    }

    fn mc_serialize<S: Serializer>(&self, to: &mut S) -> (r: SerializeResult) {
        proof {
            reveal(<Angle as Serialize>::encode);
        }
        let r = to.serialize_byte(self.value);
        proof {
            assert(old(to).written().push(self.value) =~= old(to).written() + seq![self.value]);
        }
        r
    }
}

impl Deserialize for Angle {
    #[verifier::opaque]
    open spec fn decode(data: Seq<u8>) -> Decoded<Angle> {
        if data.len() < 1 {
            Err(DecodeFailure::Eof)
        } else {
            Ok((Angle { value: data[0] }, 1))
        }
    }

    fn mc_deserialize(data: &[u8]) -> (r: DeserializeResult<'_, Angle>) {
        proof {
            reveal(<Angle as Deserialize>::decode);
        }
        let Deserialized { value: b, data: rest } = ProtoByteOrder::read_ubyte(data)?;
        Ok(Deserialized { value: Angle { value: b }, data: rest })
    }
}

impl ProtocolType for Angle {
    open spec fn faithful(v: Angle) -> bool {
        true
    }

    open spec fn delimited() -> bool {
        true
    }

    proof fn lemma_round_trip(v: Angle, rest: Seq<u8>) {
        reveal(<Angle as Serialize>::encode);
        reveal(<Angle as Deserialize>::decode);
        reveal(<Angle as Serialize>::encode);
        reveal(<Angle as Deserialize>::decode);
    }
}

/// A fixed-point number: the value times two to the power of a number of
/// fractional bits that the reader and writer agree on, as a 32-bit integer.
#[derive(Clone, Copy, Debug, PartialEq, Eq)]
pub struct FixedInt {
    raw: i32,
}

impl View for FixedInt {
    type V = i32;

    closed spec fn view(&self) -> i32 {
        self.raw
    }
}

impl DeepView for FixedInt {
    type V = i32;

    open spec fn deep_view(&self) -> i32 {
        self@
    }
}

impl FixedInt {
    /// The fixed-point number with the scaled value `raw`.
    pub fn from_raw(raw: i32) -> (r: Self)
        ensures
            r@ == raw,
    {
        FixedInt { raw }
    }

    /// The scaled value.
    pub fn raw(self) -> (r: i32)
        ensures
            r == self@,
    {
        self.raw
    }
}

impl Serialize for FixedInt {
    open spec fn serializable(v: i32) -> bool {
        true
    }

    #[verifier::opaque]
    open spec fn encode(v: i32) -> Seq<u8> {
        i32::encode(v)
    }

    fn mc_serialize<S: Serializer>(&self, to: &mut S) -> (r: SerializeResult) {
        proof {
            reveal(<FixedInt as Serialize>::encode);
        }
        self.raw.mc_serialize(to)
    }
}

impl Deserialize for FixedInt {
    #[verifier::opaque]
    open spec fn decode(data: Seq<u8>) -> Decoded<i32> {
        i32::decode(data)
    }

    fn mc_deserialize(data: &[u8]) -> (r: DeserializeResult<'_, FixedInt>) {
        proof {
            reveal(<FixedInt as Deserialize>::decode);
        }
        let Deserialized { value: raw, data: rest } = i32::mc_deserialize(data)?;
        Ok(Deserialized { value: FixedInt { raw }, data: rest })
    }
}

impl ProtocolType for FixedInt {
    open spec fn faithful(v: i32) -> bool {
        true
    }

    open spec fn delimited() -> bool {
        true
    }

    proof fn lemma_round_trip(v: i32, rest: Seq<u8>) {
        reveal(<FixedInt as Serialize>::encode);
        reveal(<FixedInt as Deserialize>::decode);
        reveal(<FixedInt as Serialize>::encode);
        reveal(<FixedInt as Deserialize>::decode);
        i32::lemma_round_trip(v, rest);
    }
}

/// A sink that keeps everything in memory.
pub struct BytesSerializer {
    data: Vec<u8>,
}

impl Serializer for BytesSerializer {
    closed spec fn written(&self) -> Seq<u8> {
        self.data@
    }

    open spec fn infallible(&self) -> bool {
        true
    }

    fn serialize_bytes(&mut self, data: &[u8]) -> (r: SerializeResult) {
        self.data.extend_from_slice(data);
        Ok(())
    }
}

impl Default for BytesSerializer {
    fn default() -> (r: Self)
        ensures
            r.written() == Seq::<u8>::empty(),
    {
        BytesSerializer { data: Vec::new() }
    }
}

impl BytesSerializer {
    pub fn with_capacity(cap: usize) -> (r: Self)
        ensures
            r.written() == Seq::<u8>::empty(),
    {
        BytesSerializer { data: Vec::with_capacity(cap) }
    }

    pub fn into_bytes(self) -> (r: Vec<u8>)
        ensures
            r@ == self.written(),
    {
        self.data
    }
}

/// The bytes of a value that may be missing: a byte that says whether it is
/// there, and the value if it is.
#[verifier::opaque]
pub open spec fn option_bytes<T: Serialize>(v: Option<T::V>) -> Seq<u8> {
    match v {
        Some(x) => seq![1u8] + T::encode(x),
        None => seq![0u8],
    }
}

impl<T: Serialize> Serialize for Option<T> {
    open spec fn serializable(v: Option<T::V>) -> bool {
        match v {
            Some(x) => T::serializable(x),
            None => true,
        }
    }

    open spec fn encode(v: Option<T::V>) -> Seq<u8> {
        option_bytes::<T>(v)
    }

    fn mc_serialize<S: Serializer>(&self, to: &mut S) -> (r: SerializeResult) {
        proof {
            reveal(<bool as Serialize>::encode);
            reveal(option_bytes);
        }
        match self {
            Some(value) => {
                true.mc_serialize(to)?;
                let r = value.mc_serialize(to);
                proof {
                    assert(old(to).written() + seq![1u8] + T::encode(value.deep_view()) =~= old(
                        to,
                    ).written() + (seq![1u8] + T::encode(value.deep_view())));
                }
                r
            },
            None => false.mc_serialize(to),
        }
    }
}

/// What stands at the front of `data`, read as a value that may be missing:
/// a byte that says whether it is there, and the value if it is.
#[verifier::opaque]
pub open spec fn option_read<T: Deserialize>(data: Seq<u8>) -> Decoded<Option<T::V>> {
    match bool::decode(data) {
        Err(e) => Err(e),
        Ok((false, n)) => Ok((None, n)),
        Ok((true, n)) => match T::decode(data.skip(n as int)) {
            Err(e) => Err(e),
            Ok((v, m)) => Ok((Some(v), n + m)),
        },
    }
}

impl<T: Deserialize> Deserialize for Option<T> {
    open spec fn decode(data: Seq<u8>) -> Decoded<Option<T::V>> {
        option_read::<T>(data)
    }

    fn mc_deserialize(data: &[u8]) -> (r: DeserializeResult<'_, Option<T>>) {
        proof {
            reveal(<bool as Deserialize>::decode);
            reveal(option_read);
        }
        let Deserialized { value: is_present, data: rest } = bool::mc_deserialize(data)?;
        if is_present {
            let Deserialized { value, data: after } = T::mc_deserialize(rest)?;
            proof {
                let m = (rest@.len() - after@.len()) as int;
                assert(after@ =~= data@.skip(1 + m));
            }
            Ok(Deserialized { value: Some(value), data: after })
        } else {
            Ok(Deserialized { value: None, data: rest })
        }
    }
}

impl<T: ProtocolType> ProtocolType for Option<T> {
    open spec fn faithful(v: Option<T::V>) -> bool {
        match v {
            Some(x) => T::faithful(x),
            None => true,
        }
    }

    open spec fn delimited() -> bool {
        T::delimited()
    }

    proof fn lemma_round_trip(v: Option<T::V>, rest: Seq<u8>) {
        reveal(<bool as Serialize>::encode);
        reveal(<bool as Deserialize>::decode);
        reveal(option_bytes);
        reveal(option_read);
        match v {
            Some(x) => {
                T::lemma_round_trip(x, rest);
                assert((seq![1u8] + T::encode(x) + rest).skip(1) =~= T::encode(x) + rest);
            },
            None => {},
        }
    }
}

/// All the input that is left. Only the last part of a message can be one.
#[derive(Debug, Clone, PartialEq)]
pub struct RemainingBytes {
    pub data: Vec<u8>,
}

impl View for RemainingBytes {
    type V = Seq<u8>;

    open spec fn view(&self) -> Seq<u8> {
        self.data@
    }
}

impl DeepView for RemainingBytes {
    type V = Seq<u8>;

    open spec fn deep_view(&self) -> Seq<u8> {
        self.data@
    }
}

impl Serialize for RemainingBytes {
    open spec fn serializable(v: Seq<u8>) -> bool {
        true
    }

    #[verifier::opaque]
    open spec fn encode(v: Seq<u8>) -> Seq<u8> {
        v
    }

    fn mc_serialize<S: Serializer>(&self, to: &mut S) -> (r: SerializeResult) {
        proof {
            reveal(<RemainingBytes as Serialize>::encode);
        }
        to.serialize_bytes(self.data.as_slice())
    }
}

impl Deserialize for RemainingBytes {
    #[verifier::opaque]
    open spec fn decode(data: Seq<u8>) -> Decoded<Seq<u8>> {
        Ok((data, data.len()))
    }

    fn mc_deserialize(data: &[u8]) -> (r: DeserializeResult<'_, RemainingBytes>) {
        proof {
            reveal(<RemainingBytes as Deserialize>::decode);
        }
        let rest = vstd::slice::slice_subrange(data, data.len(), data.len());
        proof {
            assert(rest@ =~= data@.skip(data@.len() as int));
        }
        Ok(Deserialized { value: RemainingBytes { data: slice_to_vec(data) }, data: rest })
    }
}

impl ProtocolType for RemainingBytes {
    open spec fn faithful(v: Seq<u8>) -> bool {
        true
    }

    open spec fn delimited() -> bool {
        false
    }

    proof fn lemma_round_trip(v: Seq<u8>, rest: Seq<u8>) {
        reveal(<RemainingBytes as Serialize>::encode);
        reveal(<RemainingBytes as Deserialize>::decode);
        reveal(<RemainingBytes as Serialize>::encode);
        reveal(<RemainingBytes as Deserialize>::decode);
        assert(v + rest =~= v);
    }
}

impl From<Vec<u8>> for RemainingBytes {
    fn from(data: Vec<u8>) -> (r: Self) {
        Self { data }
    }
}

impl vstd::std_specs::convert::FromSpecImpl<Vec<u8>> for RemainingBytes {
    open spec fn obeys_from_spec() -> bool {
        true
    }

    open spec fn from_spec(v: Vec<u8>) -> Self {
        RemainingBytes { data: v }
    }
}

impl From<RemainingBytes> for Vec<u8> {
    fn from(other: RemainingBytes) -> (r: Self) {
        other.data
    }
}

impl vstd::std_specs::convert::FromSpecImpl<RemainingBytes> for Vec<u8> {
    open spec fn obeys_from_spec() -> bool {
        true
    }

    open spec fn from_spec(v: RemainingBytes) -> Self {
        v.data
    }
}

/// The encodings of `items`, one after another.
pub open spec fn encode_all<E: Serialize>(items: Seq<E::V>) -> Seq<u8>
    decreases items.len(),
{
    if items.len() == 0 {
        Seq::empty()
    } else {
        E::encode(items[0]) + encode_all::<E>(items.skip(1))
    }
}

/// Every one of `items` has a wire form.
pub open spec fn all_serializable<E: Serialize>(items: Seq<E::V>) -> bool {
    forall|i: int| 0 <= i < items.len() ==> E::serializable(#[trigger] items[i])
}

/// Every one of `items` survives the round trip.
pub open spec fn all_faithful<E: ProtocolType>(items: Seq<E::V>) -> bool {
    forall|i: int| 0 <= i < items.len() ==> E::faithful(#[trigger] items[i])
}

/// `outcome`, with `head` put in front of its items and `taken` added to its
/// length.
pub open spec fn after<V>(head: Seq<V>, taken: nat, outcome: Decoded<Seq<V>>) -> Decoded<Seq<V>> {
    match outcome {
        Ok((items, n)) => Ok((head + items, taken + n)),
        Err(e) => Err(e),
    }
}

/// Decoding `count` items in a row from the front of `data`.
pub open spec fn decode_n<E: Deserialize>(data: Seq<u8>, count: nat) -> Decoded<Seq<E::V>>
    decreases count,
{
    if count == 0 {
        Ok((Seq::empty(), 0))
    } else {
        match E::decode(data) {
            Err(e) => Err(e),
            Ok((first, n)) => after(
                seq![first],
                n,
                decode_n::<E>(data.skip(n as int), (count - 1) as nat),
            ),
        }
    }
}

/// One more item at the end adds its encoding at the end.
pub proof fn lemma_encode_all_push<E: Serialize>(items: Seq<E::V>, last: E::V)
    ensures
        encode_all::<E>(items.push(last)) == encode_all::<E>(items) + E::encode(last),
    decreases items.len(),
{
    if items.len() == 0 {
        assert(items.push(last).skip(1) =~= Seq::<E::V>::empty());
        assert(encode_all::<E>(items.push(last).skip(1)) =~= Seq::<u8>::empty());
        assert(encode_all::<E>(items.push(last)) =~= E::encode(last));
        assert(encode_all::<E>(items) + E::encode(last) =~= E::encode(last));
    } else {
        lemma_encode_all_push::<E>(items.skip(1), last);
        assert(items.push(last).skip(1) =~= items.skip(1).push(last));
        assert(E::encode(items[0]) + (encode_all::<E>(items.skip(1)) + E::encode(last)) =~= (
        E::encode(items[0]) + encode_all::<E>(items.skip(1))) + E::encode(last));
    }
}

/// Items written in a row and followed by anything read back in a row.
pub proof fn lemma_decode_n_encode_all<E: ProtocolType>(items: Seq<E::V>, rest: Seq<u8>)
    requires
        all_faithful::<E>(items),
        E::delimited() || (items.len() <= 1 && rest.len() == 0),
    ensures
        decode_n::<E>(encode_all::<E>(items) + rest, items.len()) == Ok::<
            (Seq<E::V>, nat),
            DecodeFailure,
        >((items, encode_all::<E>(items).len())),
    decreases items.len(),
{
    if items.len() == 0 {
        assert(items =~= Seq::<E::V>::empty());
    } else {
        let first = E::encode(items[0]);
        let tail = encode_all::<E>(items.skip(1));
        assert(all_faithful::<E>(items.skip(1))) by {
            assert forall|i: int| 0 <= i < items.skip(1).len() implies E::faithful(
                #[trigger] items.skip(1)[i],
            ) by {
                assert(items.skip(1)[i] == items[i + 1]);
            }
        }
        assert(E::faithful(items[0]));
        if !E::delimited() {
            assert(items.skip(1).len() == 0);
            assert(tail =~= Seq::<u8>::empty());
        }
        E::lemma_round_trip(items[0], tail + rest);
        lemma_decode_n_encode_all::<E>(items.skip(1), rest);
        assert(first + tail + rest =~= first + (tail + rest));
        assert((first + (tail + rest)).skip(first.len() as int) =~= tail + rest);
        assert(seq![items[0]] + items.skip(1) =~= items);
    }
}

/// A type that can stand in front of a run of items and say how many follow.
pub trait ArrayCounter: Serialize + Deserialize {
    /// The number of items that the counter announces.
    spec fn count_of(v: Self::V) -> nat;

    /// The counter that is written for `count` items.
    spec fn counter_for(count: nat) -> Self::V;

    /// The largest count that the counter can announce.
    spec fn max_count() -> nat;

    /// A count within the counter's range is announced as it is.
    proof fn lemma_count_of_counter(count: nat)
        requires
            count <= Self::max_count(),
        ensures
            Self::count_of(Self::counter_for(count)) == count,
    ;

    fn as_count(&self) -> (n: usize)
        ensures
            n == Self::count_of(self.deep_view()),
    ;

    fn from_count(count: usize) -> (c: Self)
        ensures
            c.deep_view() == Self::counter_for(count as nat),
    ;
}

/// The number that a cast to `usize` makes of a signed counter: itself, or,
/// below zero, its two's complement pattern at the width of `usize`.
pub open spec fn count_as_usize(v: int) -> nat {
    (v as usize) as nat
}

pub(crate) proof fn lemma_counter_casts(n: usize)
    by (bit_vector)
    ensures
        (n as u8) == (n as u64) % 0x100,
        (n as i8) == ((n as u8) as i8),
        (n as u16) == (n as u64) % 0x1_0000,
        (n as i16) == ((n as u16) as i16),
{
}

impl ArrayCounter for VarInt {
    open spec fn max_count() -> nat {
        0x7FFF_FFFF
    }

    proof fn lemma_count_of_counter(count: nat) {
        lemma_radix_values();
        vstd::arithmetic::div_mod::lemma_small_mod(count, radix(4));
        assert(wrap_i32(count) == count);
        assert(Self::counter_for(count).0 == count);
        assert(count_as_usize(count as int) == count);
        assert(Self::count_of(VarInt(wrap_i32(count))) == count_as_usize(wrap_i32(count) as int));
    }

    open spec fn count_of(v: VarInt) -> nat {
        count_as_usize(v.0 as int)
    }

    open spec fn counter_for(count: nat) -> VarInt {
        VarInt(wrap_i32(count))
    }

    fn as_count(&self) -> (n: usize) {
        self.0 as usize
    }

    fn from_count(count: usize) -> (c: Self) {
        proof {
            lemma_wrap_usize(count);
            crate::byte_order::lemma_pattern_i32(0, count as u32);
            lemma_radix_values();
        }
        Self(count as i32)
    }
}

impl ArrayCounter for i32 {
    open spec fn max_count() -> nat {
        0x7FFF_FFFF
    }

    proof fn lemma_count_of_counter(count: nat) {
        lemma_radix_values();
        vstd::arithmetic::div_mod::lemma_small_mod(count, radix(4));
        assert(Self::counter_for(count) == count);
        assert(count_as_usize(count as int) == count);
    }

    open spec fn count_of(v: i32) -> nat {
        count_as_usize(v as int)
    }

    open spec fn counter_for(count: nat) -> i32 {
        wrap_i32(count)
    }

    fn as_count(&self) -> (n: usize) {
        (*self) as usize
    }

    fn from_count(count: usize) -> (c: Self) {
        proof {
            lemma_wrap_usize(count);
            crate::byte_order::lemma_pattern_i32(0, count as u32);
            lemma_radix_values();
        }
        count as i32
    }
}

impl ArrayCounter for i16 {
    open spec fn max_count() -> nat {
        0x7FFF
    }

    proof fn lemma_count_of_counter(count: nat) {
        lemma_radix_values();
        vstd::arithmetic::div_mod::lemma_small_mod(count, radix(2));
        assert(Self::counter_for(count) == count);
        assert(count_as_usize(count as int) == count);
    }

    open spec fn count_of(v: i16) -> nat {
        count_as_usize(v as int)
    }

    open spec fn counter_for(count: nat) -> i16 {
        to_signed(count % radix(2), 2) as i16
    }

    fn as_count(&self) -> (n: usize) {
        (*self) as usize
    }

    fn from_count(count: usize) -> (c: Self) {
        proof {
            lemma_counter_casts(count);
            crate::byte_order::lemma_pattern_i16(0, count as u16);
            lemma_radix_values();
        }
        count as i16
    }
}

impl ArrayCounter for i8 {
    open spec fn max_count() -> nat {
        0x7F
    }

    proof fn lemma_count_of_counter(count: nat) {
        lemma_radix_values();
        vstd::arithmetic::div_mod::lemma_small_mod(count, radix(1));
        assert(Self::counter_for(count) == count);
        assert(count_as_usize(count as int) == count);
    }

    open spec fn count_of(v: i8) -> nat {
        count_as_usize(v as int)
    }

    open spec fn counter_for(count: nat) -> i8 {
        to_signed(count % radix(1), 1) as i8
    }

    fn as_count(&self) -> (n: usize) {
        (*self) as usize
    }

    fn from_count(count: usize) -> (c: Self) {
        proof {
            lemma_counter_casts(count);
            crate::byte_order::lemma_pattern_i8(0, count as u8);
            lemma_radix_values();
        }
        count as i8
    }
}

/// A run of items behind their count, the count written as a `C`.
#[derive(Debug, PartialEq)]
pub struct CountedArray<E, C> {
    pub data: Vec<E>,
    pub _counter_type: core::marker::PhantomData<C>,
}

impl<E: Clone, C> Clone for CountedArray<E, C> {
    fn clone(&self) -> (r: Self) {
        Self { data: self.data.clone(), _counter_type: core::marker::PhantomData }
    }
}

impl<E: DeepView, C> DeepView for CountedArray<E, C> {
    type V = Seq<E::V>;

    open spec fn deep_view(&self) -> Seq<E::V> {
        self.data.deep_view()
    }
}

/// The views of the first `n` of `items`.
pub open spec fn views_of<E: DeepView>(items: Seq<E>, n: int) -> Seq<E::V> {
    Seq::new(n as nat, |i: int| items[i].deep_view())
}

/// Writes `items` one after another, with nothing in front or between.
pub fn serialize_vec_directly<I: Serialize, S: Serializer>(items: &Vec<I>, to: &mut S) -> (r:
    SerializeResult)
    ensures
        r is Ok ==> all_serializable::<I>(items.deep_view()) && final(to).written() == old(
            to,
        ).written() + encode_all::<I>(items.deep_view()),
        old(to).infallible() ==> final(to).infallible(),
        old(to).infallible() ==> (r is Ok <==> all_serializable::<I>(items.deep_view())),
        old(to).infallible() && r is Err ==> (r matches Err(SerializeErr::CannotSerialize(_))),
{
    let ghost all = items.deep_view();
    let mut i: usize = 0;
    while i < items.len()
        invariant
            i <= items@.len(),
            all == items.deep_view(),
            to.written() == old(to).written() + encode_all::<I>(views_of(items@, i as int)),
            old(to).infallible() ==> to.infallible(),
            forall|j: int| 0 <= j < i ==> I::serializable(#[trigger] all[j]),
        decreases items@.len() - i,
    {
        let ghost before = views_of(items@, i as int);
        let r = items[i].mc_serialize(to);
        match r {
            Err(e) => {
                proof {
                    assert(!I::serializable(all[i as int]) || !old(to).infallible());
                }
                return Err(e);
            },
            Ok(_) => {},
        }
        proof {
            lemma_encode_all_push::<I>(before, items@[i as int].deep_view());
            assert(views_of(items@, i + 1) =~= before.push(items@[i as int].deep_view()));
            assert(all[i as int] == items@[i as int].deep_view());
            assert(old(to).written() + encode_all::<I>(before) + I::encode(
                items@[i as int].deep_view(),
            ) =~= old(to).written() + (encode_all::<I>(before) + I::encode(
                items@[i as int].deep_view(),
            )));
        }
        i += 1;
    }
    proof {
        assert(views_of(items@, i as int) =~= all);
    }
    Ok(())
}

/// Reads `count` items one after another off the front of `data`.
pub fn deserialize_vec_directly<I: Deserialize>(count: usize, data: &[u8]) -> (r: DeserializeResult<
    '_,
    Vec<I>,
>)
    ensures
        agrees(r, data@, decode_n::<I>(data@, count as nat)),
{
    let mut out: Vec<I> = Vec::new();
    let mut rest = data;
    let mut i: usize = 0;
    let ghost whole = decode_n::<I>(data@, count as nat);
    proof {
        assert(data@.skip(0) =~= data@);
        assert(out.deep_view() =~= Seq::<I::V>::empty());
        match whole {
            Ok((items, m)) => {
                assert(Seq::<I::V>::empty() + items =~= items);
            },
            Err(_) => {},
        }
    }
    while i < count
        invariant
            i <= count,
            out@.len() == i,
            rest@.len() <= data@.len(),
            rest@ == data@.skip(data@.len() - rest@.len()),
            whole == decode_n::<I>(data@, count as nat),
            whole == after(
                out.deep_view(),
                (data@.len() - rest@.len()) as nat,
                decode_n::<I>(rest@, (count - i) as nat),
            ),
        decreases count - i,
    {
        let ghost seen = out.deep_view();
        let ghost taken = data@.len() - rest@.len();
        let Deserialized { value: item, data: next } = I::mc_deserialize(rest)?;
        proof {
            let n = rest@.len() - next@.len();
            assert(next@ =~= data@.skip(taken + n));
        }
        rest = next;
        out.push(item);
        proof {
            assert(out.deep_view() =~= seen.push(item.deep_view()));
            let tail = decode_n::<I>(rest@, (count - i - 1) as nat);
            match tail {
                Ok((items, m)) => {
                    assert(seen + (seq![item.deep_view()] + items) =~= seen.push(item.deep_view())
                        + items);
                },
                Err(_) => {},
            }
        }
        i += 1;
    }
    proof {
        assert(out.deep_view() + Seq::<I::V>::empty() =~= out.deep_view());
    }
    Ok(Deserialized { value: out, data: rest })
}

/// The count of the items, as the counter writes it, and the items behind it.
#[verifier::opaque]
pub open spec fn counted_bytes<E: Serialize, C: ArrayCounter>(v: Seq<E::V>) -> Seq<u8> {
    C::encode(C::counter_for(v.len())) + encode_all::<E>(v)
}

/// A counter off the front of `data`, and behind it as many items as it
/// announces.
#[verifier::opaque]
pub open spec fn counted_read<E: Deserialize, C: ArrayCounter>(data: Seq<u8>) -> Decoded<
    Seq<E::V>,
> {
    match C::decode(data) {
        Err(e) => Err(e),
        Ok((counter, n)) => after(
            Seq::empty(),
            n,
            decode_n::<E>(data.skip(n as int), C::count_of(counter)),
        ),
    }
}

impl<E: Serialize, C: ArrayCounter> Serialize for CountedArray<E, C> {
    open spec fn serializable(v: Seq<E::V>) -> bool {
        C::serializable(C::counter_for(v.len())) && all_serializable::<E>(v)
    }

    open spec fn encode(v: Seq<E::V>) -> Seq<u8> {
        counted_bytes::<E, C>(v)
    }

    fn mc_serialize<S: Serializer>(&self, to: &mut S) -> (r: SerializeResult) {
        proof {
            reveal(counted_bytes);
        }
        let count = C::from_count(self.data.len());
        count.mc_serialize(to)?;
        let r = serialize_vec_directly(&self.data, to);
        proof {
            let head = C::encode(C::counter_for(self.data@.len()));
            let body = encode_all::<E>(self.data.deep_view());
            assert(old(to).written() + head + body =~= old(to).written() + (head + body));
        }
        r
    }
}

impl<E: Deserialize, C: ArrayCounter> Deserialize for CountedArray<E, C> {
    open spec fn decode(data: Seq<u8>) -> Decoded<Seq<E::V>> {
        counted_read::<E, C>(data)
    }

    fn mc_deserialize(data: &[u8]) -> (r: DeserializeResult<'_, CountedArray<E, C>>) {
        proof {
            reveal(counted_read);
        }
        let Deserialized { value: count, data: body } = C::mc_deserialize(data)?;
        let count = count.as_count();
        let Deserialized { value: elems, data: rest } = deserialize_vec_directly::<E>(count, body)?;
        proof {
            let lead = data@.len() - body@.len();
            assert(rest@ =~= data@.skip(lead + (body@.len() - rest@.len())));
            assert(Seq::<E::V>::empty() + elems.deep_view() =~= elems.deep_view());
        }
        Ok(
            Deserialized {
                value: CountedArray { data: elems, _counter_type: core::marker::PhantomData },
                data: rest,
            },
        )
    }
}

impl<E: ProtocolType, C: ArrayCounter + ProtocolType> ProtocolType for CountedArray<E, C> {
    /// The count has to fit the counter, and only the last of the items may
    /// be of a kind that takes all the input.
    open spec fn faithful(v: Seq<E::V>) -> bool {
        &&& v.len() <= C::max_count()
        &&& C::delimited()
        &&& C::faithful(C::counter_for(v.len()))
        &&& all_faithful::<E>(v)
        &&& E::delimited() || v.len() <= 1
    }

    open spec fn delimited() -> bool {
        E::delimited()
    }

    proof fn lemma_round_trip(v: Seq<E::V>, rest: Seq<u8>) {
        reveal(counted_bytes);
        reveal(counted_read);
        let counter = C::counter_for(v.len());
        let head = C::encode(counter);
        let body = encode_all::<E>(v);
        C::lemma_count_of_counter(v.len());
        C::lemma_round_trip(counter, body + rest);
        lemma_decode_n_encode_all::<E>(v, rest);
        lemma_all_serializable::<E>(v);
        assert(head + body + rest =~= head + (body + rest));
        assert((head + (body + rest)).skip(head.len() as int) =~= body + rest);
        assert(Seq::<E::V>::empty() + v =~= v);
    }
}

/// Values that survive the round trip have a wire form.
pub proof fn lemma_all_serializable<E: ProtocolType>(items: Seq<E::V>)
    requires
        all_faithful::<E>(items),
        E::delimited() || items.len() <= 1,
    ensures
        all_serializable::<E>(items),
{
    assert forall|i: int| 0 <= i < items.len() implies E::serializable(#[trigger] items[i]) by {
        E::lemma_round_trip(items[i], Seq::empty());
    }
}

impl<E, C> From<Vec<E>> for CountedArray<E, C> {
    fn from(data: Vec<E>) -> (r: Self) {
        Self { data, _counter_type: core::marker::PhantomData }
    }
}

impl<E, C> vstd::std_specs::convert::FromSpecImpl<Vec<E>> for CountedArray<E, C> {
    open spec fn obeys_from_spec() -> bool {
        true
    }

    open spec fn from_spec(v: Vec<E>) -> Self {
        CountedArray { data: v, _counter_type: core::marker::PhantomData }
    }
}

impl<E, C> From<CountedArray<E, C>> for Vec<E> {
    fn from(other: CountedArray<E, C>) -> (r: Self) {
        other.data
    }
}

impl<E, C> vstd::std_specs::convert::FromSpecImpl<CountedArray<E, C>> for Vec<E> {
    open spec fn obeys_from_spec() -> bool {
        true
    }

    open spec fn from_spec(v: CountedArray<E, C>) -> Self {
        v.data
    }
}

// The 128 bits, most significant byte first.
impl Serialize for UUID4 {
    open spec fn serializable(v: u128) -> bool {
        true
    }

    #[verifier::opaque]
    open spec fn encode(v: u128) -> Seq<u8> {
        u128::encode(v)
    }

    fn mc_serialize<S: Serializer>(&self, to: &mut S) -> (r: SerializeResult) {
        proof {
            reveal(<u128 as Serialize>::encode);
            reveal(<UUID4 as Serialize>::encode);
        }
        let bytes = ProtoByteOrder::write_u2long(self.to_u128());
        to.serialize_bytes(bytes.as_slice())
    }
}

impl Deserialize for UUID4 {
    #[verifier::opaque]
    open spec fn decode(data: Seq<u8>) -> Decoded<u128> {
        u128::decode(data)
    }

    fn mc_deserialize(data: &[u8]) -> (r: DeserializeResult<'_, UUID4>) {
        proof {
            reveal(<u128 as Deserialize>::decode);
            reveal(<UUID4 as Deserialize>::decode);
        }
        let Deserialized { value: raw, data: rest } = ProtoByteOrder::read_u2long(data)?;
        proof {
            crate::uuid::lemma_from_u128(raw);
        }
        Ok(Deserialized { value: UUID4::from(raw), data: rest })
    }
}

impl ProtocolType for UUID4 {
    open spec fn faithful(v: u128) -> bool {
        true
    }

    open spec fn delimited() -> bool {
        true
    }

    proof fn lemma_round_trip(v: u128, rest: Seq<u8>) {
        reveal(<u128 as Serialize>::encode);
        reveal(<u128 as Deserialize>::decode);
        reveal(<UUID4 as Serialize>::encode);
        reveal(<UUID4 as Deserialize>::decode);
        reveal(<UUID4 as Serialize>::encode);
        reveal(<UUID4 as Deserialize>::decode);
        u128::lemma_round_trip(v, rest);
    }
}

/// A whole tag tree as one part of a message: a named compound.
#[derive(Clone, Debug, PartialEq)]
pub struct NamedNbtTag {
    pub root: NamedTag,
}

impl DeepView for NamedNbtTag {
    type V = NamedTagView;

    open spec fn deep_view(&self) -> NamedTagView {
        self.root.deep_view()
    }
}

impl Serialize for NamedNbtTag {
    open spec fn serializable(v: NamedTagView) -> bool {
        kind_of(v.payload) == 0 || writable(v.payload)
    }

    #[verifier::opaque]
    open spec fn encode(v: NamedTagView) -> Seq<u8> {
        named_bytes(v)
    }

    fn mc_serialize<S: Serializer>(&self, to: &mut S) -> (r: SerializeResult) {
        proof {
            reveal(<NamedNbtTag as Serialize>::encode);
        }
        let bytes = self.root.bytes()?;
        to.serialize_bytes(bytes.as_slice())
    }
}

impl Deserialize for NamedNbtTag {
    #[verifier::opaque]
    open spec fn decode(data: Seq<u8>) -> Decoded<NamedTagView> {
        parse_root(data)
    }

    fn mc_deserialize(data: &[u8]) -> (r: DeserializeResult<'_, NamedNbtTag>) {
        proof {
            reveal(<NamedNbtTag as Deserialize>::decode);
        }
        let Deserialized { value: root, data: rest } = NamedTag::root_compound_tag_from_bytes(
            data,
        )?;
        Ok(Deserialized { value: NamedNbtTag { root }, data: rest })
    }
}

impl ProtocolType for NamedNbtTag {
    /// The root has to be a compound, and the tree one that comes back.
    open spec fn faithful(v: NamedTagView) -> bool {
        v.payload is Compound && faithful_child(v)
    }

    open spec fn delimited() -> bool {
        true
    }

    proof fn lemma_round_trip(v: NamedTagView, rest: Seq<u8>) {
        reveal(<NamedNbtTag as Serialize>::encode);
        reveal(<NamedNbtTag as Deserialize>::decode);
        reveal(<NamedNbtTag as Serialize>::encode);
        reveal(<NamedNbtTag as Deserialize>::decode);
        lemma_named_round_trip(v, rest);
        lemma_faithful_writable(v.payload);
    }
}

impl From<NamedTag> for NamedNbtTag {
    fn from(root: NamedTag) -> (r: Self) {
        Self { root }
    }
}

impl vstd::std_specs::convert::FromSpecImpl<NamedTag> for NamedNbtTag {
    open spec fn obeys_from_spec() -> bool {
        true
    }

    open spec fn from_spec(v: NamedTag) -> Self {
        NamedNbtTag { root: v }
    }
}

impl From<NamedNbtTag> for NamedTag {
    fn from(other: NamedNbtTag) -> (r: Self) {
        other.root
    }
}

impl vstd::std_specs::convert::FromSpecImpl<NamedNbtTag> for NamedTag {
    open spec fn obeys_from_spec() -> bool {
        true
    }

    open spec fn from_spec(v: NamedNbtTag) -> Self {
        v.root
    }
}

/// A stack of items: what it is, how many, and the tag tree that describes
/// it further, if any.
#[derive(Debug, PartialEq, Clone)]
pub struct ItemStack {
    pub item_id: VarInt,
    pub item_count: i8,
    pub nbt: Option<NamedTag>,
}

/// The mathematical content of an [`ItemStack`].
pub struct ItemStackView {
    pub item_id: VarInt,
    pub item_count: i8,
    pub nbt: Option<NamedTagView>,
}

impl DeepView for ItemStack {
    type V = ItemStackView;

    open spec fn deep_view(&self) -> ItemStackView {
        ItemStackView {
            item_id: self.item_id,
            item_count: self.item_count,
            nbt: self.nbt.deep_view(),
        }
    }
}

/// The bytes that stand for the tag tree of a stack: the tree, or a lone end
/// tag where there is none.
pub open spec fn stack_tag_bytes(nbt: Option<NamedTagView>) -> Seq<u8> {
    match nbt {
        Some(t) => named_bytes(t),
        None => seq![0x00u8],
    }
}

impl Serialize for ItemStack {
    open spec fn serializable(v: ItemStackView) -> bool {
        match v.nbt {
            Some(t) => kind_of(t.payload) == 0 || writable(t.payload),
            None => true,
        }
    }

    #[verifier::opaque]
    open spec fn encode(v: ItemStackView) -> Seq<u8> {
        VarInt::encode(v.item_id) + i8::encode(v.item_count) + stack_tag_bytes(v.nbt)
    }

    fn mc_serialize<S: Serializer>(&self, to: &mut S) -> (r: SerializeResult) {
        proof {
            reveal(<i8 as Serialize>::encode);
            reveal(<ItemStack as Serialize>::encode);
        }
        self.item_id.mc_serialize(to)?;
        self.item_count.mc_serialize(to)?;
        let ghost head = VarInt::encode(self.item_id) + i8::encode(self.item_count);
        proof {
            assert(to.written() =~= old(to).written() + head);
        }
        let r = match self.nbt.as_ref() {
            Some(nbt) => {
                let bytes = nbt.bytes()?;
                to.serialize_bytes(bytes.as_slice())
            },
            None => {
                let r = to.serialize_byte(Tag::End.id());
                proof {
                    assert(old(to).written() + head + seq![0x00u8] =~= (old(to).written()
                        + head).push(0x00u8));
                }
                r
            },
        };
        proof {
            let tail = stack_tag_bytes(self.deep_view().nbt);
            assert(old(to).written() + head + tail =~= old(to).written() + (head + tail));
        }
        r
    }
}

impl Deserialize for ItemStack {
    #[verifier::opaque]
    open spec fn decode(data: Seq<u8>) -> Decoded<ItemStackView> {
        match VarInt::decode(data) {
            Err(e) => Err(e),
            Ok((item_id, n)) => match i8::decode(data.skip(n as int)) {
                Err(e) => Err(e),
                Ok((item_count, m)) => {
                    let body = data.skip((n + m) as int);
                    if body.len() == 0 {
                        Err(DecodeFailure::Eof)
                    } else if body[0] == 0x00 {
                        Ok((ItemStackView { item_id, item_count, nbt: None }, n + m + 1))
                    } else {
                        match parse_named(body) {
                            Err(e) => Err(e),
                            Ok((t, k)) => Ok(
                                (ItemStackView { item_id, item_count, nbt: Some(t) }, n + m + k),
                            ),
                        }
                    }
                },
            },
        }
    }

    fn mc_deserialize(data: &[u8]) -> (r: DeserializeResult<'_, ItemStack>) {
        proof {
            reveal(<i8 as Deserialize>::decode);
            reveal(<ItemStack as Deserialize>::decode);
        }
        let Deserialized { value: item_id, data: rest } = VarInt::mc_deserialize(data)?;
        let ghost n = (data@.len() - rest@.len()) as int;
        let Deserialized { value: item_count, data: body } = i8::mc_deserialize(rest)?;
        proof {
            assert(body@ =~= data@.skip(n + 1));
        }
        if body.is_empty() {
            return Err(DeserializeErr::Eof);
        }
        let id = body[0];
        match id {
            0x00 => {
                let after = vstd::slice::slice_subrange(body, 1, body.len());
                proof {
                    assert(after@ =~= data@.skip(n + 2));
                }
                Ok(Deserialized { value: ItemStack { item_id, item_count, nbt: None }, data: after })
            },
            _ => {
                let Deserialized { value: tag, data: after } = read_named_tag(body)?;
                proof {
                    let k = body@.len() - after@.len();
                    assert(after@ =~= data@.skip(n + 1 + k));
                }
                Ok(
                    Deserialized {
                        value: ItemStack { item_id, item_count, nbt: Some(tag) },
                        data: after,
                    },
                )
            },
        }
    }
}

impl ProtocolType for ItemStack {
    /// A tag tree, where there is one, has to come back, and cannot be a
    /// lone end tag: that stands for no tree at all.
    open spec fn faithful(v: ItemStackView) -> bool {
        match v.nbt {
            Some(t) => faithful_child(t),
            None => true,
        }
    }

    open spec fn delimited() -> bool {
        true
    }

    proof fn lemma_round_trip(v: ItemStackView, rest: Seq<u8>) {
        reveal(<i8 as Serialize>::encode);
        reveal(<i8 as Deserialize>::decode);
        reveal(<ItemStack as Serialize>::encode);
        reveal(<ItemStack as Deserialize>::decode);
        reveal(<ItemStack as Serialize>::encode);
        reveal(<ItemStack as Deserialize>::decode);
        let id = VarInt::encode(v.item_id);
        let count = i8::encode(v.item_count);
        let tail = stack_tag_bytes(v.nbt);
        let data = Self::encode(v) + rest;
        VarInt::lemma_round_trip(v.item_id, count + tail + rest);
        i8::lemma_round_trip(v.item_count, tail + rest);
        assert(data =~= id + (count + tail + rest));
        assert(data.skip(id.len() as int) =~= count + (tail + rest));
        assert(data.skip((id.len() + 1) as int) =~= tail + rest);
        match v.nbt {
            Some(t) => {
                lemma_named_round_trip(t, rest);
                lemma_faithful_writable(t.payload);
                crate::nbt::lemma_named_end(tail + rest);
            },
            None => {},
        }
    }
}

/// What an inventory slot holds: a stack of items, or nothing.
pub type Slot = Option<ItemStack>;

/// Three of a kind: a point or a direction in space.
#[derive(Clone, Copy, PartialEq, Eq, Hash, Debug)]
pub struct Vec3<T> {
    pub x: T,
    pub y: T,
    pub z: T,
}

impl<T: DeepView> DeepView for Vec3<T> {
    type V = Vec3<T::V>;

    open spec fn deep_view(&self) -> Vec3<T::V> {
        Vec3 { x: self.x.deep_view(), y: self.y.deep_view(), z: self.z.deep_view() }
    }
}

/// The bytes of three of a kind, one after another.
#[verifier::opaque]
pub open spec fn vec3_bytes<T: Serialize>(v: Vec3<T::V>) -> Seq<u8> {
    T::encode(v.x) + T::encode(v.y) + T::encode(v.z)
}

impl<T: Serialize> Serialize for Vec3<T> {
    open spec fn serializable(v: Vec3<T::V>) -> bool {
        T::serializable(v.x) && T::serializable(v.y) && T::serializable(v.z)
    }

    open spec fn encode(v: Vec3<T::V>) -> Seq<u8> {
        vec3_bytes::<T>(v)
    }

    fn mc_serialize<S: Serializer>(&self, to: &mut S) -> (r: SerializeResult) {
        proof {
            reveal(vec3_bytes);
        }
        self.x.mc_serialize(to)?;
        self.y.mc_serialize(to)?;
        self.z.mc_serialize(to)?;
        proof {
            assert(to.written() =~= old(to).written() + Self::encode(self.deep_view()));
        }
        Ok(())
    }
}

/// What stands at the front of `data`, read as three of a kind, one after
/// another.
#[verifier::opaque]
pub open spec fn vec3_read<T: Deserialize>(data: Seq<u8>) -> Decoded<Vec3<T::V>> {
    match T::decode(data) {
        Err(e) => Err(e),
        Ok((x, n0)) => {
            match T::decode(data.skip((n0) as int)) {
                Err(e) => Err(e),
                Ok((y, n1)) => {
                    match T::decode(data.skip((n0 + n1) as int)) {
                        Err(e) => Err(e),
                        Ok((z, n2)) => Ok((Vec3 { x, y, z }, n0 + n1 + n2)),
                    }
                },
            }
        },
    }
}

impl<T: Deserialize> Deserialize for Vec3<T> {
    open spec fn decode(data: Seq<u8>) -> Decoded<Vec3<T::V>> {
        vec3_read::<T>(data)
    }

    fn mc_deserialize(data: &[u8]) -> (r: DeserializeResult<'_, Vec3<T>>) {
        proof {
            reveal(vec3_read);
        }
        let ghost whole = data@;
        let Deserialized { value: x, data: rest0 } = T::mc_deserialize(data)?;
        let Deserialized { value: y, data: rest1 } = T::mc_deserialize(rest0)?;
        proof {
            assert(rest1@ =~= whole.skip(whole.len() - rest1@.len()));
        }
        let Deserialized { value: z, data: rest2 } = T::mc_deserialize(rest1)?;
        proof {
            assert(rest2@ =~= whole.skip(whole.len() - rest2@.len()));
        }
        Ok(Deserialized { value: Vec3 { x, y, z }, data: rest2 })
    }
}

impl<T: ProtocolType> ProtocolType for Vec3<T> {
    /// Every part has to come back, and has to mark its own end: another
    /// part follows it.
    open spec fn faithful(v: Vec3<T::V>) -> bool {
        T::delimited() && T::faithful(v.x) && T::faithful(v.y) && T::faithful(v.z)
    }

    open spec fn delimited() -> bool {
        T::delimited()
    }

    proof fn lemma_round_trip(v: Vec3<T::V>, rest: Seq<u8>) {
        reveal(vec3_bytes);
        reveal(vec3_read);
        let e0 = T::encode(v.x);
        let e1 = T::encode(v.y);
        let e2 = T::encode(v.z);
        let data = Self::encode(v) + rest;
        T::lemma_round_trip(v.x, e1 + e2 + rest);
        assert(data =~= e0 + (e1 + e2 + rest));
        T::lemma_round_trip(v.y, e2 + rest);
        assert(data.skip((e0.len()) as int) =~= e1 + (e2 + rest));
        T::lemma_round_trip(v.z, rest);
        assert(data.skip((e0.len() + e1.len()) as int) =~= e2 + rest);
    }
}

impl<T> From<(T, T, T)> for Vec3<T> {
    fn from(other: (T, T, T)) -> (r: Self) {
        let (x, y, z) = other;
        Self { x, y, z }
    }
}

impl<T> vstd::std_specs::convert::FromSpecImpl<(T, T, T)> for Vec3<T> {
    open spec fn obeys_from_spec() -> bool {
        true
    }

    open spec fn from_spec(v: (T, T, T)) -> Self {
        Vec3 { x: v.0, y: v.1, z: v.2 }
    }
}

impl<T> From<Vec3<T>> for (T, T, T) {
    fn from(other: Vec3<T>) -> (r: Self) {
        (other.x, other.y, other.z)
    }
}

impl<T> vstd::std_specs::convert::FromSpecImpl<Vec3<T>> for (T, T, T) {
    open spec fn obeys_from_spec() -> bool {
        true
    }

    open spec fn from_spec(v: Vec3<T>) -> Self {
        (v.x, v.y, v.z)
    }
}

/// Two of a kind: a point or a direction in a plane.
#[derive(Clone, Copy, PartialEq, Eq, Hash, Debug)]
pub struct Vec2<T> {
    pub x: T,
    pub y: T,
}

impl<T: DeepView> DeepView for Vec2<T> {
    type V = Vec2<T::V>;

    open spec fn deep_view(&self) -> Vec2<T::V> {
        Vec2 { x: self.x.deep_view(), y: self.y.deep_view() }
    }
}

/// The bytes of two of a kind, one after another.
#[verifier::opaque]
pub open spec fn vec2_bytes<T: Serialize>(v: Vec2<T::V>) -> Seq<u8> {
    T::encode(v.x) + T::encode(v.y)
}

impl<T: Serialize> Serialize for Vec2<T> {
    open spec fn serializable(v: Vec2<T::V>) -> bool {
        T::serializable(v.x) && T::serializable(v.y)
    }

    open spec fn encode(v: Vec2<T::V>) -> Seq<u8> {
        vec2_bytes::<T>(v)
    }

    fn mc_serialize<S: Serializer>(&self, to: &mut S) -> (r: SerializeResult) {
        proof {
            reveal(vec2_bytes);
        }
        self.x.mc_serialize(to)?;
        self.y.mc_serialize(to)?;
        proof {
            assert(to.written() =~= old(to).written() + Self::encode(self.deep_view()));
        }
        Ok(())
    }
}

/// What stands at the front of `data`, read as two of a kind, one after
/// another.
#[verifier::opaque]
pub open spec fn vec2_read<T: Deserialize>(data: Seq<u8>) -> Decoded<Vec2<T::V>> {
    match T::decode(data) {
        Err(e) => Err(e),
        Ok((x, n0)) => {
            match T::decode(data.skip((n0) as int)) {
                Err(e) => Err(e),
                Ok((y, n1)) => Ok((Vec2 { x, y }, n0 + n1)),
            }
        },
    }
}

impl<T: Deserialize> Deserialize for Vec2<T> {
    open spec fn decode(data: Seq<u8>) -> Decoded<Vec2<T::V>> {
        vec2_read::<T>(data)
    }

    fn mc_deserialize(data: &[u8]) -> (r: DeserializeResult<'_, Vec2<T>>) {
        proof {
            reveal(vec2_read);
        }
        let ghost whole = data@;
        let Deserialized { value: x, data: rest0 } = T::mc_deserialize(data)?;
        let Deserialized { value: y, data: rest1 } = T::mc_deserialize(rest0)?;
        proof {
            assert(rest1@ =~= whole.skip(whole.len() - rest1@.len()));
        }
        Ok(Deserialized { value: Vec2 { x, y }, data: rest1 })
    }
}

impl<T: ProtocolType> ProtocolType for Vec2<T> {
    /// Every part has to come back, and has to mark its own end: another
    /// part follows it.
    open spec fn faithful(v: Vec2<T::V>) -> bool {
        T::delimited() && T::faithful(v.x) && T::faithful(v.y)
    }

    open spec fn delimited() -> bool {
        T::delimited()
    }

    proof fn lemma_round_trip(v: Vec2<T::V>, rest: Seq<u8>) {
        reveal(vec2_bytes);
        reveal(vec2_read);
        let e0 = T::encode(v.x);
        let e1 = T::encode(v.y);
        let data = Self::encode(v) + rest;
        T::lemma_round_trip(v.x, e1 + rest);
        assert(data =~= e0 + (e1 + rest));
        T::lemma_round_trip(v.y, rest);
        assert(data.skip((e0.len()) as int) =~= e1 + rest);
    }
}

impl<T> From<(T, T)> for Vec2<T> {
    fn from(other: (T, T)) -> (r: Self) {
        let (x, y) = other;
        Self { x, y }
    }
}

impl<T> vstd::std_specs::convert::FromSpecImpl<(T, T)> for Vec2<T> {
    open spec fn obeys_from_spec() -> bool {
        true
    }

    open spec fn from_spec(v: (T, T)) -> Self {
        Vec2 { x: v.0, y: v.1 }
    }
}

impl<T> From<Vec2<T>> for (T, T) {
    fn from(other: Vec2<T>) -> (r: Self) {
        (other.x, other.y)
    }
}

impl<T> vstd::std_specs::convert::FromSpecImpl<Vec2<T>> for (T, T) {
    open spec fn obeys_from_spec() -> bool {
        true
    }

    open spec fn from_spec(v: Vec2<T>) -> Self {
        (v.x, v.y)
    }
}

/// The place of a chunk column, or of anything else seen from above.
#[derive(Clone, Copy, PartialEq, Eq, Hash, Debug)]
pub struct ChunkPosition<T> {
    pub x: T,
    pub z: T,
}

impl<T: DeepView> DeepView for ChunkPosition<T> {
    type V = ChunkPosition<T::V>;

    open spec fn deep_view(&self) -> ChunkPosition<T::V> {
        ChunkPosition { x: self.x.deep_view(), z: self.z.deep_view() }
    }
}

/// The bytes of the position of a chunk, `x` before `z`.
#[verifier::opaque]
pub open spec fn chunk_position_bytes<T: Serialize>(v: ChunkPosition<T::V>) -> Seq<u8> {
    T::encode(v.x) + T::encode(v.z)
}

impl<T: Serialize> Serialize for ChunkPosition<T> {
    open spec fn serializable(v: ChunkPosition<T::V>) -> bool {
        T::serializable(v.x) && T::serializable(v.z)
    }

    open spec fn encode(v: ChunkPosition<T::V>) -> Seq<u8> {
        chunk_position_bytes::<T>(v)
    }

    fn mc_serialize<S: Serializer>(&self, to: &mut S) -> (r: SerializeResult) {
        proof {
            reveal(chunk_position_bytes);
        }
        self.x.mc_serialize(to)?;
        self.z.mc_serialize(to)?;
        proof {
            assert(to.written() =~= old(to).written() + Self::encode(self.deep_view()));
        }
        Ok(())
    }
}

/// What stands at the front of `data`, read as the position of a chunk, `x`
/// before `z`.
#[verifier::opaque]
pub open spec fn chunk_position_read<T: Deserialize>(data: Seq<u8>) -> Decoded<
    ChunkPosition<T::V>,
> {
    match T::decode(data) {
        Err(e) => Err(e),
        Ok((x, n0)) => {
            match T::decode(data.skip((n0) as int)) {
                Err(e) => Err(e),
                Ok((z, n1)) => Ok((ChunkPosition { x, z }, n0 + n1)),
            }
        },
    }
}

impl<T: Deserialize> Deserialize for ChunkPosition<T> {
    open spec fn decode(data: Seq<u8>) -> Decoded<ChunkPosition<T::V>> {
        chunk_position_read::<T>(data)
    }

    fn mc_deserialize(data: &[u8]) -> (r: DeserializeResult<'_, ChunkPosition<T>>) {
        proof {
            reveal(chunk_position_read);
        }
        let ghost whole = data@;
        let Deserialized { value: x, data: rest0 } = T::mc_deserialize(data)?;
        let Deserialized { value: z, data: rest1 } = T::mc_deserialize(rest0)?;
        proof {
            assert(rest1@ =~= whole.skip(whole.len() - rest1@.len()));
        }
        Ok(Deserialized { value: ChunkPosition { x, z }, data: rest1 })
    }
}

impl<T: ProtocolType> ProtocolType for ChunkPosition<T> {
    /// Every part has to come back, and has to mark its own end: another
    /// part follows it.
    open spec fn faithful(v: ChunkPosition<T::V>) -> bool {
        T::delimited() && T::faithful(v.x) && T::faithful(v.z)
    }

    open spec fn delimited() -> bool {
        T::delimited()
    }

    proof fn lemma_round_trip(v: ChunkPosition<T::V>, rest: Seq<u8>) {
        reveal(chunk_position_bytes);
        reveal(chunk_position_read);
        let e0 = T::encode(v.x);
        let e1 = T::encode(v.z);
        let data = Self::encode(v) + rest;
        T::lemma_round_trip(v.x, e1 + rest);
        assert(data =~= e0 + (e1 + rest));
        T::lemma_round_trip(v.z, rest);
        assert(data.skip((e0.len()) as int) =~= e1 + rest);
    }
}

impl<T> From<(T, T)> for ChunkPosition<T> {
    fn from(other: (T, T)) -> (r: Self) {
        let (x, z) = other;
        Self { x, z }
    }
}

impl<T> vstd::std_specs::convert::FromSpecImpl<(T, T)> for ChunkPosition<T> {
    open spec fn obeys_from_spec() -> bool {
        true
    }

    open spec fn from_spec(v: (T, T)) -> Self {
        ChunkPosition { x: v.0, z: v.1 }
    }
}

impl<T> From<ChunkPosition<T>> for (T, T) {
    fn from(other: ChunkPosition<T>) -> (r: Self) {
        (other.x, other.z)
    }
}

impl<T> vstd::std_specs::convert::FromSpecImpl<ChunkPosition<T>> for (T, T) {
    open spec fn obeys_from_spec() -> bool {
        true
    }

    open spec fn from_spec(v: ChunkPosition<T>) -> Self {
        (v.x, v.z)
    }
}

pub type TopDownPosition<T> = ChunkPosition<T>;

/// The way an entity faces.
#[derive(Clone, Copy, PartialEq, Eq, Hash, Debug)]
pub struct EntityRotation<T> {
    pub yaw: T,
    pub pitch: T,
}

impl<T: DeepView> DeepView for EntityRotation<T> {
    type V = EntityRotation<T::V>;

    open spec fn deep_view(&self) -> EntityRotation<T::V> {
        EntityRotation { yaw: self.yaw.deep_view(), pitch: self.pitch.deep_view() }
    }
}

/// The bytes of a rotation, yaw before pitch.
#[verifier::opaque]
pub open spec fn entity_rotation_bytes<T: Serialize>(v: EntityRotation<T::V>) -> Seq<u8> {
    T::encode(v.yaw) + T::encode(v.pitch)
}

impl<T: Serialize> Serialize for EntityRotation<T> {
    open spec fn serializable(v: EntityRotation<T::V>) -> bool {
        T::serializable(v.yaw) && T::serializable(v.pitch)
    }

    open spec fn encode(v: EntityRotation<T::V>) -> Seq<u8> {
        entity_rotation_bytes::<T>(v)
    }

    fn mc_serialize<S: Serializer>(&self, to: &mut S) -> (r: SerializeResult) {
        proof {
            reveal(entity_rotation_bytes);
        }
        self.yaw.mc_serialize(to)?;
        self.pitch.mc_serialize(to)?;
        proof {
            assert(to.written() =~= old(to).written() + Self::encode(self.deep_view()));
        }
        Ok(())
    }
}

/// What stands at the front of `data`, read as a rotation, yaw before pitch.
#[verifier::opaque]
pub open spec fn entity_rotation_read<T: Deserialize>(data: Seq<u8>) -> Decoded<
    EntityRotation<T::V>,
> {
    match T::decode(data) {
        Err(e) => Err(e),
        Ok((yaw, n0)) => {
            match T::decode(data.skip((n0) as int)) {
                Err(e) => Err(e),
                Ok((pitch, n1)) => Ok((EntityRotation { yaw, pitch }, n0 + n1)),
            }
        },
    }
}

impl<T: Deserialize> Deserialize for EntityRotation<T> {
    open spec fn decode(data: Seq<u8>) -> Decoded<EntityRotation<T::V>> {
        entity_rotation_read::<T>(data)
    }

    fn mc_deserialize(data: &[u8]) -> (r: DeserializeResult<'_, EntityRotation<T>>) {
        proof {
            reveal(entity_rotation_read);
        }
        let ghost whole = data@;
        let Deserialized { value: yaw, data: rest0 } = T::mc_deserialize(data)?;
        let Deserialized { value: pitch, data: rest1 } = T::mc_deserialize(rest0)?;
        proof {
            assert(rest1@ =~= whole.skip(whole.len() - rest1@.len()));
        }
        Ok(Deserialized { value: EntityRotation { yaw, pitch }, data: rest1 })
    }
}

impl<T: ProtocolType> ProtocolType for EntityRotation<T> {
    /// Every part has to come back, and has to mark its own end: another
    /// part follows it.
    open spec fn faithful(v: EntityRotation<T::V>) -> bool {
        T::delimited() && T::faithful(v.yaw) && T::faithful(v.pitch)
    }

    open spec fn delimited() -> bool {
        T::delimited()
    }

    proof fn lemma_round_trip(v: EntityRotation<T::V>, rest: Seq<u8>) {
        reveal(entity_rotation_bytes);
        reveal(entity_rotation_read);
        let e0 = T::encode(v.yaw);
        let e1 = T::encode(v.pitch);
        let data = Self::encode(v) + rest;
        T::lemma_round_trip(v.yaw, e1 + rest);
        assert(data =~= e0 + (e1 + rest));
        T::lemma_round_trip(v.pitch, rest);
        assert(data.skip((e0.len()) as int) =~= e1 + rest);
    }
}

impl<T> From<(T, T)> for EntityRotation<T> {
    fn from(other: (T, T)) -> (r: Self) {
        let (yaw, pitch) = other;
        Self { yaw, pitch }
    }
}

impl<T> vstd::std_specs::convert::FromSpecImpl<(T, T)> for EntityRotation<T> {
    open spec fn obeys_from_spec() -> bool {
        true
    }

    open spec fn from_spec(v: (T, T)) -> Self {
        EntityRotation { yaw: v.0, pitch: v.1 }
    }
}

impl<T> From<EntityRotation<T>> for (T, T) {
    fn from(other: EntityRotation<T>) -> (r: Self) {
        (other.yaw, other.pitch)
    }
}

impl<T> vstd::std_specs::convert::FromSpecImpl<EntityRotation<T>> for (T, T) {
    open spec fn obeys_from_spec() -> bool {
        true
    }

    open spec fn from_spec(v: EntityRotation<T>) -> Self {
        (v.yaw, v.pitch)
    }
}

/// Where an entity is and which way it faces.
#[derive(Debug, Clone, PartialEq)]
pub struct EntityLocation<P, R> {
    pub position: Vec3<P>,
    pub rotation: EntityRotation<R>,
}

impl<P: DeepView, R: DeepView> DeepView for EntityLocation<P, R> {
    type V = EntityLocation<P::V, R::V>;

    open spec fn deep_view(&self) -> EntityLocation<P::V, R::V> {
        EntityLocation { position: self.position.deep_view(), rotation: self.rotation.deep_view() }
    }
}

/// The bytes of a place and a rotation, the place first.
#[verifier::opaque]
pub open spec fn entity_location_bytes<P: Serialize, R: Serialize>(
    v: EntityLocation<P::V, R::V>,
) -> Seq<u8> {
    <Vec3<P>>::encode(v.position) + <EntityRotation<R>>::encode(v.rotation)
}

impl<P: Serialize, R: Serialize> Serialize for EntityLocation<P, R> {
    open spec fn serializable(v: EntityLocation<P::V, R::V>) -> bool {
        <Vec3<P>>::serializable(v.position) && <EntityRotation<R>>::serializable(v.rotation)
    }

    open spec fn encode(v: EntityLocation<P::V, R::V>) -> Seq<u8> {
        entity_location_bytes::<P, R>(v)
    }

    fn mc_serialize<S: Serializer>(&self, to: &mut S) -> (r: SerializeResult) {
        proof {
            reveal(entity_location_bytes);
        }
        self.position.mc_serialize(to)?;
        self.rotation.mc_serialize(to)?;
        proof {
            assert(to.written() =~= old(to).written() + Self::encode(self.deep_view()));
        }
        Ok(())
    }
}

/// What stands at the front of `data`, read as a place and a rotation, the
/// place first.
#[verifier::opaque]
pub open spec fn entity_location_read<P: Deserialize, R: Deserialize>(data: Seq<u8>) -> Decoded<
    EntityLocation<P::V, R::V>,
> {
    match <Vec3<P>>::decode(data) {
        Err(e) => Err(e),
        Ok((position, n0)) => match <EntityRotation<R>>::decode(data.skip(n0 as int)) {
            Err(e) => Err(e),
            Ok((rotation, n1)) => Ok((EntityLocation { position, rotation }, n0 + n1)),
        },
    }
}

impl<P: Deserialize, R: Deserialize> Deserialize for EntityLocation<P, R> {
    open spec fn decode(data: Seq<u8>) -> Decoded<EntityLocation<P::V, R::V>> {
        entity_location_read::<P, R>(data)
    }

    fn mc_deserialize(data: &[u8]) -> (r: DeserializeResult<'_, EntityLocation<P, R>>) {
        proof {
            reveal(entity_location_read);
        }
        let ghost whole = data@;
        let Deserialized { value: position, data: rest0 } = <Vec3<P>>::mc_deserialize(data)?;
        let Deserialized { value: rotation, data: rest1 } = <EntityRotation<R>>::mc_deserialize(
            rest0,
        )?;
        proof {
            assert(rest1@ =~= whole.skip(whole.len() - rest1@.len()));
        }
        Ok(Deserialized { value: EntityLocation { position, rotation }, data: rest1 })
    }
}

impl<P: ProtocolType, R: ProtocolType> ProtocolType for EntityLocation<P, R> {
    open spec fn faithful(v: EntityLocation<P::V, R::V>) -> bool {
        <Vec3<P>>::faithful(v.position) && <EntityRotation<R>>::faithful(v.rotation)
    }

    open spec fn delimited() -> bool {
        R::delimited()
    }

    proof fn lemma_round_trip(v: EntityLocation<P::V, R::V>, rest: Seq<u8>) {
        reveal(entity_location_bytes);
        reveal(entity_location_read);
        let e0 = <Vec3<P>>::encode(v.position);
        let e1 = <EntityRotation<R>>::encode(v.rotation);
        let data = Self::encode(v) + rest;
        <Vec3<P>>::lemma_round_trip(v.position, e1 + rest);
        <EntityRotation<R>>::lemma_round_trip(v.rotation, rest);
        assert(data =~= e0 + (e1 + rest));
        assert(data.skip(e0.len() as int) =~= e1 + rest);
    }
}

/// Nothing of a fixed width can be read from no bytes at all.
pub proof fn lemma_empty_input_is_eof()
    ensures
        bool::decode(Seq::empty()) == Err::<(bool, nat), _>(DecodeFailure::Eof),
        u8::decode(Seq::empty()) == Err::<(u8, nat), _>(DecodeFailure::Eof),
        i8::decode(Seq::empty()) == Err::<(i8, nat), _>(DecodeFailure::Eof),
        u16::decode(Seq::empty()) == Err::<(u16, nat), _>(DecodeFailure::Eof),
        i16::decode(Seq::empty()) == Err::<(i16, nat), _>(DecodeFailure::Eof),
        u32::decode(Seq::empty()) == Err::<(u32, nat), _>(DecodeFailure::Eof),
        i32::decode(Seq::empty()) == Err::<(i32, nat), _>(DecodeFailure::Eof),
        u64::decode(Seq::empty()) == Err::<(u64, nat), _>(DecodeFailure::Eof),
        i64::decode(Seq::empty()) == Err::<(i64, nat), _>(DecodeFailure::Eof),
        u128::decode(Seq::empty()) == Err::<(u128, nat), _>(DecodeFailure::Eof),
        i128::decode(Seq::empty()) == Err::<(i128, nat), _>(DecodeFailure::Eof),
        IntPosition::decode(Seq::empty()) == Err::<(IntPosition, nat), _>(DecodeFailure::Eof),
        Angle::decode(Seq::empty()) == Err::<(Angle, nat), _>(DecodeFailure::Eof),
        UUID4::decode(Seq::empty()) == Err::<(u128, nat), _>(DecodeFailure::Eof),
        FixedInt::decode(Seq::empty()) == Err::<(i32, nat), _>(DecodeFailure::Eof),
{
    reveal(<bool as Deserialize>::decode);
    reveal(<u8 as Deserialize>::decode);
    reveal(<i8 as Deserialize>::decode);
    reveal(<u16 as Deserialize>::decode);
    reveal(<i16 as Deserialize>::decode);
    reveal(<u32 as Deserialize>::decode);
    reveal(<i32 as Deserialize>::decode);
    reveal(<u64 as Deserialize>::decode);
    reveal(<i64 as Deserialize>::decode);
    reveal(<u128 as Deserialize>::decode);
    reveal(<i128 as Deserialize>::decode);
    reveal(<IntPosition as Deserialize>::decode);
    reveal(<Angle as Deserialize>::decode);
    reveal(<UUID4 as Deserialize>::decode);
    reveal(<FixedInt as Deserialize>::decode);
}

/// A text whose length prefix is below zero is refused for that, whatever
/// follows the prefix.
pub proof fn lemma_negative_length(data: Seq<u8>)
    ensures
        match VarInt::decode(data) {
            Ok((length, _)) => length.0 < 0 ==> String::decode(data) == Err::<
                (Seq<char>, nat),
                _,
            >(DecodeFailure::NegativeLength(length.0)),
            Err(e) => String::decode(data) == Err::<(Seq<char>, nat), _>(e),
        },
{
    reveal(string_read);
}

/// Joining is associative.
pub proof fn lemma_concat_assoc<T>(a: Seq<T>, b: Seq<T>, c: Seq<T>)
    ensures
        (a + b) + c == a + (b + c),
{
    assert((a + b) + c =~= a + (b + c));
}

/// What is left of a join behind its first part is its second part.
pub proof fn lemma_skip_concat<T>(a: Seq<T>, b: Seq<T>)
    ensures
        (a + b).skip(a.len() as int) == b,
        (a + b).len() == a.len() + b.len(),
{
    assert((a + b).skip(a.len() as int) =~= b);
}

/// Where a run goes on with `head` and `tail` behind its first `at` items,
/// it goes on with `tail` behind `head`.
pub proof fn lemma_skip_more<T>(whole: Seq<T>, at: int, head: Seq<T>, tail: Seq<T>)
    requires
        0 <= at <= whole.len(),
        whole.skip(at) == head + tail,
    ensures
        at + head.len() <= whole.len(),
        whole.skip(at + head.len()) == tail,
{
    assert(whole.skip(at).len() == head.len() + tail.len());
    assert(whole.skip(at + head.len()) =~= (head + tail).skip(head.len() as int));
    assert((head + tail).skip(head.len() as int) =~= tail);
}

/// Skipping twice is skipping once, as far as both skips go together.
pub proof fn lemma_skip_skip<T>(whole: Seq<T>, a: int, b: int)
    requires
        0 <= a,
        0 <= b,
        a + b <= whole.len(),
    ensures
        whole.skip(a).skip(b) == whole.skip(a + b),
{
    assert(whole.skip(a).skip(b) =~= whole.skip(a + b));
}

} // verus!
