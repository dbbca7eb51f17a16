use crate::byte_order::{
    lemma_radix_values, lemma_signed_unsigned, lemma_pattern_i32, lemma_pattern_i64, radix,
    to_signed, to_unsigned, ByteOrder, ProtoByteOrder,
};
use crate::deserialize::{
    DecodeFailure, Decoded, Deserialize, DeserializeErr, DeserializeResult, Deserialized,
};
use crate::serialize::{Serialize, SerializeResult, Serializer};
use crate::types::ProtocolType;
use vstd::prelude::*;
use vstd::slice::{slice_subrange, slice_to_vec};

verus! {

/// 128 to the power `n`.
pub open spec fn pow128(n: nat) -> nat
    decreases n,
{
    if n == 0 {
        1
    } else {
        128 * pow128((n - 1) as nat)
    }
}

/// The variable-length form of `v`: its base-128 digits, least significant
/// first, one per byte, with the top bit set on every byte but the last.
pub open spec fn varnum_bytes(v: nat) -> Seq<u8>
    decreases v,
{
    if v < 128 {
        seq![v as u8]
    } else {
        seq![(v % 128 + 128) as u8] + varnum_bytes(v / 128)
    }
}

/// The number that the low seven bits of each byte spell in base 128, least
/// significant first.
pub open spec fn varnum_value(groups: Seq<u8>) -> nat
    decreases groups.len(),
{
    if groups.len() == 0 {
        0
    } else {
        (groups[0] % 128) as nat + 128 * varnum_value(groups.skip(1))
    }
}

/// Where a variable-length number at the front of some input stops.
pub enum VarNumScan {
    /// It takes up this many bytes.
    Ends(nat),
    /// The byte budget ran out with the top bit still set.
    TooLong,
    /// The input ran out with the top bit still set.
    Eof,
}

/// Scans `data` for the first byte with a clear top bit, giving up after
/// `budget` bytes.
pub open spec fn varnum_scan(data: Seq<u8>, budget: nat) -> VarNumScan
    decreases budget,
{
    if budget == 0 {
        VarNumScan::TooLong
    } else if data.len() == 0 {
        VarNumScan::Eof
    } else if data[0] < 128 {
        VarNumScan::Ends(1)
    } else {
        match varnum_scan(data.skip(1), (budget - 1) as nat) {
            VarNumScan::Ends(n) => VarNumScan::Ends(n + 1),
            other => other,
        }
    }
}

/// The first `n` bytes of `data` are there and all have the top bit set.
pub open spec fn continues(data: Seq<u8>, n: nat) -> bool {
    n <= data.len() && forall|j: int| 0 <= j < n ==> data[j] >= 128
}

/// What the scan finds, said without recursion: it stops at the first byte
/// below 128 if that comes within the budget and the input, and otherwise
/// reports which of the two ran out first.
pub proof fn lemma_varnum_scan(data: Seq<u8>, budget: nat, n: nat)
    requires
        continues(data, n),
        n <= budget,
    ensures
        n < budget && n < data.len() && data[n as int] < 128 ==> varnum_scan(data, budget)
            == VarNumScan::Ends(n + 1),
        n == budget ==> varnum_scan(data, budget) == VarNumScan::TooLong,
        n < budget && n == data.len() ==> varnum_scan(data, budget) == VarNumScan::Eof,
    decreases n,
{
    if n > 0 {
        let tail = data.skip(1);
        assert forall|j: int| 0 <= j < n - 1 implies tail[j] >= 128 by {
            assert(tail[j] == data[j + 1]);
        }
        lemma_varnum_scan(tail, (budget - 1) as nat, (n - 1) as nat);
        if n < data.len() {
            assert(tail[n - 1] == data[n as int]);
        }
    }
}

/// `k` bytes spell a number below 128 to the power `k`.
pub proof fn lemma_varnum_value_bound(groups: Seq<u8>)
    ensures
        varnum_value(groups) < pow128(groups.len()),
    decreases groups.len(),
{
    if groups.len() > 0 {
        lemma_varnum_value_bound(groups.skip(1));
    }
}

/// One more byte adds its low seven bits at the next weight.
pub proof fn lemma_varnum_value_push(groups: Seq<u8>, b: u8)
    ensures
        varnum_value(groups.push(b)) == varnum_value(groups) + (b % 128) * pow128(groups.len()),
    decreases groups.len(),
{
    let g = (b % 128) as nat;
    if groups.len() == 0 {
        assert(groups.push(b).skip(1) =~= Seq::<u8>::empty());
        assert(varnum_value(groups.push(b).skip(1)) == 0);
        assert(pow128(0) == 1);
        assert(g * 1 == g);
    } else {
        let tail = groups.skip(1);
        let p = pow128(tail.len());
        lemma_varnum_value_push(tail, b);
        assert(groups.push(b).skip(1) =~= tail.push(b));
        assert(pow128(groups.len()) == 128 * p);
        assert(128 * (g * p) == g * (128 * p)) by (nonlinear_arith);
        assert(varnum_value(groups.push(b)) == (groups[0] % 128) as nat + 128 * (varnum_value(tail)
            + g * p));
    }
}

/// The length of the variable-length form never shrinks as the number grows.
pub proof fn lemma_varnum_len_monotone(a: nat, b: nat)
    requires
        a <= b,
    ensures
        1 <= varnum_bytes(a).len() <= varnum_bytes(b).len(),
    decreases b,
{
    if a >= 128 {
        lemma_varnum_len_monotone(a / 128, b / 128);
    } else if b >= 128 {
        lemma_varnum_len_monotone(0, b / 128);
    }
}

/// A number below 128 to the power `k` takes at most `k` bytes, one at least.
pub proof fn lemma_varnum_len_bound(v: nat, k: nat)
    requires
        k >= 1,
        v < pow128(k),
    ensures
        1 <= varnum_bytes(v).len() <= k,
    decreases k,
{
    if v >= 128 {
        if k == 1 {
            assert(pow128(1) == 128) by {
                reveal_with_fuel(pow128, 2);
            }
        } else {
            lemma_varnum_len_bound(v / 128, (k - 1) as nat);
        }
    }
}

/// A 32-bit pattern takes at most 5 bytes and a 64-bit pattern at most 10.
pub proof fn lemma_varnum_len_limits(v: nat)
    ensures
        1 <= varnum_bytes(v).len(),
        v < 0x1_0000_0000 ==> varnum_bytes(v).len() <= 5,
        v < 0x1_0000_0000_0000_0000 ==> varnum_bytes(v).len() <= 10,
{
    lemma_pow128_values();
    lemma_varnum_len_monotone(0, v);
    if v < 0x1_0000_0000 {
        lemma_varnum_len_bound(v, 5);
    }
    if v < 0x1_0000_0000_0000_0000 {
        lemma_varnum_len_bound(v, 10);
    }
}

/// The variable-length form of a number, followed by anything, scans to its
/// own length and spells the number.
pub proof fn lemma_varnum_round_trip(v: nat, rest: Seq<u8>, budget: nat)
    requires
        varnum_bytes(v).len() <= budget,
    ensures
        varnum_scan(varnum_bytes(v) + rest, budget) == VarNumScan::Ends(varnum_bytes(v).len()),
        varnum_value(varnum_bytes(v)) == v,
    decreases v,
{
    let bytes = varnum_bytes(v);
    if v < 128 {
        assert(bytes.skip(1) =~= Seq::<u8>::empty());
        assert(varnum_value(bytes.skip(1)) == 0);
    } else {
        let tail = varnum_bytes(v / 128);
        lemma_varnum_round_trip(v / 128, rest, (budget - 1) as nat);
        assert((bytes + rest).skip(1) =~= tail + rest);
        assert(bytes.skip(1) =~= tail);
    }
}

/// The first eleven powers of 128.
pub proof fn lemma_pow128_values()
    ensures
        pow128(0) == 1,
        pow128(1) == 0x80,
        pow128(2) == 0x4000,
        pow128(3) == 0x20_0000,
        pow128(4) == 0x1000_0000,
        pow128(5) == 0x8_0000_0000,
        pow128(6) == 0x400_0000_0000,
        pow128(7) == 0x2_0000_0000_0000,
        pow128(8) == 0x100_0000_0000_0000,
        pow128(9) == 0x8000_0000_0000_0000,
        pow128(10) == 0x40_0000_0000_0000_0000,
{
    reveal_with_fuel(pow128, 11);
}


/// A signed 32-bit integer in variable-length form: the two's complement
/// pattern, seven bits to a byte, low bits first. Negative numbers therefore
/// always take the full 5 bytes.
#[derive(Copy, Clone, PartialOrd, PartialEq, Default, Hash, Ord, Eq, Debug)]
pub struct VarInt(pub i32);

impl View for VarInt {
    type V = VarInt;

    open spec fn view(&self) -> VarInt {
        *self
    }
}

impl DeepView for VarInt {
    type V = VarInt;

    open spec fn deep_view(&self) -> VarInt {
        *self
    }
}

proof fn lemma_split_u32(v: u32, b: u8)
    by (bit_vector)
    ensures
        (v & 0x7F) as u8 == v % 128,
        v >> 7 == v / 128,
        b < 128 ==> b | 0x80 == b + 128,
{
}

proof fn lemma_gather_u32(v: u32, byte: u8, bit_place: u32, weight: u32)
    by (bit_vector)
    requires
        bit_place < 32,
        v >> bit_place == 0,
        weight == (1 as u32) << bit_place,
    ensures
        v | (((byte as u32) & 0x7F) << bit_place) == (v + (byte % 128) * weight) % 0x1_0000_0000,
{
}

proof fn lemma_weight_u32(v: u32, byte: u8, bit_place: u32)
    by (bit_vector)
    requires
        bit_place == 0 || bit_place == 7 || bit_place == 14 || bit_place == 21 || bit_place == 28,
    ensures
        byte & 0x80 != 0 <==> byte >= 128,
        bit_place == 0 ==> ((v >> bit_place == 0) <==> v < 0x1) && (1 as u32) << bit_place
            == 0x1,
        bit_place == 7 ==> ((v >> bit_place == 0) <==> v < 0x80) && (1 as u32) << bit_place
            == 0x80,
        bit_place == 14 ==> ((v >> bit_place == 0) <==> v < 0x4000) && (1 as u32) << bit_place
            == 0x4000,
        bit_place == 21 ==> ((v >> bit_place == 0) <==> v < 0x20_0000) && (1 as u32) << bit_place
            == 0x20_0000,
        bit_place == 28 ==> ((v >> bit_place == 0) <==> v < 0x1000_0000) && (1 as u32) << bit_place
            == 0x1000_0000,
{
}

/// One step of gathering: the low seven bits of `byte` go into `v` at the
/// weight of the `i`-th group.
proof fn lemma_group_u32(v: u32, byte: u8, i: nat, seen: nat)
    requires
        i < 5,
        seen < pow128(i),
        v == seen % 0x1_0000_0000,
    ensures
        byte & 0x80 != 0 <==> byte >= 128,
        v | (((byte as u32) & 0x7F) << ((7 * i) as u32)) == (seen + (byte % 128) * pow128(i))
            % 0x1_0000_0000,
{
    lemma_pow128_values();
    let bit_place = (7 * i) as u32;
    lemma_weight_u32(v, byte, bit_place);
    lemma_gather_u32(v, byte, bit_place, (1 as u32) << bit_place);
}

/// What is left of a 32-bit pattern after `written` bytes of its
/// variable-length form stays below this.
pub open spec fn varint_left(written: nat) -> nat {
    if written == 0 {
        0x1_0000_0000
    } else if written == 1 {
        0x200_0000
    } else if written == 2 {
        0x4_0000
    } else if written == 3 {
        0x800
    } else if written == 4 {
        0x10
    } else {
        1
    }
}

impl Serialize for VarInt {
    open spec fn serializable(v: VarInt) -> bool {
        true
    }

    #[verifier::opaque]
    open spec fn encode(v: VarInt) -> Seq<u8> {
        varnum_bytes(to_unsigned(v.0 as int, 4))
    }

    fn mc_serialize<S: Serializer>(&self, to: &mut S) -> (r: SerializeResult) {
        proof {
            reveal(<VarInt as Serialize>::encode);
        }
        let mut out = [0u8; 5];
        let mut v: u32 = self.0 as u32;
        let mut byte_idx: usize = 0;
        let mut has_more = true;
        proof {
            lemma_pattern_i32(self.0, 0);
            lemma_radix_values();
        }
        let ghost whole = varnum_bytes(v as nat);
        while has_more
            invariant
                byte_idx <= 5,
                has_more ==> byte_idx < 5 && v < varint_left(byte_idx as nat)
                    && out@.take(byte_idx as int) + varnum_bytes(v as nat) == whole,
                !has_more ==> out@.take(byte_idx as int) == whole,
            decreases v + if has_more { 1int } else { 0int },
        {
            let ghost before = out@.take(byte_idx as int);
            let ghost v0 = v;
            let mut v_byte = (v & 0x7F) as u8;
            v >>= 7;
            has_more = v != 0;
            proof {
                lemma_split_u32(v0, v_byte);
            }
            if has_more {
                v_byte |= 0x80;
            }
            out[byte_idx] = v_byte;
            byte_idx += 1;
            proof {
                assert(out@.take(byte_idx as int) =~= before.push(v_byte));
                if has_more {
                    assert(before.push(v_byte) + varnum_bytes(v as nat) =~= before + varnum_bytes(
                        v0 as nat,
                    ));
                } else {
                    assert(before.push(v_byte) =~= before + varnum_bytes(v0 as nat));
                }
            }
        }
        to.serialize_bytes(slice_subrange(out.as_slice(), 0, byte_idx))
    }
}

impl Deserialize for VarInt {
    #[verifier::opaque]
    open spec fn decode(data: Seq<u8>) -> Decoded<VarInt> {
        match varnum_scan(data, 5) {
            VarNumScan::Ends(n) => Ok(
                (
                    VarInt(
                        to_signed(varnum_value(data.take(n as int)) % radix(4), 4) as i32,
                    ),
                    n,
                ),
            ),
            VarNumScan::TooLong => Err(DecodeFailure::VarNumTooLong(data.take(5))),
            VarNumScan::Eof => Err(DecodeFailure::Eof),
        }
    }

    fn mc_deserialize(orig_data: &[u8]) -> (r: DeserializeResult<'_, VarInt>) {
        proof {
            reveal(<VarInt as Deserialize>::decode);
        }
        let mut data = orig_data;
        let mut v: u32 = 0;
        let mut bit_place: u32 = 0;
        let mut i: usize = 0;
        let mut has_more = true;
        proof {
            lemma_radix_values();
            assert(orig_data@.skip(0) =~= orig_data@);
        }
        while has_more
            invariant
                i <= 5,
                bit_place == 7 * i,
                i <= orig_data@.len(),
                data@ == orig_data@.skip(i as int),
                has_more ==> continues(orig_data@, i as nat),
                !has_more ==> i >= 1 && continues(orig_data@, (i - 1) as nat) && orig_data@[i - 1]
                    < 128,
                v == varnum_value(orig_data@.take(i as int)) % radix(4),
                radix(4) == 0x1_0000_0000,
            decreases 5 + (if has_more { 1int } else { 0int }) - i,
        {
            proof {
                reveal(<VarInt as Deserialize>::decode);
            }
            if i == 5 {
                proof {
                    lemma_varnum_scan(orig_data@, 5, 5);
                }
                return Err(
                    DeserializeErr::VarNumTooLong(slice_to_vec(slice_subrange(orig_data, 0, i))),
                );
            }
            proof {
                lemma_varnum_scan(orig_data@, 5, i as nat);
            }
            let Deserialized { value: byte, data: rest } = ProtoByteOrder::read_ubyte(data)?;
            proof {
                let seen = orig_data@.take(i as int);
                lemma_varnum_value_bound(seen);
                lemma_varnum_value_push(seen, byte);
                assert(orig_data@.take(i + 1) =~= seen.push(byte));
                lemma_group_u32(v, byte, i as nat, varnum_value(seen));
                assert(rest@ =~= orig_data@.skip(i + 1));
            }
            data = rest;
            has_more = byte & 0x80 != 0;
            v |= ((byte as u32) & 0x7F) << bit_place;
            bit_place += 7;
            i += 1;
        }
        proof {
            lemma_varnum_scan(orig_data@, 5, (i - 1) as nat);
            lemma_pattern_i32(0, v);
        }
        Ok(Deserialized { value: VarInt(v as i32), data })
    }
}

impl ProtocolType for VarInt {
    open spec fn faithful(v: VarInt) -> bool {
        true
    }

    open spec fn delimited() -> bool {
        true
    }

    proof fn lemma_round_trip(v: VarInt, rest: Seq<u8>) {
        reveal(<VarInt as Serialize>::encode);
        reveal(<VarInt as Deserialize>::decode);
        let u = to_unsigned(v.0 as int, 4);
        lemma_radix_values();
        lemma_signed_unsigned(v.0 as int, 0, 4);
        lemma_varnum_len_limits(u);
        lemma_varnum_round_trip(u, rest, 5);
        assert((varnum_bytes(u) + rest).take(varnum_bytes(u).len() as int) =~= varnum_bytes(u));
        vstd::arithmetic::div_mod::lemma_small_mod(u, radix(4));
    }
}

impl From<i32> for VarInt {
    fn from(other: i32) -> (r: Self) {
        Self(other)
    }
}

impl vstd::std_specs::convert::FromSpecImpl<i32> for VarInt {
    open spec fn obeys_from_spec() -> bool {
        true
    }

    open spec fn from_spec(v: i32) -> Self {
        VarInt(v)
    }
}

impl From<VarInt> for i32 {
    fn from(other: VarInt) -> (r: Self) {
        other.0
    }
}

impl vstd::std_specs::convert::FromSpecImpl<VarInt> for i32 {
    open spec fn obeys_from_spec() -> bool {
        true
    }

    open spec fn from_spec(v: VarInt) -> Self {
        v.0
    }
}

/// A signed 64-bit integer in variable-length form: the two's complement
/// pattern, seven bits to a byte, low bits first. Negative numbers therefore
/// always take the full 10 bytes.
#[derive(Copy, Clone, PartialOrd, PartialEq, Default, Hash, Ord, Eq, Debug)]
pub struct VarLong(pub i64);

impl View for VarLong {
    type V = VarLong;

    open spec fn view(&self) -> VarLong {
        *self
    }
}

impl DeepView for VarLong {
    type V = VarLong;

    open spec fn deep_view(&self) -> VarLong {
        *self
    }
}

proof fn lemma_split_u64(v: u64, b: u8)
    by (bit_vector)
    ensures
        (v & 0x7F) as u8 == v % 128,
        v >> 7 == v / 128,
        b < 128 ==> b | 0x80 == b + 128,
{
}

proof fn lemma_gather_u64(v: u64, byte: u8, bit_place: u64, weight: u64)
    by (bit_vector)
    requires
        bit_place < 64,
        v >> bit_place == 0,
        weight == (1 as u64) << bit_place,
    ensures
        v | (((byte as u64) & 0x7F) << bit_place) == (v + (byte % 128) * weight) % 0x1_0000_0000_0000_0000,
{
}

proof fn lemma_weight_u64(v: u64, byte: u8, bit_place: u64)
    by (bit_vector)
    requires
        bit_place == 0 || bit_place == 7 || bit_place == 14 || bit_place == 21 || bit_place == 28 || bit_place == 35 || bit_place == 42 || bit_place == 49 || bit_place == 56 || bit_place == 63,
    ensures
        byte & 0x80 != 0 <==> byte >= 128,
        bit_place == 0 ==> ((v >> bit_place == 0) <==> v < 0x1) && (1 as u64) << bit_place
            == 0x1,
        bit_place == 7 ==> ((v >> bit_place == 0) <==> v < 0x80) && (1 as u64) << bit_place
            == 0x80,
        bit_place == 14 ==> ((v >> bit_place == 0) <==> v < 0x4000) && (1 as u64) << bit_place
            == 0x4000,
        bit_place == 21 ==> ((v >> bit_place == 0) <==> v < 0x20_0000) && (1 as u64) << bit_place
            == 0x20_0000,
        bit_place == 28 ==> ((v >> bit_place == 0) <==> v < 0x1000_0000) && (1 as u64) << bit_place
            == 0x1000_0000,
        bit_place == 35 ==> ((v >> bit_place == 0) <==> v < 0x8_0000_0000) && (1 as u64) << bit_place
            == 0x8_0000_0000,
        bit_place == 42 ==> ((v >> bit_place == 0) <==> v < 0x400_0000_0000) && (1 as u64) << bit_place
            == 0x400_0000_0000,
        bit_place == 49 ==> ((v >> bit_place == 0) <==> v < 0x2_0000_0000_0000) && (1 as u64) << bit_place
            == 0x2_0000_0000_0000,
        bit_place == 56 ==> ((v >> bit_place == 0) <==> v < 0x100_0000_0000_0000) && (1 as u64) << bit_place
            == 0x100_0000_0000_0000,
        bit_place == 63 ==> ((v >> bit_place == 0) <==> v < 0x8000_0000_0000_0000) && (1 as u64) << bit_place
            == 0x8000_0000_0000_0000,
{
}

/// One step of gathering: the low seven bits of `byte` go into `v` at the
/// weight of the `i`-th group.
proof fn lemma_group_u64(v: u64, byte: u8, i: nat, seen: nat)
    requires
        i < 10,
        seen < pow128(i),
        v == seen % 0x1_0000_0000_0000_0000,
    ensures
        byte & 0x80 != 0 <==> byte >= 128,
        v | (((byte as u64) & 0x7F) << ((7 * i) as u64)) == (seen + (byte % 128) * pow128(i))
            % 0x1_0000_0000_0000_0000,
{
    lemma_pow128_values();
    let bit_place = (7 * i) as u64;
    lemma_weight_u64(v, byte, bit_place);
    lemma_gather_u64(v, byte, bit_place, (1 as u64) << bit_place);
}

/// What is left of a 64-bit pattern after `written` bytes of its
/// variable-length form stays below this.
pub open spec fn varlong_left(written: nat) -> nat {
    if written == 0 {
        0x1_0000_0000_0000_0000
    } else if written == 1 {
        0x200_0000_0000_0000
    } else if written == 2 {
        0x4_0000_0000_0000
    } else if written == 3 {
        0x800_0000_0000
    } else if written == 4 {
        0x10_0000_0000
    } else if written == 5 {
        0x2000_0000
    } else if written == 6 {
        0x40_0000
    } else if written == 7 {
        0x8000
    } else if written == 8 {
        0x100
    } else if written == 9 {
        0x2
    } else {
        1
    }
}

impl Serialize for VarLong {
    open spec fn serializable(v: VarLong) -> bool {
        true
    }

    #[verifier::opaque]
    open spec fn encode(v: VarLong) -> Seq<u8> {
        varnum_bytes(to_unsigned(v.0 as int, 8))
    }

    fn mc_serialize<S: Serializer>(&self, to: &mut S) -> (r: SerializeResult) {
        proof {
            reveal(<VarLong as Serialize>::encode);
        }
        let mut out = [0u8; 10];
        let mut v: u64 = self.0 as u64;
        let mut byte_idx: usize = 0;
        let mut has_more = true;
        proof {
            lemma_pattern_i64(self.0, 0);
            lemma_radix_values();
        }
        let ghost whole = varnum_bytes(v as nat);
        while has_more
            invariant
                byte_idx <= 10,
                has_more ==> byte_idx < 10 && v < varlong_left(byte_idx as nat)
                    && out@.take(byte_idx as int) + varnum_bytes(v as nat) == whole,
                !has_more ==> out@.take(byte_idx as int) == whole,
            decreases v + if has_more { 1int } else { 0int },
        {
            let ghost before = out@.take(byte_idx as int);
            let ghost v0 = v;
            let mut v_byte = (v & 0x7F) as u8;
            v >>= 7;
            has_more = v != 0;
            proof {
                lemma_split_u64(v0, v_byte);
            }
            if has_more {
                v_byte |= 0x80;
            }
            out[byte_idx] = v_byte;
            byte_idx += 1;
            proof {
                assert(out@.take(byte_idx as int) =~= before.push(v_byte));
                if has_more {
                    assert(before.push(v_byte) + varnum_bytes(v as nat) =~= before + varnum_bytes(
                        v0 as nat,
                    ));
                } else {
                    assert(before.push(v_byte) =~= before + varnum_bytes(v0 as nat));
                }
            }
        }
        to.serialize_bytes(slice_subrange(out.as_slice(), 0, byte_idx))
    }
}

impl Deserialize for VarLong {
    #[verifier::opaque]
    open spec fn decode(data: Seq<u8>) -> Decoded<VarLong> {
        match varnum_scan(data, 10) {
            VarNumScan::Ends(n) => Ok(
                (
                    VarLong(
                        to_signed(varnum_value(data.take(n as int)) % radix(8), 8) as i64,
                    ),
                    n,
                ),
            ),
            VarNumScan::TooLong => Err(DecodeFailure::VarNumTooLong(data.take(10))),
            VarNumScan::Eof => Err(DecodeFailure::Eof),
        }
    }

    fn mc_deserialize(orig_data: &[u8]) -> (r: DeserializeResult<'_, VarLong>) {
        proof {
            reveal(<VarLong as Deserialize>::decode);
        }
        let mut data = orig_data;
        let mut v: u64 = 0;
        let mut bit_place: u64 = 0;
        let mut i: usize = 0;
        let mut has_more = true;
        proof {
            lemma_radix_values();
            assert(orig_data@.skip(0) =~= orig_data@);
        }
        while has_more
            invariant
                i <= 10,
                bit_place == 7 * i,
                i <= orig_data@.len(),
                data@ == orig_data@.skip(i as int),
                has_more ==> continues(orig_data@, i as nat),
                !has_more ==> i >= 1 && continues(orig_data@, (i - 1) as nat) && orig_data@[i - 1]
                    < 128,
                v == varnum_value(orig_data@.take(i as int)) % radix(8),
                radix(8) == 0x1_0000_0000_0000_0000,
            decreases 10 + (if has_more { 1int } else { 0int }) - i,
        {
            proof {
                reveal(<VarLong as Deserialize>::decode);
            }
            if i == 10 {
                proof {
                    lemma_varnum_scan(orig_data@, 10, 10);
                }
                return Err(
                    DeserializeErr::VarNumTooLong(slice_to_vec(slice_subrange(orig_data, 0, i))),
                );
            }
            proof {
                lemma_varnum_scan(orig_data@, 10, i as nat);
            }
            let Deserialized { value: byte, data: rest } = ProtoByteOrder::read_ubyte(data)?;
            proof {
                let seen = orig_data@.take(i as int);
                lemma_varnum_value_bound(seen);
                lemma_varnum_value_push(seen, byte);
                assert(orig_data@.take(i + 1) =~= seen.push(byte));
                lemma_group_u64(v, byte, i as nat, varnum_value(seen));
                assert(rest@ =~= orig_data@.skip(i + 1));
            }
            data = rest;
            has_more = byte & 0x80 != 0;
            v |= ((byte as u64) & 0x7F) << bit_place;
            bit_place += 7;
            i += 1;
        }
        proof {
            lemma_varnum_scan(orig_data@, 10, (i - 1) as nat);
            lemma_pattern_i64(0, v);
        }
        Ok(Deserialized { value: VarLong(v as i64), data })
    }
}

impl ProtocolType for VarLong {
    open spec fn faithful(v: VarLong) -> bool {
        true
    }

    open spec fn delimited() -> bool {
        true
    }

    proof fn lemma_round_trip(v: VarLong, rest: Seq<u8>) {
        reveal(<VarLong as Serialize>::encode);
        reveal(<VarLong as Deserialize>::decode);
        let u = to_unsigned(v.0 as int, 8);
        lemma_radix_values();
        lemma_signed_unsigned(v.0 as int, 0, 8);
        lemma_varnum_len_limits(u);
        lemma_varnum_round_trip(u, rest, 10);
        assert((varnum_bytes(u) + rest).take(varnum_bytes(u).len() as int) =~= varnum_bytes(u));
        vstd::arithmetic::div_mod::lemma_small_mod(u, radix(8));
    }
}

impl From<i64> for VarLong {
    fn from(other: i64) -> (r: Self) {
        Self(other)
    }
}

impl vstd::std_specs::convert::FromSpecImpl<i64> for VarLong {
    open spec fn obeys_from_spec() -> bool {
        true
    }

    open spec fn from_spec(v: i64) -> Self {
        VarLong(v)
    }
}

impl From<VarLong> for i64 {
    fn from(other: VarLong) -> (r: Self) {
        other.0
    }
}

impl vstd::std_specs::convert::FromSpecImpl<VarLong> for i64 {
    open spec fn obeys_from_spec() -> bool {
        true
    }

    open spec fn from_spec(v: VarLong) -> Self {
        v.0
    }
}

/// A variable-length number whose top bit is still set on the last byte of
/// its budget is refused as too long; the error holds the bytes that were
/// read.
pub proof fn lemma_too_long(data: Seq<u8>)
    ensures
        continues(data, 5) ==> VarInt::decode(data) == Err::<(VarInt, nat), _>(
            DecodeFailure::VarNumTooLong(data.take(5)),
        ),
        continues(data, 10) ==> VarLong::decode(data) == Err::<(VarLong, nat), _>(
            DecodeFailure::VarNumTooLong(data.take(10)),
        ),
{
    reveal(<VarInt as Deserialize>::decode);
    reveal(<VarLong as Deserialize>::decode);
    if continues(data, 5) {
        lemma_varnum_scan(data, 5, 5);
    }
    if continues(data, 10) {
        lemma_varnum_scan(data, 10, 10);
    }
}

/// A variable-length number that the input cuts short is refused as
/// unfinished.
pub proof fn lemma_cut_short(data: Seq<u8>)
    ensures
        continues(data, data.len()) && data.len() < 5 ==> VarInt::decode(data) == Err::<
            (VarInt, nat),
            _,
        >(DecodeFailure::Eof),
        continues(data, data.len()) && data.len() < 10 ==> VarLong::decode(data) == Err::<
            (VarLong, nat),
            _,
        >(DecodeFailure::Eof),
{
    reveal(<VarInt as Deserialize>::decode);
    reveal(<VarLong as Deserialize>::decode);
    if continues(data, data.len()) {
        if data.len() < 5 {
            lemma_varnum_scan(data, 5, data.len());
        }
        if data.len() < 10 {
            lemma_varnum_scan(data, 10, data.len());
        }
    }
}

/// The encoded length of a 32-bit pattern never shrinks as the pattern
/// grows, and stays within 5 bytes; that of a 64-bit pattern stays within
/// 10. A negative number has the largest patterns and takes them all.
pub proof fn lemma_encoded_lengths(a: VarInt, b: VarInt, c: VarLong, d: VarLong)
    ensures
        1 <= VarInt::encode(a).len() <= 5,
        1 <= VarLong::encode(c).len() <= 10,
        to_unsigned(a.0 as int, 4) <= to_unsigned(b.0 as int, 4) ==> VarInt::encode(a).len()
            <= VarInt::encode(b).len(),
        to_unsigned(c.0 as int, 8) <= to_unsigned(d.0 as int, 8) ==> VarLong::encode(c).len()
            <= VarLong::encode(d).len(),
        a.0 < 0 ==> VarInt::encode(a).len() == 5,
        c.0 < 0 ==> VarLong::encode(c).len() == 10,
{
    reveal(<VarInt as Serialize>::encode);
    reveal(<VarLong as Serialize>::encode);
    lemma_radix_values();
    lemma_pow128_values();
    let ua = to_unsigned(a.0 as int, 4);
    let ub = to_unsigned(b.0 as int, 4);
    let uc = to_unsigned(c.0 as int, 8);
    let ud = to_unsigned(d.0 as int, 8);
    lemma_varnum_len_limits(ua);
    lemma_varnum_len_limits(uc);
    if ua <= ub {
        lemma_varnum_len_monotone(ua, ub);
    }
    if uc <= ud {
        lemma_varnum_len_monotone(uc, ud);
    }
    if a.0 < 0 {
        lemma_varnum_len_at_least(ua, 4);
    }
    if c.0 < 0 {
        lemma_varnum_len_at_least(uc, 9);
    }
}

/// A number of at least 128 to the power `k` takes more than `k` bytes.
pub proof fn lemma_varnum_len_at_least(v: nat, k: nat)
    requires
        v >= pow128(k),
    ensures
        varnum_bytes(v).len() > k,
    decreases k,
{
    if k > 0 {
        let p = pow128((k - 1) as nat);
        lemma_varnum_value_bound(Seq::new((k - 1) as nat, |i: int| 0u8));
        assert(p >= 1);
        assert(pow128(k) == 128 * p);
        assert(v >= 128);
        assert(v / 128 >= p);
        lemma_varnum_len_at_least(v / 128, (k - 1) as nat);
    }
}

} // verus!
