use crate::deserialize::{DecodeFailure, DeserializeErr, DeserializeResult, Deserialized};
use crate::utils::take;
use vstd::prelude::*;
use vstd::slice::slice_subrange;

verus! {

/// The number that `bytes` spell in base 256, most significant byte first.
pub open spec fn be_value(bytes: Seq<u8>) -> nat
    decreases bytes.len(),
{
    if bytes.len() == 0 {
        0
    } else {
        be_value(bytes.drop_last()) * 256 + bytes.last() as nat
    }
}

/// The `width` low base-256 digits of `v`, most significant first.
pub open spec fn be_bytes(v: nat, width: nat) -> Seq<u8>
    decreases width,
{
    if width == 0 {
        Seq::empty()
    } else {
        be_bytes(v / 256, (width - 1) as nat).push((v % 256) as u8)
    }
}

/// The number that `bytes` spell in base 256, least significant byte first.
pub open spec fn le_value(bytes: Seq<u8>) -> nat {
    be_value(bytes.reverse())
}

/// The `width` low base-256 digits of `v`, least significant first.
pub open spec fn le_bytes(v: nat, width: nat) -> Seq<u8> {
    be_bytes(v, width).reverse()
}

/// 256 to the power `width`: the number of values that `width` bytes can hold.
pub open spec fn radix(width: nat) -> nat
    decreases width,
{
    if width == 0 {
        1
    } else {
        256 * radix((width - 1) as nat)
    }
}

/// The unsigned number whose two's complement pattern, `width` bytes wide, is
/// that of `v`.
pub open spec fn to_unsigned(v: int, width: nat) -> nat {
    if v < 0 {
        (v + radix(width)) as nat
    } else {
        v as nat
    }
}

/// The signed number whose two's complement pattern, `width` bytes wide, is
/// that of `u`.
pub open spec fn to_signed(u: nat, width: nat) -> int {
    if 2 * u >= radix(width) {
        u - radix(width)
    } else {
        u as int
    }
}

pub proof fn lemma_radix_values()
    ensures
        radix(0) == 1,
        radix(1) == 0x100,
        radix(2) == 0x1_0000,
        radix(4) == 0x1_0000_0000,
        radix(8) == 0x1_0000_0000_0000_0000,
        radix(16) == 0x1_0000_0000_0000_0000_0000_0000_0000_0000,
{
    reveal_with_fuel(radix, 17);
}

/// `width` digits come out, whatever the number.
pub proof fn lemma_be_bytes_len(v: nat, width: nat)
    ensures
        be_bytes(v, width).len() == width,
    decreases width,
{
    if width > 0 {
        lemma_be_bytes_len(v / 256, (width - 1) as nat);
    }
}

/// A byte string spells a number below 256 to the power of its length.
pub proof fn lemma_be_value_bound(bytes: Seq<u8>)
    ensures
        be_value(bytes) < radix(bytes.len()),
    decreases bytes.len(),
{
    if bytes.len() > 0 {
        lemma_be_value_bound(bytes.drop_last());
    }
}

/// Reading back the digits of a number gives the number, as far as the digits
/// reach: the number modulo 256 to the power `width`.
pub proof fn lemma_be_value_of_bytes(v: nat, width: nat)
    ensures
        be_value(be_bytes(v, width)) == v % radix(width),
    decreases width,
{
    if width == 0 {
    } else {
        let w = (width - 1) as nat;
        let front = be_bytes(v / 256, w);
        lemma_be_value_of_bytes(v / 256, w);
        assert(front.push((v % 256) as u8).drop_last() =~= front);
        let r = radix(w);
        lemma_radix_positive(w);
        // (v / 256) % r * 256 + v % 256 == v % (256 * r)
        vstd::arithmetic::div_mod::lemma_fundamental_div_mod(v as int, 256);
        vstd::arithmetic::div_mod::lemma_mod_breakdown(v as int, 256, r as int);
    }
}

pub proof fn lemma_radix_positive(width: nat)
    ensures
        radix(width) > 0,
    decreases width,
{
    if width > 0 {
        lemma_radix_positive((width - 1) as nat);
    }
}

/// Writing out the number that a byte string spells gives the byte string.
pub proof fn lemma_be_bytes_of_value(bytes: Seq<u8>)
    ensures
        be_bytes(be_value(bytes), bytes.len()) == bytes,
    decreases bytes.len(),
{
    if bytes.len() == 0 {
        assert(be_bytes(be_value(bytes), 0) =~= bytes);
    } else {
        let front = bytes.drop_last();
        lemma_be_bytes_of_value(front);
        let v = be_value(bytes);
        assert(v / 256 == be_value(front));
        assert(v % 256 == bytes.last() as nat);
        assert(front.push(bytes.last()) =~= bytes);
    }
}

/// A number and its two's complement pattern determine each other, within the
/// range that `width` bytes hold.
pub proof fn lemma_signed_unsigned(v: int, u: nat, width: nat)
    requires
        width > 0,
    ensures
        -(radix(width) as int) <= 2 * v < radix(width) ==> to_unsigned(v, width) < radix(width)
            && to_signed(to_unsigned(v, width), width) == v,
        u < radix(width) ==> -(radix(width) as int) <= 2 * to_signed(u, width) < radix(width)
            && to_unsigned(to_signed(u, width), width) == u,
{
    lemma_radix_positive((width - 1) as nat);
}

/// The two byte orders are mirror images, so the little-endian laws follow.
pub proof fn lemma_le_value_of_bytes(v: nat, width: nat)
    ensures
        le_value(le_bytes(v, width)) == v % radix(width),
        le_bytes(v, width).len() == width,
{
    lemma_be_value_of_bytes(v, width);
    lemma_be_bytes_len(v, width);
    assert(be_bytes(v, width).reverse().reverse() =~= be_bytes(v, width));
}

pub proof fn lemma_le_bytes_of_value(bytes: Seq<u8>)
    ensures
        le_bytes(le_value(bytes), bytes.len()) == bytes,
{
    lemma_be_bytes_of_value(bytes.reverse());
    assert(bytes.reverse().reverse() =~= bytes);
}

/// `r` is a read of `width` bytes off the front of `data`: it fails with
/// `Eof` exactly when fewer are there, and otherwise leaves all but the first
/// `width` bytes.
pub open spec fn reads_width<'b, R>(r: DeserializeResult<'b, R>, data: Seq<u8>, width: nat) -> bool {
    match r {
        Ok(d) => data.len() >= width && d.data@ == data.skip(width as int),
        Err(e) => data.len() < width && e@ == DecodeFailure::Eof,
    }
}

/// Digit `i` of `be_bytes(v, width)` is the base-256 digit of `v` of weight
/// `width - 1 - i`.
pub proof fn lemma_be_digit(v: nat, width: nat, i: int)
    requires
        0 <= i < width,
    ensures
        be_bytes(v, width).len() == width,
        be_bytes(v, width)[i] == ((v / radix((width - 1 - i) as nat)) % 256) as u8,
    decreases width,
{
    lemma_be_bytes_len(v, width);
    lemma_be_bytes_len(v / 256, (width - 1) as nat);
    let front = be_bytes(v / 256, (width - 1) as nat);
    assert(be_bytes(v, width) == front.push((v % 256) as u8));
    if i < width - 1 {
        let k = (width - 2 - i) as nat;
        lemma_be_digit(v / 256, (width - 1) as nat, i);
        lemma_radix_positive(k);
        vstd::arithmetic::div_mod::lemma_div_denominator(v as int, 256, radix(k) as int);
        assert(radix((width - 1 - i) as nat) == 256 * radix(k));
        assert((v / 256) / radix(k) == v / radix((width - 1 - i) as nat));
        assert(be_bytes(v, width)[i] == front[i]);
        assert(be_bytes(v, width)[i] == ((v / radix((width - 1 - i) as nat)) % 256) as u8);
    } else {
        assert(radix(0) == 1);
        assert((width - 1 - i) as nat == 0);
        assert(be_bytes(v, width)[i] == (v % 256) as u8);
        assert(v / 1 == v);
        assert(be_bytes(v, width)[i] == ((v / radix((width - 1 - i) as nat)) % 256) as u8);
    }
}

/// How `as` carries a bit pattern between `i8` and `u8`.
pub proof fn lemma_pattern_i8(v: i8, u: u8)
    by (bit_vector)
    ensures
        v < 0 ==> (v as u8) == v + 0x100,
        v >= 0 ==> (v as u8) == v,
        u >= 0x80 ==> (u as i8) == u - 0x100,
        u < 0x80 ==> (u as i8) == u,
{
}

/// How `as` carries a bit pattern between `i16` and `u16`.
pub proof fn lemma_pattern_i16(v: i16, u: u16)
    by (bit_vector)
    ensures
        v < 0 ==> (v as u16) == v + 0x1_0000,
        v >= 0 ==> (v as u16) == v,
        u >= 0x8000 ==> (u as i16) == u - 0x1_0000,
        u < 0x8000 ==> (u as i16) == u,
{
}

/// How `as` carries a bit pattern between `i32` and `u32`.
pub proof fn lemma_pattern_i32(v: i32, u: u32)
    by (bit_vector)
    ensures
        v < 0 ==> (v as u32) == v + 0x1_0000_0000,
        v >= 0 ==> (v as u32) == v,
        u >= 0x8000_0000 ==> (u as i32) == u - 0x1_0000_0000,
        u < 0x8000_0000 ==> (u as i32) == u,
{
}

/// How `as` carries a bit pattern between `i64` and `u64`.
pub proof fn lemma_pattern_i64(v: i64, u: u64)
    by (bit_vector)
    ensures
        v < 0 ==> (v as u64) == v + 0x1_0000_0000_0000_0000,
        v >= 0 ==> (v as u64) == v,
        u >= 0x8000_0000_0000_0000 ==> (u as i64) == u - 0x1_0000_0000_0000_0000,
        u < 0x8000_0000_0000_0000 ==> (u as i64) == u,
{
}

/// How `as` carries a bit pattern between `i128` and `u128`.
pub proof fn lemma_pattern_i128(v: i128, u: u128)
    by (bit_vector)
    ensures
        v < 0 ==> (v as u128) == v + 0x1_0000_0000_0000_0000_0000_0000_0000_0000,
        v >= 0 ==> (v as u128) == v,
        u >= 0x8000_0000_0000_0000_0000_0000_0000_0000 ==> (u as i128) == u - 0x1_0000_0000_0000_0000_0000_0000_0000_0000,
        u < 0x8000_0000_0000_0000_0000_0000_0000_0000 ==> (u as i128) == u,
{
}

proof fn lemma_digits_u16(v: u16)
    by (bit_vector)
    ensures
        (v >> 8) as u8 == (v / 0x100) % 256,
        v as u8 == v % 256,
{
}

proof fn lemma_join_u16(b0: u8, b1: u8)
    by (bit_vector)
    ensures
        ((b0 as u16) << 8)
            | (b1 as u16) == (b0 as u16) * 0x100
            + (b1 as u16),
{
}

proof fn lemma_bytes_2(v: nat)
    ensures
        be_bytes(v, 2) == seq![
            ((v / 0x100) % 256) as u8,
            (v % 256) as u8,
        ],
        le_bytes(v, 2) == seq![
            (v % 256) as u8,
            ((v / 0x100) % 256) as u8,
        ],
{
    reveal_with_fuel(radix, 3);
    lemma_be_digit(v, 2, 0);
    lemma_be_digit(v, 2, 1);
    assert(be_bytes(v, 2) =~= seq![
        ((v / 0x100) % 256) as u8,
        (v % 256) as u8,
    ]);
    assert(be_bytes(v, 2).reverse() =~= seq![
        (v % 256) as u8,
        ((v / 0x100) % 256) as u8,
    ]);
}

proof fn lemma_be_value_2(s: Seq<u8>)
    requires
        s.len() == 2,
    ensures
        be_value(s) == s[0] * 0x100
            + s[1],
{
    reveal_with_fuel(be_value, 3);
    let t0 = s.drop_last();
    assert(be_value(t0) == s[0]);
}

proof fn lemma_value_2(s: Seq<u8>)
    requires
        s.len() == 2,
    ensures
        be_value(s) == s[0] * 0x100
            + s[1],
        le_value(s) == s[0]
            + s[1] * 0x100,
{
    lemma_be_value_2(s);
    lemma_be_value_2(s.reverse());
}

proof fn lemma_digits_u32(v: u32)
    by (bit_vector)
    ensures
        (v >> 24) as u8 == (v / 0x100_0000) % 256,
        (v >> 16) as u8 == (v / 0x1_0000) % 256,
        (v >> 8) as u8 == (v / 0x100) % 256,
        v as u8 == v % 256,
{
}

proof fn lemma_join_u32(b0: u8, b1: u8, b2: u8, b3: u8)
    by (bit_vector)
    ensures
        ((b0 as u32) << 24)
            | ((b1 as u32) << 16)
            | ((b2 as u32) << 8)
            | (b3 as u32) == (b0 as u32) * 0x100_0000
            + (b1 as u32) * 0x1_0000
            + (b2 as u32) * 0x100
            + (b3 as u32),
{
}

proof fn lemma_bytes_4(v: nat)
    ensures
        be_bytes(v, 4) == seq![
            ((v / 0x100_0000) % 256) as u8,
            ((v / 0x1_0000) % 256) as u8,
            ((v / 0x100) % 256) as u8,
            (v % 256) as u8,
        ],
        le_bytes(v, 4) == seq![
            (v % 256) as u8,
            ((v / 0x100) % 256) as u8,
            ((v / 0x1_0000) % 256) as u8,
            ((v / 0x100_0000) % 256) as u8,
        ],
{
    reveal_with_fuel(radix, 5);
    lemma_be_digit(v, 4, 0);
    lemma_be_digit(v, 4, 1);
    lemma_be_digit(v, 4, 2);
    lemma_be_digit(v, 4, 3);
    assert(be_bytes(v, 4) =~= seq![
        ((v / 0x100_0000) % 256) as u8,
        ((v / 0x1_0000) % 256) as u8,
        ((v / 0x100) % 256) as u8,
        (v % 256) as u8,
    ]);
    assert(be_bytes(v, 4).reverse() =~= seq![
        (v % 256) as u8,
        ((v / 0x100) % 256) as u8,
        ((v / 0x1_0000) % 256) as u8,
        ((v / 0x100_0000) % 256) as u8,
    ]);
}

proof fn lemma_be_value_4(s: Seq<u8>)
    requires
        s.len() == 4,
    ensures
        be_value(s) == s[0] * 0x100_0000
            + s[1] * 0x1_0000
            + s[2] * 0x100
            + s[3],
{
    reveal_with_fuel(be_value, 5);
    let t0 = s.drop_last();
    let t1 = t0.drop_last();
    let t2 = t1.drop_last();
    assert(be_value(t2) == s[0]);
}

proof fn lemma_value_4(s: Seq<u8>)
    requires
        s.len() == 4,
    ensures
        be_value(s) == s[0] * 0x100_0000
            + s[1] * 0x1_0000
            + s[2] * 0x100
            + s[3],
        le_value(s) == s[0]
            + s[1] * 0x100
            + s[2] * 0x1_0000
            + s[3] * 0x100_0000,
{
    lemma_be_value_4(s);
    lemma_be_value_4(s.reverse());
}

proof fn lemma_digits_u64(v: u64)
    by (bit_vector)
    ensures
        (v >> 56) as u8 == (v / 0x100_0000_0000_0000) % 256,
        (v >> 48) as u8 == (v / 0x1_0000_0000_0000) % 256,
        (v >> 40) as u8 == (v / 0x100_0000_0000) % 256,
        (v >> 32) as u8 == (v / 0x1_0000_0000) % 256,
        (v >> 24) as u8 == (v / 0x100_0000) % 256,
        (v >> 16) as u8 == (v / 0x1_0000) % 256,
        (v >> 8) as u8 == (v / 0x100) % 256,
        v as u8 == v % 256,
{
}

proof fn lemma_join_u64(b0: u8, b1: u8, b2: u8, b3: u8, b4: u8, b5: u8, b6: u8, b7: u8)
    by (bit_vector)
    ensures
        ((b0 as u64) << 56)
            | ((b1 as u64) << 48)
            | ((b2 as u64) << 40)
            | ((b3 as u64) << 32)
            | ((b4 as u64) << 24)
            | ((b5 as u64) << 16)
            | ((b6 as u64) << 8)
            | (b7 as u64) == (b0 as u64) * 0x100_0000_0000_0000
            + (b1 as u64) * 0x1_0000_0000_0000
            + (b2 as u64) * 0x100_0000_0000
            + (b3 as u64) * 0x1_0000_0000
            + (b4 as u64) * 0x100_0000
            + (b5 as u64) * 0x1_0000
            + (b6 as u64) * 0x100
            + (b7 as u64),
{
}

proof fn lemma_bytes_8(v: nat)
    ensures
        be_bytes(v, 8) == seq![
            ((v / 0x100_0000_0000_0000) % 256) as u8,
            ((v / 0x1_0000_0000_0000) % 256) as u8,
            ((v / 0x100_0000_0000) % 256) as u8,
            ((v / 0x1_0000_0000) % 256) as u8,
            ((v / 0x100_0000) % 256) as u8,
            ((v / 0x1_0000) % 256) as u8,
            ((v / 0x100) % 256) as u8,
            (v % 256) as u8,
        ],
        le_bytes(v, 8) == seq![
            (v % 256) as u8,
            ((v / 0x100) % 256) as u8,
            ((v / 0x1_0000) % 256) as u8,
            ((v / 0x100_0000) % 256) as u8,
            ((v / 0x1_0000_0000) % 256) as u8,
            ((v / 0x100_0000_0000) % 256) as u8,
            ((v / 0x1_0000_0000_0000) % 256) as u8,
            ((v / 0x100_0000_0000_0000) % 256) as u8,
        ],
{
    reveal_with_fuel(radix, 9);
    lemma_be_digit(v, 8, 0);
    lemma_be_digit(v, 8, 1);
    lemma_be_digit(v, 8, 2);
    lemma_be_digit(v, 8, 3);
    lemma_be_digit(v, 8, 4);
    lemma_be_digit(v, 8, 5);
    lemma_be_digit(v, 8, 6);
    lemma_be_digit(v, 8, 7);
    assert(be_bytes(v, 8) =~= seq![
        ((v / 0x100_0000_0000_0000) % 256) as u8,
        ((v / 0x1_0000_0000_0000) % 256) as u8,
        ((v / 0x100_0000_0000) % 256) as u8,
        ((v / 0x1_0000_0000) % 256) as u8,
        ((v / 0x100_0000) % 256) as u8,
        ((v / 0x1_0000) % 256) as u8,
        ((v / 0x100) % 256) as u8,
        (v % 256) as u8,
    ]);
    assert(be_bytes(v, 8).reverse() =~= seq![
        (v % 256) as u8,
        ((v / 0x100) % 256) as u8,
        ((v / 0x1_0000) % 256) as u8,
        ((v / 0x100_0000) % 256) as u8,
        ((v / 0x1_0000_0000) % 256) as u8,
        ((v / 0x100_0000_0000) % 256) as u8,
        ((v / 0x1_0000_0000_0000) % 256) as u8,
        ((v / 0x100_0000_0000_0000) % 256) as u8,
    ]);
}

proof fn lemma_be_value_8(s: Seq<u8>)
    requires
        s.len() == 8,
    ensures
        be_value(s) == s[0] * 0x100_0000_0000_0000
            + s[1] * 0x1_0000_0000_0000
            + s[2] * 0x100_0000_0000
            + s[3] * 0x1_0000_0000
            + s[4] * 0x100_0000
            + s[5] * 0x1_0000
            + s[6] * 0x100
            + s[7],
{
    reveal_with_fuel(be_value, 9);
    let t0 = s.drop_last();
    let t1 = t0.drop_last();
    let t2 = t1.drop_last();
    let t3 = t2.drop_last();
    let t4 = t3.drop_last();
    let t5 = t4.drop_last();
    let t6 = t5.drop_last();
    assert(be_value(t6) == s[0]);
}

proof fn lemma_value_8(s: Seq<u8>)
    requires
        s.len() == 8,
    ensures
        be_value(s) == s[0] * 0x100_0000_0000_0000
            + s[1] * 0x1_0000_0000_0000
            + s[2] * 0x100_0000_0000
            + s[3] * 0x1_0000_0000
            + s[4] * 0x100_0000
            + s[5] * 0x1_0000
            + s[6] * 0x100
            + s[7],
        le_value(s) == s[0]
            + s[1] * 0x100
            + s[2] * 0x1_0000
            + s[3] * 0x100_0000
            + s[4] * 0x1_0000_0000
            + s[5] * 0x100_0000_0000
            + s[6] * 0x1_0000_0000_0000
            + s[7] * 0x100_0000_0000_0000,
{
    lemma_be_value_8(s);
    lemma_be_value_8(s.reverse());
}

proof fn lemma_digits_u128(v: u128)
    by (bit_vector)
    ensures
        (v >> 120) as u8 == (v / 0x100_0000_0000_0000_0000_0000_0000_0000) % 256,
        (v >> 112) as u8 == (v / 0x1_0000_0000_0000_0000_0000_0000_0000) % 256,
        (v >> 104) as u8 == (v / 0x100_0000_0000_0000_0000_0000_0000) % 256,
        (v >> 96) as u8 == (v / 0x1_0000_0000_0000_0000_0000_0000) % 256,
        (v >> 88) as u8 == (v / 0x100_0000_0000_0000_0000_0000) % 256,
        (v >> 80) as u8 == (v / 0x1_0000_0000_0000_0000_0000) % 256,
        (v >> 72) as u8 == (v / 0x100_0000_0000_0000_0000) % 256,
        (v >> 64) as u8 == (v / 0x1_0000_0000_0000_0000) % 256,
        (v >> 56) as u8 == (v / 0x100_0000_0000_0000) % 256,
        (v >> 48) as u8 == (v / 0x1_0000_0000_0000) % 256,
        (v >> 40) as u8 == (v / 0x100_0000_0000) % 256,
        (v >> 32) as u8 == (v / 0x1_0000_0000) % 256,
        (v >> 24) as u8 == (v / 0x100_0000) % 256,
        (v >> 16) as u8 == (v / 0x1_0000) % 256,
        (v >> 8) as u8 == (v / 0x100) % 256,
        v as u8 == v % 256,
{
}

proof fn lemma_join_u128(b0: u8, b1: u8, b2: u8, b3: u8, b4: u8, b5: u8, b6: u8, b7: u8, b8: u8, b9: u8, b10: u8, b11: u8, b12: u8, b13: u8, b14: u8, b15: u8)
    by (bit_vector)
    ensures
        ((b0 as u128) << 120)
            | ((b1 as u128) << 112)
            | ((b2 as u128) << 104)
            | ((b3 as u128) << 96)
            | ((b4 as u128) << 88)
            | ((b5 as u128) << 80)
            | ((b6 as u128) << 72)
            | ((b7 as u128) << 64)
            | ((b8 as u128) << 56)
            | ((b9 as u128) << 48)
            | ((b10 as u128) << 40)
            | ((b11 as u128) << 32)
            | ((b12 as u128) << 24)
            | ((b13 as u128) << 16)
            | ((b14 as u128) << 8)
            | (b15 as u128) == (b0 as u128) * 0x100_0000_0000_0000_0000_0000_0000_0000
            + (b1 as u128) * 0x1_0000_0000_0000_0000_0000_0000_0000
            + (b2 as u128) * 0x100_0000_0000_0000_0000_0000_0000
            + (b3 as u128) * 0x1_0000_0000_0000_0000_0000_0000
            + (b4 as u128) * 0x100_0000_0000_0000_0000_0000
            + (b5 as u128) * 0x1_0000_0000_0000_0000_0000
            + (b6 as u128) * 0x100_0000_0000_0000_0000
            + (b7 as u128) * 0x1_0000_0000_0000_0000
            + (b8 as u128) * 0x100_0000_0000_0000
            + (b9 as u128) * 0x1_0000_0000_0000
            + (b10 as u128) * 0x100_0000_0000
            + (b11 as u128) * 0x1_0000_0000
            + (b12 as u128) * 0x100_0000
            + (b13 as u128) * 0x1_0000
            + (b14 as u128) * 0x100
            + (b15 as u128),
{
}

proof fn lemma_bytes_16(v: nat)
    ensures
        be_bytes(v, 16) == seq![
            ((v / 0x100_0000_0000_0000_0000_0000_0000_0000) % 256) as u8,
            ((v / 0x1_0000_0000_0000_0000_0000_0000_0000) % 256) as u8,
            ((v / 0x100_0000_0000_0000_0000_0000_0000) % 256) as u8,
            ((v / 0x1_0000_0000_0000_0000_0000_0000) % 256) as u8,
            ((v / 0x100_0000_0000_0000_0000_0000) % 256) as u8,
            ((v / 0x1_0000_0000_0000_0000_0000) % 256) as u8,
            ((v / 0x100_0000_0000_0000_0000) % 256) as u8,
            ((v / 0x1_0000_0000_0000_0000) % 256) as u8,
            ((v / 0x100_0000_0000_0000) % 256) as u8,
            ((v / 0x1_0000_0000_0000) % 256) as u8,
            ((v / 0x100_0000_0000) % 256) as u8,
            ((v / 0x1_0000_0000) % 256) as u8,
            ((v / 0x100_0000) % 256) as u8,
            ((v / 0x1_0000) % 256) as u8,
            ((v / 0x100) % 256) as u8,
            (v % 256) as u8,
        ],
        le_bytes(v, 16) == seq![
            (v % 256) as u8,
            ((v / 0x100) % 256) as u8,
            ((v / 0x1_0000) % 256) as u8,
            ((v / 0x100_0000) % 256) as u8,
            ((v / 0x1_0000_0000) % 256) as u8,
            ((v / 0x100_0000_0000) % 256) as u8,
            ((v / 0x1_0000_0000_0000) % 256) as u8,
            ((v / 0x100_0000_0000_0000) % 256) as u8,
            ((v / 0x1_0000_0000_0000_0000) % 256) as u8,
            ((v / 0x100_0000_0000_0000_0000) % 256) as u8,
            ((v / 0x1_0000_0000_0000_0000_0000) % 256) as u8,
            ((v / 0x100_0000_0000_0000_0000_0000) % 256) as u8,
            ((v / 0x1_0000_0000_0000_0000_0000_0000) % 256) as u8,
            ((v / 0x100_0000_0000_0000_0000_0000_0000) % 256) as u8,
            ((v / 0x1_0000_0000_0000_0000_0000_0000_0000) % 256) as u8,
            ((v / 0x100_0000_0000_0000_0000_0000_0000_0000) % 256) as u8,
        ],
{
    reveal_with_fuel(radix, 17);
    lemma_be_digit(v, 16, 0);
    lemma_be_digit(v, 16, 1);
    lemma_be_digit(v, 16, 2);
    lemma_be_digit(v, 16, 3);
    lemma_be_digit(v, 16, 4);
    lemma_be_digit(v, 16, 5);
    lemma_be_digit(v, 16, 6);
    lemma_be_digit(v, 16, 7);
    lemma_be_digit(v, 16, 8);
    lemma_be_digit(v, 16, 9);
    lemma_be_digit(v, 16, 10);
    lemma_be_digit(v, 16, 11);
    lemma_be_digit(v, 16, 12);
    lemma_be_digit(v, 16, 13);
    lemma_be_digit(v, 16, 14);
    lemma_be_digit(v, 16, 15);
    assert(be_bytes(v, 16) =~= seq![
        ((v / 0x100_0000_0000_0000_0000_0000_0000_0000) % 256) as u8,
        ((v / 0x1_0000_0000_0000_0000_0000_0000_0000) % 256) as u8,
        ((v / 0x100_0000_0000_0000_0000_0000_0000) % 256) as u8,
        ((v / 0x1_0000_0000_0000_0000_0000_0000) % 256) as u8,
        ((v / 0x100_0000_0000_0000_0000_0000) % 256) as u8,
        ((v / 0x1_0000_0000_0000_0000_0000) % 256) as u8,
        ((v / 0x100_0000_0000_0000_0000) % 256) as u8,
        ((v / 0x1_0000_0000_0000_0000) % 256) as u8,
        ((v / 0x100_0000_0000_0000) % 256) as u8,
        ((v / 0x1_0000_0000_0000) % 256) as u8,
        ((v / 0x100_0000_0000) % 256) as u8,
        ((v / 0x1_0000_0000) % 256) as u8,
        ((v / 0x100_0000) % 256) as u8,
        ((v / 0x1_0000) % 256) as u8,
        ((v / 0x100) % 256) as u8,
        (v % 256) as u8,
    ]);
    assert(be_bytes(v, 16).reverse() =~= seq![
        (v % 256) as u8,
        ((v / 0x100) % 256) as u8,
        ((v / 0x1_0000) % 256) as u8,
        ((v / 0x100_0000) % 256) as u8,
        ((v / 0x1_0000_0000) % 256) as u8,
        ((v / 0x100_0000_0000) % 256) as u8,
        ((v / 0x1_0000_0000_0000) % 256) as u8,
        ((v / 0x100_0000_0000_0000) % 256) as u8,
        ((v / 0x1_0000_0000_0000_0000) % 256) as u8,
        ((v / 0x100_0000_0000_0000_0000) % 256) as u8,
        ((v / 0x1_0000_0000_0000_0000_0000) % 256) as u8,
        ((v / 0x100_0000_0000_0000_0000_0000) % 256) as u8,
        ((v / 0x1_0000_0000_0000_0000_0000_0000) % 256) as u8,
        ((v / 0x100_0000_0000_0000_0000_0000_0000) % 256) as u8,
        ((v / 0x1_0000_0000_0000_0000_0000_0000_0000) % 256) as u8,
        ((v / 0x100_0000_0000_0000_0000_0000_0000_0000) % 256) as u8,
    ]);
}

proof fn lemma_be_value_16(s: Seq<u8>)
    requires
        s.len() == 16,
    ensures
        be_value(s) == s[0] * 0x100_0000_0000_0000_0000_0000_0000_0000
            + s[1] * 0x1_0000_0000_0000_0000_0000_0000_0000
            + s[2] * 0x100_0000_0000_0000_0000_0000_0000
            + s[3] * 0x1_0000_0000_0000_0000_0000_0000
            + s[4] * 0x100_0000_0000_0000_0000_0000
            + s[5] * 0x1_0000_0000_0000_0000_0000
            + s[6] * 0x100_0000_0000_0000_0000
            + s[7] * 0x1_0000_0000_0000_0000
            + s[8] * 0x100_0000_0000_0000
            + s[9] * 0x1_0000_0000_0000
            + s[10] * 0x100_0000_0000
            + s[11] * 0x1_0000_0000
            + s[12] * 0x100_0000
            + s[13] * 0x1_0000
            + s[14] * 0x100
            + s[15],
{
    reveal_with_fuel(be_value, 17);
    let t0 = s.drop_last();
    let t1 = t0.drop_last();
    let t2 = t1.drop_last();
    let t3 = t2.drop_last();
    let t4 = t3.drop_last();
    let t5 = t4.drop_last();
    let t6 = t5.drop_last();
    let t7 = t6.drop_last();
    let t8 = t7.drop_last();
    let t9 = t8.drop_last();
    let t10 = t9.drop_last();
    let t11 = t10.drop_last();
    let t12 = t11.drop_last();
    let t13 = t12.drop_last();
    let t14 = t13.drop_last();
    assert(be_value(t14) == s[0]);
}

proof fn lemma_value_16(s: Seq<u8>)
    requires
        s.len() == 16,
    ensures
        be_value(s) == s[0] * 0x100_0000_0000_0000_0000_0000_0000_0000
            + s[1] * 0x1_0000_0000_0000_0000_0000_0000_0000
            + s[2] * 0x100_0000_0000_0000_0000_0000_0000
            + s[3] * 0x1_0000_0000_0000_0000_0000_0000
            + s[4] * 0x100_0000_0000_0000_0000_0000
            + s[5] * 0x1_0000_0000_0000_0000_0000
            + s[6] * 0x100_0000_0000_0000_0000
            + s[7] * 0x1_0000_0000_0000_0000
            + s[8] * 0x100_0000_0000_0000
            + s[9] * 0x1_0000_0000_0000
            + s[10] * 0x100_0000_0000
            + s[11] * 0x1_0000_0000
            + s[12] * 0x100_0000
            + s[13] * 0x1_0000
            + s[14] * 0x100
            + s[15],
        le_value(s) == s[0]
            + s[1] * 0x100
            + s[2] * 0x1_0000
            + s[3] * 0x100_0000
            + s[4] * 0x1_0000_0000
            + s[5] * 0x100_0000_0000
            + s[6] * 0x1_0000_0000_0000
            + s[7] * 0x100_0000_0000_0000
            + s[8] * 0x1_0000_0000_0000_0000
            + s[9] * 0x100_0000_0000_0000_0000
            + s[10] * 0x1_0000_0000_0000_0000_0000
            + s[11] * 0x100_0000_0000_0000_0000_0000
            + s[12] * 0x1_0000_0000_0000_0000_0000_0000
            + s[13] * 0x100_0000_0000_0000_0000_0000_0000
            + s[14] * 0x1_0000_0000_0000_0000_0000_0000_0000
            + s[15] * 0x100_0000_0000_0000_0000_0000_0000_0000,
{
    lemma_be_value_16(s);
    lemma_be_value_16(s.reverse());
}

/// Fixed-width integers to and from bytes, in one byte order.
///
/// Writing is total. Reading fails with `Eof` when the input is shorter than
/// the width and otherwise consumes exactly the width. Signed numbers travel
/// as their two's complement pattern.
pub trait ByteOrder {
    /// The number that `bytes` hold in this order.
    spec fn value_of(bytes: Seq<u8>) -> nat;

    /// The `width` bytes that hold `v` in this order.
    spec fn bytes_of(v: nat, width: nat) -> Seq<u8>;

    /// Reading what was written gives the number back, as far as `width`
    /// bytes can hold it.
    proof fn lemma_value_of_bytes(v: nat, width: nat)
        ensures
            Self::bytes_of(v, width).len() == width,
            Self::value_of(Self::bytes_of(v, width)) == v % radix(width),
    ;

    /// Writing what was read gives the bytes back.
    proof fn lemma_bytes_of_value(bytes: Seq<u8>)
        ensures
            Self::value_of(bytes) < radix(bytes.len()),
            Self::bytes_of(Self::value_of(bytes), bytes.len()) == bytes,
    ;

    fn write_u2long(v: u128) -> (r: [u8; 16])
        ensures
            r@ == Self::bytes_of(v as nat, 16),
    ;

    fn write_2long(v: i128) -> (r: [u8; 16])
        ensures
            r@ == Self::bytes_of(to_unsigned(v as int, 16), 16),
    {
        proof {
            lemma_pattern_i128(v, 0);
            lemma_radix_values();
        }
        Self::write_u2long(v as u128)
    }

    fn read_u2long(data: &[u8]) -> (r: DeserializeResult<'_, u128>)
        ensures
            reads_width(r, data@, 16),
            r matches Ok(d) ==> d.value == Self::value_of(data@.take(16)),
    ;

    fn read_2long(data: &[u8]) -> (r: DeserializeResult<'_, i128>)
        ensures
            reads_width(r, data@, 16),
            r matches Ok(d) ==> d.value == to_signed(Self::value_of(data@.take(16)), 16),
    {
        let Deserialized { value, data: rest } = Self::read_u2long(data)?;
        proof {
            lemma_pattern_i128(0, value);
            lemma_radix_values();
        }
        Ok(Deserialized { value: value as i128, data: rest })
    }

    fn write_ulong(v: u64) -> (r: [u8; 8])
        ensures
            r@ == Self::bytes_of(v as nat, 8),
    ;

    fn write_long(v: i64) -> (r: [u8; 8])
        ensures
            r@ == Self::bytes_of(to_unsigned(v as int, 8), 8),
    {
        proof {
            lemma_pattern_i64(v, 0);
            lemma_radix_values();
        }
        Self::write_ulong(v as u64)
    }

    fn read_ulong(data: &[u8]) -> (r: DeserializeResult<'_, u64>)
        ensures
            reads_width(r, data@, 8),
            r matches Ok(d) ==> d.value == Self::value_of(data@.take(8)),
    ;

    fn read_long(data: &[u8]) -> (r: DeserializeResult<'_, i64>)
        ensures
            reads_width(r, data@, 8),
            r matches Ok(d) ==> d.value == to_signed(Self::value_of(data@.take(8)), 8),
    {
        let Deserialized { value, data: rest } = Self::read_ulong(data)?;
        proof {
            lemma_pattern_i64(0, value);
            lemma_radix_values();
        }
        Ok(Deserialized { value: value as i64, data: rest })
    }

    fn write_uint(v: u32) -> (r: [u8; 4])
        ensures
            r@ == Self::bytes_of(v as nat, 4),
    ;

    fn write_int(v: i32) -> (r: [u8; 4])
        ensures
            r@ == Self::bytes_of(to_unsigned(v as int, 4), 4),
    {
        proof {
            lemma_pattern_i32(v, 0);
            lemma_radix_values();
        }
        Self::write_uint(v as u32)
    }

    fn read_uint(data: &[u8]) -> (r: DeserializeResult<'_, u32>)
        ensures
            reads_width(r, data@, 4),
            r matches Ok(d) ==> d.value == Self::value_of(data@.take(4)),
    ;

    fn read_int(data: &[u8]) -> (r: DeserializeResult<'_, i32>)
        ensures
            reads_width(r, data@, 4),
            r matches Ok(d) ==> d.value == to_signed(Self::value_of(data@.take(4)), 4),
    {
        let Deserialized { value, data: rest } = Self::read_uint(data)?;
        proof {
            lemma_pattern_i32(0, value);
            lemma_radix_values();
        }
        Ok(Deserialized { value: value as i32, data: rest })
    }

    fn write_ushort(v: u16) -> (r: [u8; 2])
        ensures
            r@ == Self::bytes_of(v as nat, 2),
    ;

    fn write_short(v: i16) -> (r: [u8; 2])
        ensures
            r@ == Self::bytes_of(to_unsigned(v as int, 2), 2),
    {
        proof {
            lemma_pattern_i16(v, 0);
            lemma_radix_values();
        }
        Self::write_ushort(v as u16)
    }

    fn read_ushort(data: &[u8]) -> (r: DeserializeResult<'_, u16>)
        ensures
            reads_width(r, data@, 2),
            r matches Ok(d) ==> d.value == Self::value_of(data@.take(2)),
    ;

    fn read_short(data: &[u8]) -> (r: DeserializeResult<'_, i16>)
        ensures
            reads_width(r, data@, 2),
            r matches Ok(d) ==> d.value == to_signed(Self::value_of(data@.take(2)), 2),
    {
        let Deserialized { value, data: rest } = Self::read_ushort(data)?;
        proof {
            lemma_pattern_i16(0, value);
            lemma_radix_values();
        }
        Ok(Deserialized { value: value as i16, data: rest })
    }

    fn write_ubyte(v: u8) -> (r: [u8; 1])
        ensures
            r@ == seq![v],
    {
        [v]
    }

    fn write_byte(v: i8) -> (r: [u8; 1])
        ensures
            r@ == seq![to_unsigned(v as int, 1) as u8],
    {
        proof {
            lemma_pattern_i8(v, 0);
            lemma_radix_values();
        }
        [v as u8]
    }

    fn read_ubyte(data: &[u8]) -> (r: DeserializeResult<'_, u8>)
        ensures
            reads_width(r, data@, 1),
            r matches Ok(d) ==> d.value == data@[0],
    {
        if data.len() == 0 {
            Err(DeserializeErr::Eof)
        } else {
            Ok(Deserialized { value: data[0], data: slice_subrange(data, 1, data.len()) })
        }
    }

    fn read_byte(data: &[u8]) -> (r: DeserializeResult<'_, i8>)
        ensures
            reads_width(r, data@, 1),
            r matches Ok(d) ==> d.value == to_signed(data@[0] as nat, 1),
    {
        let Deserialized { value, data: rest } = Self::read_ubyte(data)?;
        proof {
            lemma_pattern_i8(0, value);
            lemma_radix_values();
        }
        Ok(Deserialized { value: value as i8, data: rest })
    }
}

/// Most significant byte first: the order of the wire protocol.
pub struct BigEndian;

pub type ProtoByteOrder = BigEndian;

impl ByteOrder for BigEndian {
    open spec fn value_of(bytes: Seq<u8>) -> nat {
        be_value(bytes)
    }

    open spec fn bytes_of(v: nat, width: nat) -> Seq<u8> {
        be_bytes(v, width)
    }

    proof fn lemma_value_of_bytes(v: nat, width: nat) {
        lemma_be_bytes_len(v, width);
        lemma_be_value_of_bytes(v, width);
    }

    proof fn lemma_bytes_of_value(bytes: Seq<u8>) {
        lemma_be_value_bound(bytes);
        lemma_be_bytes_of_value(bytes);
    }

    fn write_u2long(v: u128) -> (r: [u8; 16]) {
        proof {
            lemma_digits_u128(v);
            lemma_bytes_16(v as nat);
        }
        [
            (v >> 120) as u8,
            (v >> 112) as u8,
            (v >> 104) as u8,
            (v >> 96) as u8,
            (v >> 88) as u8,
            (v >> 80) as u8,
            (v >> 72) as u8,
            (v >> 64) as u8,
            (v >> 56) as u8,
            (v >> 48) as u8,
            (v >> 40) as u8,
            (v >> 32) as u8,
            (v >> 24) as u8,
            (v >> 16) as u8,
            (v >> 8) as u8,
            v as u8,
        ]
    }

    fn read_u2long(data: &[u8]) -> (r: DeserializeResult<'_, u128>) {
        let Deserialized { value: bytes, data: rest } = take(16, data)?;
        proof {
            lemma_join_u128(bytes[0], bytes[1], bytes[2], bytes[3], bytes[4], bytes[5], bytes[6], bytes[7], bytes[8], bytes[9], bytes[10], bytes[11], bytes[12], bytes[13], bytes[14], bytes[15]);
            lemma_value_16(bytes@);
        }
        Ok(
            Deserialized {
                value: ((bytes[0] as u128) << 120)
                    | ((bytes[1] as u128) << 112)
                    | ((bytes[2] as u128) << 104)
                    | ((bytes[3] as u128) << 96)
                    | ((bytes[4] as u128) << 88)
                    | ((bytes[5] as u128) << 80)
                    | ((bytes[6] as u128) << 72)
                    | ((bytes[7] as u128) << 64)
                    | ((bytes[8] as u128) << 56)
                    | ((bytes[9] as u128) << 48)
                    | ((bytes[10] as u128) << 40)
                    | ((bytes[11] as u128) << 32)
                    | ((bytes[12] as u128) << 24)
                    | ((bytes[13] as u128) << 16)
                    | ((bytes[14] as u128) << 8)
                    | (bytes[15] as u128),
                data: rest,
            },
        )
    }

    fn write_ulong(v: u64) -> (r: [u8; 8]) {
        proof {
            lemma_digits_u64(v);
            lemma_bytes_8(v as nat);
        }
        [
            (v >> 56) as u8,
            (v >> 48) as u8,
            (v >> 40) as u8,
            (v >> 32) as u8,
            (v >> 24) as u8,
            (v >> 16) as u8,
            (v >> 8) as u8,
            v as u8,
        ]
    }

    fn read_ulong(data: &[u8]) -> (r: DeserializeResult<'_, u64>) {
        let Deserialized { value: bytes, data: rest } = take(8, data)?;
        proof {
            lemma_join_u64(bytes[0], bytes[1], bytes[2], bytes[3], bytes[4], bytes[5], bytes[6], bytes[7]);
            lemma_value_8(bytes@);
        }
        Ok(
            Deserialized {
                value: ((bytes[0] as u64) << 56)
                    | ((bytes[1] as u64) << 48)
                    | ((bytes[2] as u64) << 40)
                    | ((bytes[3] as u64) << 32)
                    | ((bytes[4] as u64) << 24)
                    | ((bytes[5] as u64) << 16)
                    | ((bytes[6] as u64) << 8)
                    | (bytes[7] as u64),
                data: rest,
            },
        )
    }

    fn write_uint(v: u32) -> (r: [u8; 4]) {
        proof {
            lemma_digits_u32(v);
            lemma_bytes_4(v as nat);
        }
        [(v >> 24) as u8, (v >> 16) as u8, (v >> 8) as u8, v as u8]
    }

    fn read_uint(data: &[u8]) -> (r: DeserializeResult<'_, u32>) {
        let Deserialized { value: bytes, data: rest } = take(4, data)?;
        proof {
            lemma_join_u32(bytes[0], bytes[1], bytes[2], bytes[3]);
            lemma_value_4(bytes@);
        }
        Ok(
            Deserialized {
                value: ((bytes[0] as u32) << 24)
                    | ((bytes[1] as u32) << 16)
                    | ((bytes[2] as u32) << 8)
                    | (bytes[3] as u32),
                data: rest,
            },
        )
    }

    fn write_ushort(v: u16) -> (r: [u8; 2]) {
        proof {
            lemma_digits_u16(v);
            lemma_bytes_2(v as nat);
        }
        [(v >> 8) as u8, v as u8]
    }

    fn read_ushort(data: &[u8]) -> (r: DeserializeResult<'_, u16>) {
        let Deserialized { value: bytes, data: rest } = take(2, data)?;
        proof {
            lemma_join_u16(bytes[0], bytes[1]);
            lemma_value_2(bytes@);
        }
        Ok(
            Deserialized {
                value: ((bytes[0] as u16) << 8)
                    | (bytes[1] as u16),
                data: rest,
            },
        )
    }

}

/// Least significant byte first.
pub struct LittleEndian;

impl ByteOrder for LittleEndian {
    open spec fn value_of(bytes: Seq<u8>) -> nat {
        le_value(bytes)
    }

    open spec fn bytes_of(v: nat, width: nat) -> Seq<u8> {
        le_bytes(v, width)
    }

    proof fn lemma_value_of_bytes(v: nat, width: nat) {
        lemma_le_value_of_bytes(v, width);
    }

    proof fn lemma_bytes_of_value(bytes: Seq<u8>) {
        lemma_be_value_bound(bytes.reverse());
        lemma_le_bytes_of_value(bytes);
    }

    fn write_u2long(v: u128) -> (r: [u8; 16]) {
        proof {
            lemma_digits_u128(v);
            lemma_bytes_16(v as nat);
        }
        [
            v as u8,
            (v >> 8) as u8,
            (v >> 16) as u8,
            (v >> 24) as u8,
            (v >> 32) as u8,
            (v >> 40) as u8,
            (v >> 48) as u8,
            (v >> 56) as u8,
            (v >> 64) as u8,
            (v >> 72) as u8,
            (v >> 80) as u8,
            (v >> 88) as u8,
            (v >> 96) as u8,
            (v >> 104) as u8,
            (v >> 112) as u8,
            (v >> 120) as u8,
        ]
    }

    fn read_u2long(data: &[u8]) -> (r: DeserializeResult<'_, u128>) {
        let Deserialized { value: bytes, data: rest } = take(16, data)?;
        proof {
            lemma_join_u128(bytes[15], bytes[14], bytes[13], bytes[12], bytes[11], bytes[10], bytes[9], bytes[8], bytes[7], bytes[6], bytes[5], bytes[4], bytes[3], bytes[2], bytes[1], bytes[0]);
            lemma_value_16(bytes@);
        }
        Ok(
            Deserialized {
                value: ((bytes[15] as u128) << 120)
                    | ((bytes[14] as u128) << 112)
                    | ((bytes[13] as u128) << 104)
                    | ((bytes[12] as u128) << 96)
                    | ((bytes[11] as u128) << 88)
                    | ((bytes[10] as u128) << 80)
                    | ((bytes[9] as u128) << 72)
                    | ((bytes[8] as u128) << 64)
                    | ((bytes[7] as u128) << 56)
                    | ((bytes[6] as u128) << 48)
                    | ((bytes[5] as u128) << 40)
                    | ((bytes[4] as u128) << 32)
                    | ((bytes[3] as u128) << 24)
                    | ((bytes[2] as u128) << 16)
                    | ((bytes[1] as u128) << 8)
                    | (bytes[0] as u128),
                data: rest,
            },
        )
    }

    fn write_ulong(v: u64) -> (r: [u8; 8]) {
        proof {
            lemma_digits_u64(v);
            lemma_bytes_8(v as nat);
        }
        [
            v as u8,
            (v >> 8) as u8,
            (v >> 16) as u8,
            (v >> 24) as u8,
            (v >> 32) as u8,
            (v >> 40) as u8,
            (v >> 48) as u8,
            (v >> 56) as u8,
        ]
    }

    fn read_ulong(data: &[u8]) -> (r: DeserializeResult<'_, u64>) {
        let Deserialized { value: bytes, data: rest } = take(8, data)?;
        proof {
            lemma_join_u64(bytes[7], bytes[6], bytes[5], bytes[4], bytes[3], bytes[2], bytes[1], bytes[0]);
            lemma_value_8(bytes@);
        }
        Ok(
            Deserialized {
                value: ((bytes[7] as u64) << 56)
                    | ((bytes[6] as u64) << 48)
                    | ((bytes[5] as u64) << 40)
                    | ((bytes[4] as u64) << 32)
                    | ((bytes[3] as u64) << 24)
                    | ((bytes[2] as u64) << 16)
                    | ((bytes[1] as u64) << 8)
                    | (bytes[0] as u64),
                data: rest,
            },
        )
    }

    fn write_uint(v: u32) -> (r: [u8; 4]) {
        proof {
            lemma_digits_u32(v);
            lemma_bytes_4(v as nat);
        }
        [v as u8, (v >> 8) as u8, (v >> 16) as u8, (v >> 24) as u8]
    }

    fn read_uint(data: &[u8]) -> (r: DeserializeResult<'_, u32>) {
        let Deserialized { value: bytes, data: rest } = take(4, data)?;
        proof {
            lemma_join_u32(bytes[3], bytes[2], bytes[1], bytes[0]);
            lemma_value_4(bytes@);
        }
        Ok(
            Deserialized {
                value: ((bytes[3] as u32) << 24)
                    | ((bytes[2] as u32) << 16)
                    | ((bytes[1] as u32) << 8)
                    | (bytes[0] as u32),
                data: rest,
            },
        )
    }

    fn write_ushort(v: u16) -> (r: [u8; 2]) {
        proof {
            lemma_digits_u16(v);
            lemma_bytes_2(v as nat);
        }
        [v as u8, (v >> 8) as u8]
    }

    fn read_ushort(data: &[u8]) -> (r: DeserializeResult<'_, u16>) {
        let Deserialized { value: bytes, data: rest } = take(2, data)?;
        proof {
            lemma_join_u16(bytes[1], bytes[0]);
            lemma_value_2(bytes@);
        }
        Ok(
            Deserialized {
                value: ((bytes[1] as u16) << 8)
                    | (bytes[0] as u16),
                data: rest,
            },
        )
    }

}

} // verus!
