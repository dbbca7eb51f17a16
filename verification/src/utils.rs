use crate::deserialize::{DeserializeErr, DeserializeResult, Deserialized};
use vstd::prelude::*;
use vstd::string::{StringExecFns, StringSliceAdditionalSpecFns};
use vstd::utf8::{decode_utf8, valid_utf8};

verus! {

/// `String::from_utf8`: bytes that are well-formed UTF-8 become the text they
/// spell; any other bytes are refused.
#[verifier::external_body]
pub(crate) fn string_from_utf8(bytes: Vec<u8>) -> (r: Result<String, std::string::FromUtf8Error>)
    ensures
        match r {
            Ok(text) => valid_utf8(bytes@) && text@ == decode_utf8(bytes@),
            Err(_) => !valid_utf8(bytes@),
        },
{
    String::from_utf8(bytes)
}

/// Splits the first `amount` bytes off `data`, or reports that there are fewer.
pub fn take(amount: usize, data: &[u8]) -> (r: DeserializeResult<'_, &[u8]>)
    ensures
        data@.len() < amount ==> (r matches Err(DeserializeErr::Eof)),
        data@.len() >= amount ==> (r matches Ok(d) && d.value@ == data@.take(amount as int)
            && d.data@ == data@.skip(amount as int)),
{
    if data.len() < amount {
        Err(DeserializeErr::Eof)
    } else {
        let (front, back) = data.split_at(amount);
        Ok(Deserialized { value: front, data: back })
    }
}

/// `String::push`: the character goes on at the end.
pub assume_specification[ std::string::String::push ](s: &mut std::string::String, ch: char)
    ensures
        final(s)@ == old(s)@.push(ch),
;

/// The lower-case hexadecimal digit for a value below 16.
pub open spec fn hex_digit(half: u8) -> char {
    if half < 10 {
        (half + 48) as char
    } else {
        (half + 87) as char
    }
}

/// The two hexadecimal digits of each byte, high digit first.
pub open spec fn hex_text(data: Seq<u8>) -> Seq<char>
    decreases data.len(),
{
    if data.len() == 0 {
        Seq::empty()
    } else {
        hex_text(data.drop_last()).push(hex_digit(data.last() / 16)).push(
            hex_digit(data.last() % 16),
        )
    }
}

/// The value of a hexadecimal digit given as an ASCII code, in either case;
/// nothing for any other byte.
pub open spec fn hex_value(code: u8) -> Option<u8> {
    if 48 <= code <= 57 {
        Some((code - 48) as u8)
    } else if 97 <= code <= 102 {
        Some((code - 87) as u8)
    } else if 65 <= code <= 70 {
        Some((code - 55) as u8)
    } else {
        None
    }
}

proof fn lemma_nibbles(byte: u8)
    by (bit_vector)
    ensures
        byte >> 4 == byte / 16,
        byte & 0xF == byte % 16,
{
}

/// Writes bytes as lower-case hexadecimal text, two digits to a byte.
pub fn hex(data: &[u8]) -> (r: String)
    ensures
        r@ == hex_text(data@),
{
    let mut str = String::new();
    let mut i: usize = 0;
    while i < data.len()
        invariant
            i <= data@.len(),
            str@ == hex_text(data@.take(i as int)),
        decreases data@.len() - i,
    {
        let byte = data[i];
        proof {
            lemma_nibbles(byte);
            assert(data@.take(i + 1).drop_last() =~= data@.take(i as int));
        }
        str.push(hex_char_for(byte >> 4));
        str.push(hex_char_for(byte & 0xF));
        i += 1;
    }
    proof {
        assert(data@.take(i as int) =~= data@);
    }
    str
}

const ZERO_ASCII_CODE: u8 = 48;

const LOWER_A_ASCII_CODE: u8 = 97;

fn hex_char_for(half: u8) -> (c: char)
    requires
        half <= 0xF,
    ensures
        c == hex_digit(half),
{
    if half < 10 {
        (half + ZERO_ASCII_CODE) as char
    } else {
        (half + (LOWER_A_ASCII_CODE - 10)) as char
    }
}

/// Reads one hexadecimal digit, in either case, given as an ASCII code.
pub fn parse_hex_char(data: u8) -> (r: Option<u8>)
    ensures
        r == hex_value(data),
{
    let upper_a_ascii_code: u8 = 65;
    let lower_f_ascii_code: u8 = 102;
    let upper_f_ascii_code: u8 = 70;
    let nine_ascii_code: u8 = 57;

    if data >= LOWER_A_ASCII_CODE {
        if data > lower_f_ascii_code {
            None
        } else {
            Some(10 + (data - LOWER_A_ASCII_CODE))
        }
    } else if data >= upper_a_ascii_code {
        if data > upper_f_ascii_code {
            None
        } else {
            Some(10 + (data - upper_a_ascii_code))
        }
    } else if data >= ZERO_ASCII_CODE {
        if data > nine_ascii_code {
            None
        } else {
            Some(data - ZERO_ASCII_CODE)
        }
    } else {
        None
    }
}

/// The digits of `n` in base ten, without leading zeros.
pub open spec fn decimal_text(n: nat) -> Seq<char>
    decreases n,
{
    if n < 10 {
        seq![((n + 48) as u8) as char]
    } else {
        decimal_text(n / 10).push((((n % 10) + 48) as u8) as char)
    }
}

/// Writes a number in base ten.
pub fn decimal(v: u64) -> (r: String)
    ensures
        r@ == decimal_text(v as nat),
    decreases v,
{
    if v < 10 {
        let mut out = String::new();
        out.push((v as u8 + ZERO_ASCII_CODE) as char);
        proof {
            assert(out@ =~= seq![((v + 48) as u8) as char]);
        }
        out
    } else {
        let mut out = decimal(v / 10);
        out.push(((v % 10) as u8 + ZERO_ASCII_CODE) as char);
        out
    }
}

/// The digits of `n` in base ten, behind a minus sign where `n` is below
/// zero.
pub open spec fn signed_decimal_text(n: int) -> Seq<char> {
    if n < 0 {
        seq!['-'] + decimal_text((-n) as nat)
    } else {
        decimal_text(n as nat)
    }
}

/// Writes a number in base ten, with a minus sign where it is below zero.
pub fn signed_decimal(v: i64) -> (r: String)
    ensures
        r@ == signed_decimal_text(v as int),
{
    if v < 0 {
        let magnitude: u64 = if v == i64::MIN {
            0x8000_0000_0000_0000
        } else {
            (-v) as u64
        };
        let mut out = String::new();
        out.push('-');
        out.append(decimal(magnitude).as_str());
        proof {
            assert(out@ =~= seq!['-'] + decimal_text((-v) as nat));
        }
        out
    } else {
        decimal(v as u64)
    }
}

/// Whether two texts are the same.
pub fn same_text(a: &str, b: &str) -> (r: bool)
    ensures
        r == (a@ == b@),
{
    let x = a.as_bytes();
    let y = b.as_bytes();
    proof {
        vstd::utf8::encode_utf8_decode_utf8(a@);
        vstd::utf8::encode_utf8_decode_utf8(b@);
    }
    if x.len() != y.len() {
        return false;
    }
    let mut i: usize = 0;
    while i < x.len()
        invariant
            i <= x@.len(),
            x@.len() == y@.len(),
            x@ == a.spec_bytes(),
            y@ == b.spec_bytes(),
            forall|j: int| 0 <= j < i ==> x@[j] == y@[j],
        decreases x@.len() - i,
    {
        if x[i] != y[i] {
            return false;
        }
        i += 1;
    }
    proof {
        assert(x@ =~= y@);
    }
    true
}

} // verus!
