//! Digits and radix conversions: hex parsing for difficulty masks, hex
//! formatting for nonces and digests, big-endian extraction of the leading
//! 32 bits of a digest, and decimal digits for duration strings.

use vstd::prelude::*;

verus! {

/// The lowercase hex character for a digit value; values outside 0..16 map
/// to an unrelated placeholder so the function stays total.
pub open spec fn hex_char(v: int) -> char {
    if v == 0 { '0' } else if v == 1 { '1' } else if v == 2 { '2' } else if v == 3 { '3' }
    else if v == 4 { '4' } else if v == 5 { '5' } else if v == 6 { '6' } else if v == 7 { '7' }
    else if v == 8 { '8' } else if v == 9 { '9' } else if v == 10 { 'a' } else if v == 11 { 'b' }
    else if v == 12 { 'c' } else if v == 13 { 'd' } else if v == 14 { 'e' } else if v == 15 { 'f' }
    else { '?' }
}

/// The digit value of a lowercase hex character, or -1 for any other character.
pub open spec fn hex_digit_value(c: char) -> int {
    if c == '0' { 0 } else if c == '1' { 1 } else if c == '2' { 2 } else if c == '3' { 3 }
    else if c == '4' { 4 } else if c == '5' { 5 } else if c == '6' { 6 } else if c == '7' { 7 }
    else if c == '8' { 8 } else if c == '9' { 9 } else if c == 'a' { 10 } else if c == 'b' { 11 }
    else if c == 'c' { 12 } else if c == 'd' { 13 } else if c == 'e' { 14 } else if c == 'f' { 15 }
    else { -1 }
}

pub open spec fn is_hex_digit(c: char) -> bool {
    hex_digit_value(c) >= 0
}

pub open spec fn is_dec_digit(c: char) -> bool {
    0 <= hex_digit_value(c) <= 9
}

/// The value of a sequence of hex digits, most significant first.
pub open spec fn hex_seq_value(s: Seq<char>) -> int
    decreases s.len(),
{
    if s.len() == 0 {
        0
    } else {
        hex_seq_value(s.drop_last()) * 16 + hex_digit_value(s.last())
    }
}

/// The value of a sequence of decimal digits, most significant first.
pub open spec fn dec_seq_value(s: Seq<char>) -> int
    decreases s.len(),
{
    if s.len() == 0 {
        0
    } else {
        dec_seq_value(s.drop_last()) * 10 + hex_digit_value(s.last())
    }
}

pub open spec fn all_hex_digits(s: Seq<char>) -> bool {
    forall|i: int| 0 <= i < s.len() ==> is_hex_digit(#[trigger] s[i])
}

pub open spec fn all_dec_digits(s: Seq<char>) -> bool {
    forall|i: int| 0 <= i < s.len() ==> is_dec_digit(#[trigger] s[i])
}

/// What a difficulty string denotes: a nonempty string of lowercase hex
/// digits whose value fits in 32 bits, read big-endian.
pub open spec fn spec_parse_hex_u32(s: Seq<char>) -> Option<u32> {
    if s.len() > 0 && all_hex_digits(s) && hex_seq_value(s) <= u32::MAX {
        Some(hex_seq_value(s) as u32)
    } else {
        None
    }
}

/// Parse a difficulty mask: a nonempty lowercase hex string, big-endian,
/// `None` when a character is not a lowercase hex digit or the value
/// does not fit in a `u32`.
pub fn parse_difficulty(s: &str) -> (r: Option<u32>)
    ensures
        r == spec_parse_hex_u32(s@),
{
    let n = s.unicode_len();
    if n == 0 {
        return None;
    }
    let mut acc: u64 = 0;
    let mut overflow = false;
    let mut i: usize = 0;
    while i < n
        invariant
            0 < n == s@.len(),
            0 <= i <= n,
            forall|j: int| 0 <= j < i ==> is_hex_digit(#[trigger] s@[j]),
            !overflow ==> acc == hex_seq_value(s@.take(i as int)) && acc <= u32::MAX,
            overflow ==> hex_seq_value(s@.take(i as int)) > u32::MAX,
        decreases n - i,
    {
        let c = s.get_char(i);
        let v = match hex_digit_of(c) {
            Some(v) => v,
            None => {
                return None;
            },
        };
        proof {
            assert(s@.take(i + 1).drop_last() =~= s@.take(i as int));
            assert(s@.take(i + 1).last() == s@[i as int]);
        }
        if overflow {
            proof {
                assert(hex_seq_value(s@.take(i + 1)) > u32::MAX);
            }
        } else {
            acc = acc * 16 + (v as u64);
            if acc > 0xffff_ffff {
                overflow = true;
            }
        }
        i += 1;
    }
    proof {
        assert(s@.take(n as int) =~= s@);
    }
    if overflow {
        None
    } else {
        Some(acc as u32)
    }
}

/// The one-character string for a digit value, lowercase hex.
fn digit_str(v: u8) -> (r: &'static str)
    requires
        v < 16,
    ensures
        r@ =~= seq![hex_char(v as int)],
{
    proof {
        reveal_strlit("0"); reveal_strlit("1"); reveal_strlit("2"); reveal_strlit("3");
        reveal_strlit("4"); reveal_strlit("5"); reveal_strlit("6"); reveal_strlit("7");
        reveal_strlit("8"); reveal_strlit("9"); reveal_strlit("a"); reveal_strlit("b");
        reveal_strlit("c"); reveal_strlit("d"); reveal_strlit("e"); reveal_strlit("f");
    }
    match v {
        0 => "0", 1 => "1", 2 => "2", 3 => "3",
        4 => "4", 5 => "5", 6 => "6", 7 => "7",
        8 => "8", 9 => "9", 10 => "a", 11 => "b",
        12 => "c", 13 => "d", 14 => "e", _ => "f",
    }
}

/// A nonce as it enters the preimage: the 64-bit value written as exactly
/// 16 lowercase hex characters, zero-padded, most significant nibble first.
pub open spec fn spec_nonce_hex(n: u64) -> Seq<char> {
    Seq::new(16, |i: int| hex_char(((n >> (((15 - i) * 4) as u64)) & 0xf) as int))
}

/// Format a drawn nonce for the preimage: 16 lowercase hex characters,
/// zero-padded.
pub fn nonce_hex(n: u64) -> (r: String)
    ensures
        r@ == spec_nonce_hex(n),
        r@.len() == 16,
{
    let mut out = String::new();
    let mut i: usize = 0;
    while i < 16
        invariant
            0 <= i <= 16,
            out@ =~= spec_nonce_hex(n).take(i as int),
        decreases 16 - i,
    {
        let shift: u64 = ((15 - i) * 4) as u64;
        let nib: u64 = (n >> shift) & 0xf;
        assert((n >> shift) & 0xf < 16) by (bit_vector);
        out.append(digit_str(nib as u8));
        proof {
            assert(out@ =~= spec_nonce_hex(n).take(i + 1));
        }
        i += 1;
    }
    proof {
        assert(spec_nonce_hex(n).take(16) =~= spec_nonce_hex(n));
    }
    out
}

/// The big-endian 32-bit value held by the first four bytes of a digest.
pub open spec fn be_u32_of(b: Seq<u8>) -> int
    recommends
        b.len() >= 4,
{
    b[0] * 0x100_0000 + b[1] * 0x1_0000 + b[2] * 0x100 + b[3]
}

/// Read the leading four digest bytes as a big-endian `u32`.
pub fn be_u32(b: &Vec<u8>) -> (r: u32)
    requires
        b@.len() >= 4,
    ensures
        r == be_u32_of(b@),
{
    (b[0] as u32) * 0x100_0000 + (b[1] as u32) * 0x1_0000 + (b[2] as u32) * 0x100 + (b[3] as u32)
}

/// The lowercase hex encoding of a byte sequence: two digits per byte,
/// high nibble first.
pub open spec fn hex_encoding(b: Seq<u8>) -> Seq<char> {
    Seq::new(
        b.len() * 2,
        |i: int| if i % 2 == 0 { hex_char((b[i / 2] >> 4) as int) } else { hex_char((b[i / 2] & 0xf) as int) },
    )
}

/// Relies on hex::encode: each byte becomes two lowercase hex digits, high
/// nibble first, in input order.
#[verifier::external_body]
pub(crate) fn to_hex(b: &Vec<u8>) -> (r: String)
    ensures
        r@ == hex_encoding(b@),
{
    hex::encode(b)
}

/// A nonnegative value written in decimal, no leading zeros (a lone zero
/// for 0).
pub open spec fn spec_dec(n: int) -> Seq<char>
    recommends
        n >= 0,
    decreases n,
{
    if n < 10 {
        seq![hex_char(n)]
    } else {
        spec_dec(n / 10) + seq![hex_char(n % 10)]
    }
}

/// Write a value in decimal.
pub fn u64_to_dec(n: u64) -> (r: String)
    ensures
        r@ == spec_dec(n as int),
    decreases n,
{
    if n < 10 {
        let s = digit_str(n as u8);
        let mut out = String::new();
        out.append(s);
        proof {
            assert(out@ =~= spec_dec(n as int));
        }
        out
    } else {
        let mut out = u64_to_dec(n / 10);
        out.append(digit_str((n % 10) as u8));
        proof {
            assert(out@ =~= spec_dec(n as int));
        }
        out
    }
}

/// A value written in decimal with a leading minus sign when negative.
pub open spec fn spec_dec_signed(n: int) -> Seq<char> {
    if n < 0 {
        seq!['-'] + spec_dec(-n)
    } else {
        spec_dec(n)
    }
}

/// Write a signed value in decimal.
pub fn i64_to_dec(n: i64) -> (r: String)
    ensures
        r@ == spec_dec_signed(n as int),
{
    if n >= 0 {
        u64_to_dec(n as u64)
    } else {
        let mag: u64 = ((-(n + 1)) as u64) + 1;
        let mut out = String::new();
        out.append("-");
        let d = u64_to_dec(mag);
        out.append(d.as_str());
        proof {
            reveal_strlit("-");
            assert(out@ =~= spec_dec_signed(n as int));
        }
        out
    }
}

/// The lowercase hex digit value of a character, executable form.
fn hex_digit_of(c: char) -> (r: Option<u8>)
    ensures
        r is Some <==> is_hex_digit(c),
        r is Some ==> r->0 == hex_digit_value(c),
{
    match c {
        '0' => Some(0), '1' => Some(1), '2' => Some(2), '3' => Some(3),
        '4' => Some(4), '5' => Some(5), '6' => Some(6), '7' => Some(7),
        '8' => Some(8), '9' => Some(9), 'a' => Some(10), 'b' => Some(11),
        'c' => Some(12), 'd' => Some(13), 'e' => Some(14), 'f' => Some(15),
        _ => None,
    }
}

/// The decimal digit value of a character, executable form.
pub fn dec_digit_of(c: char) -> (r: Option<u8>)
    ensures
        r is Some <==> is_dec_digit(c),
        r is Some ==> r->0 == hex_digit_value(c),
{
    match c {
        '0' => Some(0), '1' => Some(1), '2' => Some(2), '3' => Some(3),
        '4' => Some(4), '5' => Some(5), '6' => Some(6), '7' => Some(7),
        '8' => Some(8), '9' => Some(9),
        _ => None,
    }
}

} // verus!
