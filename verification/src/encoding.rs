//! Hexadecimal text: numbers in hexadecimal, hex-encoded bytes, and the
//! 16-digit form in which a nonce is submitted.

use vstd::prelude::*;
use vstd::utf8::{encode_utf8, is_ascii_chars, is_ascii_chars_encode_utf8};

verus! {

/// The value of a hexadecimal digit character.
pub open spec fn hex_digit(c: char) -> Option<int> {
    let u = c as u32;
    if 0x30 <= u <= 0x39 {
        Some(u - 0x30)
    } else if 0x61 <= u <= 0x66 {
        Some(u - 0x61 + 10)
    } else if 0x41 <= u <= 0x46 {
        Some(u - 0x41 + 10)
    } else {
        None
    }
}

/// The value of a string of hexadecimal digits (zero for the empty string),
/// or nothing when a character is not a digit.
pub open spec fn digits_value(s: Seq<char>) -> Option<int>
    decreases s.len(),
{
    if s.len() == 0 {
        Some(0)
    } else {
        match (digits_value(s.drop_last()), hex_digit(s.last())) {
            (Some(v), Some(d)) => Some(16 * v + d),
            _ => None,
        }
    }
}

/// The digits of a hexadecimal number, after an optional `+`.
pub open spec fn hex_body(s: Seq<char>) -> Seq<char> {
    if s.len() > 0 && s[0] == '+' {
        s.drop_first()
    } else {
        s
    }
}

/// Whether `s` is an optional `+` and at least one hexadecimal digit whose
/// value exceeds `u64::MAX`.
pub open spec fn hex_overflows(s: Seq<char>) -> bool {
    hex_body(s).len() > 0 && (digits_value(hex_body(s)) matches Some(v) && v > u64::MAX)
}

/// What `u64::from_str_radix(s, 16)` accepts: an optional `+`, then at least
/// one hexadecimal digit, the whole denoting at most `u64::MAX`.
pub open spec fn hex_u64(s: Seq<char>) -> Option<u64> {
    let body = if s.len() > 0 && s[0] == '+' {
        s.drop_first()
    } else {
        s
    };
    if body.len() == 0 {
        None
    } else {
        match digits_value(body) {
            Some(v) => if v <= u64::MAX {
                Some(v as u64)
            } else {
                None
            },
            None => None,
        }
    }
}

/// Why a hexadecimal number was refused.
#[derive(Clone, Copy, Debug, PartialEq, Eq, Structural)]
pub enum HexNumberError {
    /// A character is not a hexadecimal digit, or there is no digit.
    InvalidDigit,
    /// The number exceeds `u64::MAX`.
    Overflow,
}

proof fn lemma_prefix_invalid(s: Seq<char>, k: int)
    requires
        0 <= k <= s.len(),
        digits_value(s.take(k)) is None,
    ensures
        digits_value(s) is None,
    decreases s.len() - k,
{
    if k < s.len() {
        assert(s.take(k + 1).drop_last() =~= s.take(k));
        lemma_prefix_invalid(s, k + 1);
    } else {
        assert(s.take(k) =~= s);
    }
}

fn digit_value(c: char) -> (r: Option<u64>)
    ensures
        match r {
            Some(d) => hex_digit(c) == Some(d as int) && d < 16,
            None => hex_digit(c) is None,
        },
{
    let u = c as u32;
    if 0x30 <= u && u <= 0x39 {
        Some((u - 0x30) as u64)
    } else if 0x61 <= u && u <= 0x66 {
        Some((u - 0x61 + 10) as u64)
    } else if 0x41 <= u && u <= 0x46 {
        Some((u - 0x41 + 10) as u64)
    } else {
        None
    }
}

/// Parses a hexadecimal number as `u64::from_str_radix(s, 16)` does; a
/// number that is all digits but too large is an overflow, anything else
/// that is refused has an invalid digit.
pub fn parse_hex_u64(s: &str) -> (r: Result<u64, HexNumberError>)
    ensures
        match r {
            Ok(v) => hex_u64(s@) == Some(v),
            Err(e) => hex_u64(s@) is None && (e == HexNumberError::Overflow <==> hex_overflows(
                s@,
            )),
        },
{
    let n = s.unicode_len();
    let mut i = 0usize;
    if n > 0 && s.get_char(0) == '+' {
        i = 1;
    }
    let ghost start = i as int;
    let ghost body = s@.skip(start);
    assert(body =~= if s@.len() > 0 && s@[0] == '+' {
        s@.drop_first()
    } else {
        s@
    });
    if i == n {
        return Err(HexNumberError::InvalidDigit);
    }
    let mut v: u64 = 0;
    let mut overflow = false;
    let ghost mut val: int = 0;
    assert(body.take(0) =~= Seq::<char>::empty());
    while i < n
        invariant
            n == s@.len(),
            start <= i <= n,
            body == s@.skip(start),
            body.len() == n - start,
            body.len() > 0,
            body == if s@.len() > 0 && s@[0] == '+' {
                s@.drop_first()
            } else {
                s@
            },
            digits_value(body.take(i - start)) == Some(val),
            val >= 0,
            !overflow ==> v == val,
            overflow ==> val > u64::MAX,
        decreases n - i,
    {
        let c = s.get_char(i);
        let ghost k = i - start;
        assert(body.take(k + 1).drop_last() =~= body.take(k));
        assert(body[k] == s@[i as int]);
        assert(body.take(k + 1).last() == c);
        match digit_value(c) {
            None => {
                proof {
                    lemma_prefix_invalid(body, k + 1);
                }
                return Err(HexNumberError::InvalidDigit);
            },
            Some(d) => {
                proof {
                    val = 16 * val + d;
                }
                if !overflow {
                    if v <= (u64::MAX - d) / 16 {
                        v = 16 * v + d;
                    } else {
                        overflow = true;
                    }
                }
            },
        }
        i = i + 1;
    }
    assert(body.take(n - start) =~= body);
    if overflow {
        Err(HexNumberError::Overflow)
    } else {
        Ok(v)
    }
}

/// The value of a hexadecimal digit byte.
pub open spec fn hex_byte_digit(b: u8) -> Option<int> {
    hex_digit(b as char)
}

/// The bytes that a hex string of even length denotes, two digits each,
/// high digit first; nothing for an odd length or a non-digit byte.
pub open spec fn hex_bytes(text: Seq<u8>) -> Option<Seq<u8>> {
    if text.len() % 2 == 0 && forall|i: int| 0 <= i < text.len() ==> #[trigger] hex_byte_digit(
        text[i],
    ) is Some {
        Some(
            Seq::new(
                text.len() / 2,
                |i: int|
                    (16 * hex_byte_digit(text[2 * i]).unwrap() + hex_byte_digit(
                        text[2 * i + 1],
                    ).unwrap()) as u8,
            ),
        )
    } else {
        None
    }
}

#[verifier::external_type_specification]
#[verifier::external_body]
pub struct ExFromHexError(hex::FromHexError);

/// `hex::decode`: takes the input two bytes at a time, each pair a high and
/// a low hexadecimal digit of either case; an odd length or a byte that is
/// no digit is an error.  That is what the contract claims; which error
/// comes back is not stated.
#[verifier::external_body]
fn hex_decode(text: &[u8]) -> (r: Result<Vec<u8>, hex::FromHexError>)
    ensures
        match r {
            Ok(v) => hex_bytes(text@) == Some(v@),
            Err(_) => hex_bytes(text@) is None,
        },
{
    hex::decode(text)
}

/// Decodes hexadecimal text into bytes; nothing when it is not hex.
pub fn decode_hex(text: &[u8]) -> (r: Option<Vec<u8>>)
    ensures
        match r {
            Some(v) => hex_bytes(text@) == Some(v@),
            None => hex_bytes(text@) is None,
        },
{
    match hex_decode(text) {
        Ok(v) => Some(v),
        Err(_) => None,
    }
}

/// The lowercase hexadecimal digit of a value below 16.
pub open spec fn lower_hex_char(d: u64) -> char {
    seq!['0', '1', '2', '3', '4', '5', '6', '7', '8', '9', 'a', 'b', 'c', 'd', 'e', 'f'][d as int]
}

/// Lowercase hexadecimal text of bytes, two digits each, high digit first,
/// as `hex::encode` writes it.
pub open spec fn hex_text(bytes: Seq<u8>) -> Seq<char> {
    Seq::new(
        2 * bytes.len(),
        |i: int|
            if i % 2 == 0 {
                lower_hex_char((bytes[i / 2] >> 4u8) as u64)
            } else {
                lower_hex_char((bytes[i / 2] & 0x0fu8) as u64)
            },
    )
}

/// A lowercase digit is ASCII, is not `x`, and reads back as its value.
pub proof fn lemma_lower_hex_char(d: u64)
    requires
        d < 16,
    ensures
        lower_hex_char(d) <= '\u{7f}',
        lower_hex_char(d) != 'x',
        hex_byte_digit(lower_hex_char(d) as u8) == Some(d as int),
        hex_digit(lower_hex_char(d)) == Some(d as int),
{
    if d == 0 { } else if d == 1 { } else if d == 2 { } else if d == 3 { }
    else if d == 4 { } else if d == 5 { } else if d == 6 { } else if d == 7 { }
    else if d == 8 { } else if d == 9 { } else if d == 10 { } else if d == 11 { }
    else if d == 12 { } else if d == 13 { } else if d == 14 { } else { }
}

/// Hexadecimal text decodes back to the bytes it was written from.
pub proof fn law_hex_round_trip(bytes: Seq<u8>)
    ensures
        is_ascii_chars(hex_text(bytes)),
        forall|i: int| 0 <= i < hex_text(bytes).len() ==> #[trigger] hex_text(bytes)[i] != 'x',
        hex_bytes(encode_utf8(hex_text(bytes))) == Some(bytes),
{
    let t = hex_text(bytes);
    assert forall|i: int| 0 <= i < t.len() implies '\0' <= #[trigger] t[i] <= '\u{7f}' && t[i]
        != 'x' && hex_byte_digit(t[i] as u8) == Some(
        if i % 2 == 0 {
            (bytes[i / 2] >> 4u8) as int
        } else {
            (bytes[i / 2] & 0x0fu8) as int
        },
    ) by {
        let b = bytes[i / 2];
        assert(b >> 4u8 < 16 && b & 0x0fu8 < 16) by (bit_vector);
        if i % 2 == 0 {
            lemma_lower_hex_char((b >> 4u8) as u64);
        } else {
            lemma_lower_hex_char((b & 0x0fu8) as u64);
        }
    }
    assert(is_ascii_chars(t));
    is_ascii_chars_encode_utf8(t);
    let e = encode_utf8(t);
    assert forall|i: int| 0 <= i < e.len() implies #[trigger] hex_byte_digit(e[i]) is Some by {
        assert(e[i] == t[i] as u8);
    }
    assert(e.len() % 2 == 0);
    let decoded = hex_bytes(e).unwrap();
    assert forall|j: int| 0 <= j < bytes.len() implies decoded[j] == bytes[j] by {
        let b = bytes[j];
        assert(e[2 * j] == t[2 * j] as u8);
        assert(e[2 * j + 1] == t[2 * j + 1] as u8);
        assert((2 * j) % 2 == 0 && (2 * j) / 2 == j);
        assert((2 * j + 1) % 2 == 1 && (2 * j + 1) / 2 == j);
        assert(((16 * (b >> 4u8) + (b & 0x0fu8)) as u8) == b) by (bit_vector);
    }
    assert(decoded =~= bytes);
}

/// The 16 lowercase hexadecimal digits of a word, most significant first,
/// as `format!("{:016x}", n)` prints them.
pub open spec fn hex16(n: u64) -> Seq<char> {
    Seq::new(16, |i: int| lower_hex_char((n >> ((4 * (15 - i)) as u64)) & 0xf))
}

/// The first `k` digits of `hex16(n)` denote the top `4k` bits of `n`.
proof fn lemma_hex16_prefix(n: u64, k: int)
    requires
        0 <= k <= 16,
    ensures
        digits_value(hex16(n).take(k)) == Some(
            if k == 0 {
                0int
            } else {
                (n >> ((4 * (16 - k)) as u64)) as int
            },
        ),
    decreases k,
{
    if k == 0 {
        assert(hex16(n).take(0) =~= Seq::<char>::empty());
    } else {
        lemma_hex16_prefix(n, k - 1);
        let t = hex16(n).take(k);
        assert(t.drop_last() =~= hex16(n).take(k - 1));
        let s = (4 * (16 - k)) as u64;
        let d = (n >> s) & 0xf;
        assert(d < 16) by (bit_vector)
            requires
                d == (n >> s) & 0xf,
        ;
        assert(t.last() == lower_hex_char(d));
        lemma_lower_hex_char(d);
        if k == 1 {
            assert((n >> 60u64) == (n >> 60u64) & 0xf) by (bit_vector);
        } else {
            let s4 = (s + 4) as u64;
            assert(s4 == (4 * (16 - (k - 1))) as u64);
            assert((n >> s) as int == 16 * ((n >> s4) as int) + ((n >> s) & 0xf) as int)
                by (bit_vector)
                requires
                    s4 == s + 4,
                    s <= 56,
            ;
        }
    }
}

/// The 16 digits in which a nonce is submitted read back as the nonce.
pub proof fn law_hex16_reads_back(n: u64)
    ensures
        hex16(n).len() == 16,
        digits_value(hex16(n)) == Some(n as int),
        hex_u64(hex16(n)) == Some(n),
{
    lemma_hex16_prefix(n, 16);
    assert(hex16(n).take(16) =~= hex16(n));
    assert(n >> 0u64 == n) by (bit_vector);
    assert(((n >> 60u64) & 0xf) < 16) by (bit_vector);
    lemma_lower_hex_char((n >> 60u64) & 0xf);
    assert(hex16(n)[0] != '+') by {
        if hex16(n)[0] == '+' {
            assert(hex_digit(hex16(n)[0]) is None);
        }
    }
}

/// Prints a word as 16 lowercase hexadecimal digits.
pub fn format_hex16(n: u64) -> (s: String)
    ensures
        s@ == hex16(n),
{
    let digits = "0123456789abcdef";
    proof {
        reveal_strlit("0123456789abcdef");
        assert(digits@ =~= seq![
            '0', '1', '2', '3', '4', '5', '6', '7', '8', '9', 'a', 'b', 'c', 'd', 'e', 'f',
        ]);
    }
    let mut s = String::new();
    let mut i = 0usize;
    while i < 16
        invariant
            i <= 16,
            digits@ == seq![
                '0', '1', '2', '3', '4', '5', '6', '7', '8', '9', 'a', 'b', 'c', 'd', 'e', 'f',
            ],
            digits@.len() == 16,
            s@ =~= hex16(n).take(i as int),
        decreases 16 - i,
    {
        let d = (n >> (4 * (15 - i)) as u64) & 0xf;
        assert(d < 16) by (bit_vector)
            requires
                d == (n >> ((4 * (15 - i)) as u64)) & 0xf,
        ;
        let piece = digits.substring_char(d as usize, d as usize + 1);
        assert(digits@[d as int] == lower_hex_char(d));
        s = s.concat(piece);
        assert(hex16(n).take(i + 1) =~= hex16(n).take(i as int).push(lower_hex_char(d)));
        i = i + 1;
    }
    s
}

} // verus!
