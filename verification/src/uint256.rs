//! 256-bit unsigned integers stored as four little-endian 64-bit words.

use vstd::prelude::*;
use vstd::std_specs::cmp::PartialEqSpecImpl;

verus! {

/// 2^64, 2^128 and 2^192 as plain integers.
pub open spec fn pow64() -> int { 0x1_0000_0000_0000_0000int }
pub open spec fn pow128() -> int { 0x1_0000_0000_0000_0000_0000_0000_0000_0000int }
pub open spec fn pow192() -> int { 0x1_0000_0000_0000_0000_0000_0000_0000_0000_0000_0000_0000_0000int }

/// A 256-bit unsigned integer; word 0 is the least significant.
#[derive(Clone, Copy, Debug)]
pub struct Uint256(pub [u64; 4]);

/// Byte `b` of a word, counting from the least significant byte.
pub open spec fn word_byte(w: u64, b: int) -> u8 {
    ((w >> ((8 * b) as u64)) & 0xff) as u8
}

/// The eight bytes of a word, most significant first.
pub open spec fn word_be_bytes(w: u64) -> Seq<u8> {
    Seq::new(8, |j: int| word_byte(w, 7 - j))
}

/// The 32 bytes of a number, most significant first.
pub open spec fn be_bytes(a: Uint256) -> Seq<u8> {
    Seq::new(32, |i: int| word_byte(a.0[3 - i / 8], 7 - i % 8))
}

/// The bytes of a number are the bytes of its words, from word 3 down.
pub proof fn lemma_be_bytes_words(a: Uint256)
    ensures
        be_bytes(a) == word_be_bytes(a.0[3]) + word_be_bytes(a.0[2]) + word_be_bytes(a.0[1])
            + word_be_bytes(a.0[0]),
{
    assert(be_bytes(a) =~= word_be_bytes(a.0[3]) + word_be_bytes(a.0[2]) + word_be_bytes(a.0[1])
        + word_be_bytes(a.0[0]));
}

/// The number that eight bytes denote, most significant first.
pub open spec fn be_word_value(bytes: Seq<u8>, k: int) -> int {
    bytes[8 * k] * 0x100_0000_0000_0000 + bytes[8 * k + 1] * 0x1_0000_0000_0000 + bytes[8 * k + 2]
        * 0x100_0000_0000 + bytes[8 * k + 3] * 0x1_0000_0000 + bytes[8 * k + 4] * 0x100_0000
        + bytes[8 * k + 5] * 0x1_0000 + bytes[8 * k + 6] * 0x100 + bytes[8 * k + 7]
}

/// The number that 32 bytes denote, most significant first.
pub open spec fn be_value(bytes: Seq<u8>) -> int {
    be_word_value(bytes, 3) + be_word_value(bytes, 2) * pow64() + be_word_value(bytes, 1)
        * pow128() + be_word_value(bytes, 0) * pow192()
}

impl Uint256 {
    /// The number this value denotes.
    pub open spec fn value(self) -> int {
        self.0[0] + self.0[1] * pow64() + self.0[2] * pow128() + self.0[3] * pow192()
    }

    /// The zero value.
    pub fn zero() -> (r: Self)
        ensures
            r.value() == 0,
            r.0@ == seq![0u64, 0u64, 0u64, 0u64],
    {
        Uint256([0u64; 4])
    }

    /// Whether every word is zero.
    pub fn is_zero(self) -> (r: bool)
        ensures
            r <==> self.value() == 0,
            r <==> (forall|i: int| 0 <= i < 4 ==> self.0[i] == 0),
    {
        self.0[0] == 0 && self.0[1] == 0 && self.0[2] == 0 && self.0[3] == 0
    }

    /// The 32 bytes of the number, most significant first.
    pub fn to_be_bytes(self) -> (out: [u8; 32])
        ensures
            forall|i: int| 0 <= i < 32 ==> out[i] == word_byte(self.0[3 - i / 8], 7 - i % 8),
            out@ == be_bytes(self),
            be_value(out@) == self.value(),
    {
        let mut out = [0u8; 32];
        for i in 0..32usize
            invariant
                forall|k: int| 0 <= k < i ==> out[k] == word_byte(self.0[3 - k / 8], 7 - k % 8),
        {
            let word = self.0[3 - i / 8];
            let shift = (8 * (7 - i % 8)) as u64;
            out[i] = #[verifier::truncate] (((word >> shift) & 0xff) as u8);
        }
        proof {
            lemma_word_from_be_bytes(self.0[0]);
            lemma_word_from_be_bytes(self.0[1]);
            lemma_word_from_be_bytes(self.0[2]);
            lemma_word_from_be_bytes(self.0[3]);
            assert(be_word_value(out@, 0) == self.0[3]);
            assert(be_word_value(out@, 1) == self.0[2]);
            assert(be_word_value(out@, 2) == self.0[1]);
            assert(be_word_value(out@, 3) == self.0[0]);
            assert(out@ =~= be_bytes(self));
        }
        out
    }
}

/// A word is the sum of its bytes, each at its place.
pub proof fn lemma_word_from_be_bytes(w: u64)
    ensures
        w == word_byte(w, 7) * 0x100_0000_0000_0000 + word_byte(w, 6) * 0x1_0000_0000_0000
            + word_byte(w, 5) * 0x100_0000_0000 + word_byte(w, 4) * 0x1_0000_0000 + word_byte(w, 3)
            * 0x100_0000 + word_byte(w, 2) * 0x1_0000 + word_byte(w, 1) * 0x100 + word_byte(w, 0),
{
    assert(w == ((w >> 56u64) & 0xff) * 0x100_0000_0000_0000 + ((w >> 48u64) & 0xff)
        * 0x1_0000_0000_0000 + ((w >> 40u64) & 0xff) * 0x100_0000_0000 + ((w >> 32u64) & 0xff)
        * 0x1_0000_0000 + ((w >> 24u64) & 0xff) * 0x100_0000 + ((w >> 16u64) & 0xff) * 0x1_0000
        + ((w >> 8u64) & 0xff) * 0x100 + ((w >> 0u64) & 0xff)) by (bit_vector);
    assert(((w >> 56u64) & 0xff) as u8 == (w >> 56u64) & 0xff) by (bit_vector);
    assert(((w >> 48u64) & 0xff) as u8 == (w >> 48u64) & 0xff) by (bit_vector);
    assert(((w >> 40u64) & 0xff) as u8 == (w >> 40u64) & 0xff) by (bit_vector);
    assert(((w >> 32u64) & 0xff) as u8 == (w >> 32u64) & 0xff) by (bit_vector);
    assert(((w >> 24u64) & 0xff) as u8 == (w >> 24u64) & 0xff) by (bit_vector);
    assert(((w >> 16u64) & 0xff) as u8 == (w >> 16u64) & 0xff) by (bit_vector);
    assert(((w >> 8u64) & 0xff) as u8 == (w >> 8u64) & 0xff) by (bit_vector);
    assert(((w >> 0u64) & 0xff) as u8 == (w >> 0u64) & 0xff) by (bit_vector);
}

impl PartialEq for Uint256 {
    fn eq(&self, other: &Self) -> (r: bool) {
        self.0[0] == other.0[0] && self.0[1] == other.0[1] && self.0[2] == other.0[2]
            && self.0[3] == other.0[3]
    }
}

impl PartialEqSpecImpl for Uint256 {
    open spec fn obeys_eq_spec() -> bool {
        true
    }

    open spec fn eq_spec(&self, other: &Self) -> bool {
        self.0[0] == other.0[0] && self.0[1] == other.0[1] && self.0[2] == other.0[2]
            && self.0[3] == other.0[3]
    }
}

impl Eq for Uint256 {
}

impl Default for Uint256 {
    fn default() -> (r: Self)
        ensures
            r.value() == 0,
            r.0@ == seq![0u64, 0u64, 0u64, 0u64],
    {
        Uint256::zero()
    }
}

} // verus!
