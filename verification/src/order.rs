//! The order of 256-bit integers: by the most significant word first, which
//! is the order of the numbers they denote.

use core::cmp::Ordering;
use vstd::prelude::*;
use vstd::std_specs::cmp::PartialOrdSpecImpl;

use crate::uint256::{
    be_bytes, lemma_be_bytes_words, lemma_word_from_be_bytes, word_be_bytes, word_byte, Uint256,
};

verus! {

/// Compares two words.
pub open spec fn compare_word(a: u64, b: u64) -> Ordering {
    if a < b {
        Ordering::Less
    } else if a > b {
        Ordering::Greater
    } else {
        Ordering::Equal
    }
}

/// Compares two 256-bit integers word by word, from word 3 down to word 0.
pub open spec fn compare_words(a: Uint256, b: Uint256) -> Ordering {
    if a.0[3] != b.0[3] {
        compare_word(a.0[3], b.0[3])
    } else if a.0[2] != b.0[2] {
        compare_word(a.0[2], b.0[2])
    } else if a.0[1] != b.0[1] {
        compare_word(a.0[1], b.0[1])
    } else {
        compare_word(a.0[0], b.0[0])
    }
}

/// Compares two numbers.
pub open spec fn compare_int(a: int, b: int) -> Ordering {
    if a < b {
        Ordering::Less
    } else if a > b {
        Ordering::Greater
    } else {
        Ordering::Equal
    }
}

impl Uint256 {
    /// Three-way comparison, most significant word first.
    pub fn cmp(&self, other: &Self) -> (r: Ordering)
        ensures
            r == compare_words(*self, *other),
            r == compare_int(self.value(), other.value()),
    {
        proof {
            law_order_is_numeric(*self, *other);
        }
        let mut i = 4usize;
        while i > 0
            invariant
                i <= 4,
                forall|k: int| i <= k < 4 ==> self.0[k] == other.0[k],
            decreases i,
        {
            i = i - 1;
            if self.0[i] < other.0[i] {
                return Ordering::Less;
            } else if self.0[i] > other.0[i] {
                return Ordering::Greater;
            }
        }
        Ordering::Equal
    }
}

impl PartialOrd for Uint256 {
    fn partial_cmp(&self, other: &Self) -> (r: Option<Ordering>) {
        Some(self.cmp(other))
    }
}

impl PartialOrdSpecImpl for Uint256 {
    open spec fn obeys_partial_cmp_spec() -> bool {
        true
    }

    open spec fn partial_cmp_spec(&self, other: &Self) -> Option<Ordering> {
        Some(compare_words(*self, *other))
    }
}

/// Comparing the words from the most significant one down compares the
/// numbers: the order of `Uint256` is the order of the values it denotes,
/// and only equal words denote equal values.
pub proof fn law_order_is_numeric(a: Uint256, b: Uint256)
    ensures
        compare_words(a, b) == compare_int(a.value(), b.value()),
        a.value() == b.value() <==> a.0@ == b.0@,
{
    if a.value() == b.value() {
        assert(a.0@ =~= b.0@);
    }
}

/// Compares two byte strings of the same length lexicographically, as the
/// order of byte arrays does.
pub open spec fn compare_bytes(x: Seq<u8>, y: Seq<u8>) -> Ordering
    decreases x.len(),
{
    if x.len() == 0 {
        Ordering::Equal
    } else if x[0] < y[0] {
        Ordering::Less
    } else if x[0] > y[0] {
        Ordering::Greater
    } else {
        compare_bytes(x.drop_first(), y.drop_first())
    }
}

proof fn lemma_compare_bytes_concat(x1: Seq<u8>, x2: Seq<u8>, y1: Seq<u8>, y2: Seq<u8>)
    requires
        x1.len() == y1.len(),
        x2.len() == y2.len(),
    ensures
        compare_bytes(x1 + x2, y1 + y2) == if compare_bytes(x1, y1) != Ordering::Equal {
            compare_bytes(x1, y1)
        } else {
            compare_bytes(x2, y2)
        },
    decreases x1.len(),
{
    if x1.len() == 0 {
        assert(x1 + x2 =~= x2);
        assert(y1 + y2 =~= y2);
    } else {
        assert((x1 + x2).drop_first() =~= x1.drop_first() + x2);
        assert((y1 + y2).drop_first() =~= y1.drop_first() + y2);
        lemma_compare_bytes_concat(x1.drop_first(), x2, y1.drop_first(), y2);
    }
}

proof fn lemma_compare_bytes_equal(x: Seq<u8>, y: Seq<u8>)
    requires
        x.len() == y.len(),
    ensures
        compare_bytes(x, y) == Ordering::Equal <==> x == y,
    decreases x.len(),
{
    if x.len() > 0 {
        lemma_compare_bytes_equal(x.drop_first(), y.drop_first());
        if x[0] == y[0] && x.drop_first() == y.drop_first() {
            assert(x =~= y.drop_first().insert(0, y[0]));
            assert(y =~= y.drop_first().insert(0, y[0]));
        }
    } else {
        assert(x =~= y);
    }
}

proof fn lemma_compare_word_bytes(v: u64, w: u64)
    ensures
        compare_bytes(word_be_bytes(v), word_be_bytes(w)) == compare_word(v, w),
{
    reveal_with_fuel(compare_bytes, 9);
    lemma_word_from_be_bytes(v);
    lemma_word_from_be_bytes(w);
    let x = word_be_bytes(v);
    let y = word_be_bytes(w);
    let x1 = x.drop_first();
    let x2 = x1.drop_first();
    let x3 = x2.drop_first();
    let x4 = x3.drop_first();
    let x5 = x4.drop_first();
    let x6 = x5.drop_first();
    let x7 = x6.drop_first();
    let x8 = x7.drop_first();
    let y1 = y.drop_first();
    let y2 = y1.drop_first();
    let y3 = y2.drop_first();
    let y4 = y3.drop_first();
    let y5 = y4.drop_first();
    let y6 = y5.drop_first();
    let y7 = y6.drop_first();
    let y8 = y7.drop_first();
    assert(x8.len() == 0);
    assert(compare_bytes(x8, y8) == Ordering::Equal);
    assert(x7[0] == word_byte(v, 0) && y7[0] == word_byte(w, 0));
    assert(x6[0] == word_byte(v, 1) && y6[0] == word_byte(w, 1));
    assert(x5[0] == word_byte(v, 2) && y5[0] == word_byte(w, 2));
    assert(x4[0] == word_byte(v, 3) && y4[0] == word_byte(w, 3));
    assert(x3[0] == word_byte(v, 4) && y3[0] == word_byte(w, 4));
    assert(x2[0] == word_byte(v, 5) && y2[0] == word_byte(w, 5));
    assert(x1[0] == word_byte(v, 6) && y1[0] == word_byte(w, 6));
    assert(x[0] == word_byte(v, 7) && y[0] == word_byte(w, 7));
}

/// The big-endian bytes of 256-bit numbers order them as the numbers are
/// ordered, lexicographically, and equal bytes belong to equal numbers.
pub proof fn law_be_bytes_order(a: Uint256, b: Uint256)
    ensures
        compare_bytes(be_bytes(a), be_bytes(b)) == compare_words(a, b),
        compare_bytes(be_bytes(a), be_bytes(b)) == compare_int(a.value(), b.value()),
        be_bytes(a) == be_bytes(b) <==> a.0@ == b.0@,
{
    lemma_be_bytes_words(a);
    lemma_be_bytes_words(b);
    lemma_compare_word_bytes(a.0[3], b.0[3]);
    lemma_compare_word_bytes(a.0[2], b.0[2]);
    lemma_compare_word_bytes(a.0[1], b.0[1]);
    lemma_compare_word_bytes(a.0[0], b.0[0]);
    let (a3, a2, a1, a0) = (
        word_be_bytes(a.0[3]),
        word_be_bytes(a.0[2]),
        word_be_bytes(a.0[1]),
        word_be_bytes(a.0[0]),
    );
    let (b3, b2, b1, b0) = (
        word_be_bytes(b.0[3]),
        word_be_bytes(b.0[2]),
        word_be_bytes(b.0[1]),
        word_be_bytes(b.0[0]),
    );
    lemma_compare_bytes_concat(a3, a2 + a1 + a0, b3, b2 + b1 + b0);
    lemma_compare_bytes_concat(a2, a1 + a0, b2, b1 + b0);
    lemma_compare_bytes_concat(a1, a0, b1, b0);
    assert(a3 + a2 + a1 + a0 =~= a3 + (a2 + (a1 + a0)));
    assert(b3 + b2 + b1 + b0 =~= b3 + (b2 + (b1 + b0)));
    assert(a2 + a1 + a0 =~= a2 + (a1 + a0));
    assert(b2 + b1 + b0 =~= b2 + (b1 + b0));
    law_order_is_numeric(a, b);
    lemma_compare_bytes_equal(be_bytes(a), be_bytes(b));
}

} // verus!
