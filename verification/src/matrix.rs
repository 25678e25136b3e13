//! The pseudo-random stream that seeds the HeavyHash matrix, and the
//! candidate matrices drawn from it.
//!
//! A job's matrix is the first candidate, drawn in turn from the stream that
//! the pre-PoW hash seeds, whose rank is 64.

use vstd::prelude::*;

use crate::keccak::rotl;

verus! {

/// The output of xoshiro256++ in state `s`.
pub open spec fn xoshiro_output(s: Seq<u64>) -> u64 {
    s[0].wrapping_add(rotl(s[0].wrapping_add(s[3]), 23))
}

/// The state of xoshiro256++ after one step from state `s`.
pub open spec fn xoshiro_step(s: Seq<u64>) -> Seq<u64> {
    let t = s[1] << 17u64;
    let s2 = s[2] ^ s[0];
    let s3 = s[3] ^ s[1];
    let s1 = s[1] ^ s2;
    let s0 = s[0] ^ s3;
    seq![s0, s1, s2 ^ t, rotl(s3, 45)]
}

/// The state after `k` steps from `seed`.
pub open spec fn xoshiro_state(seed: Seq<u64>, k: nat) -> Seq<u64>
    decreases k,
{
    if k == 0 {
        seed
    } else {
        xoshiro_step(xoshiro_state(seed, (k - 1) as nat))
    }
}

/// The `k`-th output (counting from 0) of the stream seeded with `seed`.
pub open spec fn xoshiro_value(seed: Seq<u64>, k: nat) -> u64 {
    xoshiro_output(xoshiro_state(seed, k))
}

/// Entry `i` (row `i / 64`, column `i % 64`) of the candidate matrix drawn
/// from the stream: each output supplies sixteen 4-bit entries of a row,
/// least significant nibble first.
pub open spec fn candidate_entry(seed: Seq<u64>, i: int) -> u8 {
    let r = i / 64;
    let c = i % 64;
    ((xoshiro_value(seed, (4 * r + c / 16) as nat) >> ((4 * (c % 16)) as u64)) & 0x0f) as u8
}

/// The candidate matrix drawn from the stream seeded with `seed`.
pub open spec fn matrix_candidate_spec(seed: Seq<u64>) -> Seq<u8> {
    Seq::new(4096, |i: int| candidate_entry(seed, i))
}

/// xoshiro256++ as published (Blackman and Vigna): with state
/// `(s0, s1, s2, s3)` the output is `rotl(s0 + s3, 23) + s0` (modulo 2^64),
/// and the next state is `(s0 ^ s1 ^ s3, s0 ^ s1 ^ s2, s0 ^ s2 ^ (s1 << 17),
/// rotl(s1 ^ s3, 45))`.
pub proof fn law_xoshiro256plusplus(s: Seq<u64>)
    requires
        s.len() == 4,
    ensures
        xoshiro_output(s) as int == ((s[0] as int + (((((s[0] as int + s[3] as int)
            % 0x1_0000_0000_0000_0000) as u64) << 23u64) | ((((s[0] as int + s[3] as int)
            % 0x1_0000_0000_0000_0000) as u64) >> 41u64)) as int) % 0x1_0000_0000_0000_0000),
        xoshiro_step(s).len() == 4,
        xoshiro_step(s)[0] == s[0] ^ s[1] ^ s[3],
        xoshiro_step(s)[1] == s[0] ^ s[1] ^ s[2],
        xoshiro_step(s)[2] == s[0] ^ s[2] ^ (s[1] << 17u64),
        xoshiro_step(s)[3] == ((s[1] ^ s[3]) << 45u64) | ((s[1] ^ s[3]) >> 19u64),
{
    let (a, b, c, d) = (s[0], s[1], s[2], s[3]);
    assert((a ^ (d ^ b)) == a ^ b ^ d && (b ^ (c ^ a)) == a ^ b ^ c && ((c ^ a) ^ (b << 17u64))
        == a ^ c ^ (b << 17u64) && (d ^ b) == (b ^ d)) by (bit_vector);
}

/// The xoshiro256++ generator.
#[derive(Clone, Copy, Debug)]
pub struct Xoshiro256PlusPlus(pub [u64; 4]);

impl Xoshiro256PlusPlus {
    /// Returns the next output and advances the state.
    pub fn next(&mut self) -> (r: u64)
        ensures
            r == xoshiro_output(old(self).0@),
            final(self).0@ == xoshiro_step(old(self).0@),
    {
        let s0 = self.0[0];
        let s3 = self.0[3];
        let sum = s0.wrapping_add(s3);
        let rot = (sum << 23u32) | (sum >> 41u32);
        let result = s0.wrapping_add(rot);
        let t = self.0[1] << 17;
        self.0[2] = self.0[2] ^ self.0[0];
        self.0[3] = self.0[3] ^ self.0[1];
        self.0[1] = self.0[1] ^ self.0[2];
        self.0[0] = self.0[0] ^ self.0[3];
        self.0[2] = self.0[2] ^ t;
        self.0[3] = (self.0[3] << 45u32) | (self.0[3] >> 19u32);
        assert(self.0@ =~= xoshiro_step(old(self).0@));
        result
    }
}

/// Draws the next candidate matrix (row-major, 64 by 64, entries below 16)
/// from the generator, which advances by 256 outputs.
pub fn matrix_candidate(rng: &mut Xoshiro256PlusPlus) -> (m: [u8; 4096])
    ensures
        m@ == matrix_candidate_spec(old(rng).0@),
        forall|i: int| 0 <= i < 4096 ==> m[i] < 16,
        final(rng).0@ == xoshiro_state(old(rng).0@, 256),
{
    let ghost seed = rng.0@;
    let mut mat = [0u8; 4096];
    for r in 0..64usize
        invariant
            rng.0@ == xoshiro_state(seed, (4 * r) as nat),
            forall|k: int| 0 <= k < 64 * r ==> mat[k] == candidate_entry(seed, k),
            forall|k: int| 0 <= k < 64 * r ==> mat[k] < 16,
    {
        let mut val = 0u64;
        for c in 0..64usize
            invariant
                r < 64,
                rng.0@ == xoshiro_state(seed, (4 * r + (c + 15) / 16) as nat),
                c % 16 != 0 ==> val == xoshiro_value(seed, (4 * r + c / 16) as nat),
                forall|k: int| 0 <= k < 64 * r + c ==> mat[k] == candidate_entry(seed, k),
                forall|k: int| 0 <= k < 64 * r + c ==> mat[k] < 16,
        {
            let shift = c % 16;
            if shift == 0 {
                val = rng.next();
            }
            mat[r * 64 + c] = #[verifier::truncate] (((val >> (4 * shift) as u64) & 0x0f) as u8);
            assert(mat[r * 64 + c] == candidate_entry(seed, (r * 64 + c) as int));
            assert(((val >> (4 * shift) as u64) & 0x0f) < 16) by (bit_vector);
        }
    }
    assert(mat@ =~= matrix_candidate_spec(seed));
    mat
}

} // verus!
