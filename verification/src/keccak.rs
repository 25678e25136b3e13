//! The Keccak-f[1600] permutation.
//!
//! The state is 25 lanes of 64 bits; lane `x + 5 * y` holds the lane at
//! column `x` and row `y`.  The specification below follows the step
//! mappings theta, rho, pi, chi and iota as FIPS 202 defines them; the
//! executable code is the compact formulation that merges rho and pi into a
//! single walk over the lanes.

use vstd::prelude::*;

verus! {

/// The round constants of iota, one per round.
pub const KECCAK_RNDC: [u64; 24] = [
    0x0000000000000001, 0x0000000000008082, 0x800000000000808a, 0x8000000080008000,
    0x000000000000808b, 0x0000000080000001, 0x8000000080008081, 0x8000000000008009,
    0x000000000000008a, 0x0000000000000088, 0x0000000080008009, 0x000000008000000a,
    0x000000008000808b, 0x800000000000008b, 0x8000000000008089, 0x8000000000008003,
    0x8000000000008002, 0x8000000000000080, 0x000000000000800a, 0x800000008000000a,
    0x8000000080008081, 0x8000000000008080, 0x0000000080000001, 0x8000000080008008,
];

/// Rotation amounts in the order in which the rho/pi walk visits the lanes.
const KECCAK_ROTC: [u32; 24] = [
    1, 3, 6, 10, 15, 21, 28, 36, 45, 55, 2, 14, 27, 41, 56, 8, 25, 43, 62, 18, 39, 61, 20, 44,
];

/// The lanes that the rho/pi walk writes, in order.
const KECCAK_PILN: [usize; 24] = [
    10, 7, 11, 17, 18, 3, 5, 16, 8, 21, 24, 4, 15, 23, 19, 13, 12, 2, 20, 14, 22, 9, 6, 1,
];

/// Left rotation of a 64-bit word by `n` bits.
pub open spec fn rotl(x: u64, n: u32) -> u64
    recommends
        n < 64,
{
    if n == 0 {
        x
    } else {
        (x << n) | (x >> ((64 - n) as u32))
    }
}

/// The rho offset of lane `x + 5 * y` (FIPS 202, table 2).
pub open spec fn rho_offset(lane: int) -> u32 {
    seq![
        0u32, 1, 62, 28, 27, 36, 44, 6, 55, 20, 3, 10, 43, 25, 39, 41, 45, 15, 21, 8, 18, 2, 61,
        56, 14,
    ][lane]
}

/// Parity of column `x`.
pub open spec fn column(a: Seq<u64>, x: int) -> u64 {
    a[x] ^ a[x + 5] ^ a[x + 10] ^ a[x + 15] ^ a[x + 20]
}

/// What theta adds to every lane of column `x`.
pub open spec fn theta_effect(a: Seq<u64>, x: int) -> u64 {
    column(a, (x + 4) % 5) ^ rotl(column(a, (x + 1) % 5), 1)
}

/// The step mapping theta.
pub open spec fn theta(a: Seq<u64>) -> Seq<u64> {
    Seq::new(25, |i: int| a[i] ^ theta_effect(a, i % 5))
}

/// The lane that pi moves to lane `x + 5 * y`: lane `(x + 3y) mod 5 + 5x`.
pub open spec fn pi_source(lane: int) -> int {
    (lane % 5 + 3 * (lane / 5)) % 5 + 5 * (lane % 5)
}

/// The step mappings rho and pi, in that order.
pub open spec fn rho_pi(a: Seq<u64>) -> Seq<u64> {
    Seq::new(25, |i: int| rotl(a[pi_source(i)], rho_offset(pi_source(i))))
}

/// The step mapping chi.
pub open spec fn chi(a: Seq<u64>) -> Seq<u64> {
    Seq::new(
        25,
        |i: int|
            a[i] ^ (!a[i - i % 5 + (i % 5 + 1) % 5] & a[i - i % 5 + (i % 5 + 2) % 5]),
    )
}

/// The step mapping iota of round `r`.
pub open spec fn iota(a: Seq<u64>, r: int) -> Seq<u64> {
    a.update(0, a[0] ^ KECCAK_RNDC[r])
}

/// Round `r` of Keccak-f[1600].
pub open spec fn keccak_round(a: Seq<u64>, r: int) -> Seq<u64> {
    iota(chi(rho_pi(theta(a))), r)
}

/// The first `n` rounds of Keccak-f[1600].
pub open spec fn keccak_rounds(a: Seq<u64>, n: nat) -> Seq<u64>
    decreases n,
{
    if n == 0 {
        a
    } else {
        keccak_round(keccak_rounds(a, (n - 1) as nat), n - 1)
    }
}

/// Keccak-f[1600]: all 24 rounds.
pub open spec fn keccak_p(a: Seq<u64>) -> Seq<u64> {
    keccak_rounds(a, 24)
}

/// Lanes mixed with equal amounts are equal only if the amounts are.
proof fn lemma_column_xor(
    a0: u64, a1: u64, a2: u64, a3: u64, a4: u64,
    b0: u64, b1: u64, b2: u64, b3: u64, b4: u64,
    ea: u64, eb: u64,
)
    requires
        a0 ^ ea == b0 ^ eb,
        a1 ^ ea == b1 ^ eb,
        a2 ^ ea == b2 ^ eb,
        a3 ^ ea == b3 ^ eb,
        a4 ^ ea == b4 ^ eb,
    ensures
        (a0 ^ a1 ^ a2 ^ a3 ^ a4) ^ (b0 ^ b1 ^ b2 ^ b3 ^ b4) == ea ^ eb,
{
    assert((a0 ^ a1 ^ a2 ^ a3 ^ a4) ^ (b0 ^ b1 ^ b2 ^ b3 ^ b4) == ea ^ eb) by (bit_vector)
        requires
            a0 ^ ea == b0 ^ eb,
            a1 ^ ea == b1 ^ eb,
            a2 ^ ea == b2 ^ eb,
            a3 ^ ea == b3 ^ eb,
            a4 ^ ea == b4 ^ eb,
    ;
}

/// Rotation by one distributes over exclusive or.
proof fn lemma_effect_xor(p: u64, q: u64, r: u64, s: u64)
    ensures
        (p ^ rotl(q, 1)) ^ (r ^ rotl(s, 1)) == (p ^ r) ^ rotl(q ^ s, 1),
{
    assert((p ^ ((q << 1u32) | (q >> 63u32))) ^ (r ^ ((s << 1u32) | (s >> 63u32))) == (p ^ r) ^ (((
    q ^ s) << 1u32) | ((q ^ s) >> 63u32))) by (bit_vector);
}

/// The column parities that theta could cancel are all zero.
proof fn lemma_theta_kernel(d0: u64, d1: u64, d2: u64, d3: u64, d4: u64)
    requires
        d0 == d4 ^ rotl(d1, 1),
        d1 == d0 ^ rotl(d2, 1),
        d2 == d1 ^ rotl(d3, 1),
        d3 == d2 ^ rotl(d4, 1),
        d4 == d3 ^ rotl(d0, 1),
    ensures
        d0 == 0 && d1 == 0 && d2 == 0 && d3 == 0 && d4 == 0,
{
    assert(d0 == 0 && d1 == 0 && d2 == 0 && d3 == 0 && d4 == 0) by (bit_vector)
        requires
            d0 == d4 ^ ((d1 << 1u32) | (d1 >> 63u32)),
            d1 == d0 ^ ((d2 << 1u32) | (d2 >> 63u32)),
            d2 == d1 ^ ((d3 << 1u32) | (d3 >> 63u32)),
            d3 == d2 ^ ((d4 << 1u32) | (d4 >> 63u32)),
            d4 == d3 ^ ((d0 << 1u32) | (d0 >> 63u32)),
    ;
}

/// How far the column parities of two states differ.
spec fn column_diff(a: Seq<u64>, b: Seq<u64>, x: int) -> u64 {
    column(a, x) ^ column(b, x)
}

proof fn lemma_theta_lane(a: Seq<u64>, b: Seq<u64>, l: int)
    requires
        a.len() == 25,
        b.len() == 25,
        theta(a) == theta(b),
        0 <= l < 25,
    ensures
        a[l] ^ theta_effect(a, l % 5) == b[l] ^ theta_effect(b, l % 5),
{
    assert(theta(a)[l] == a[l] ^ theta_effect(a, l % 5));
    assert(theta(b)[l] == b[l] ^ theta_effect(b, l % 5));
    assert(theta(a)[l] == theta(b)[l]);
}

proof fn lemma_theta_column(a: Seq<u64>, b: Seq<u64>, x: int)
    requires
        a.len() == 25,
        b.len() == 25,
        theta(a) == theta(b),
        0 <= x < 5,
    ensures
        column_diff(a, b, x) == theta_effect(a, x) ^ theta_effect(b, x),
        column_diff(a, b, x) == column_diff(a, b, (x + 4) % 5) ^ rotl(
            column_diff(a, b, (x + 1) % 5),
            1,
        ),
{
    assert(x % 5 == x && (x + 5) % 5 == x && (x + 10) % 5 == x && (x + 15) % 5 == x && (x + 20)
        % 5 == x);
    let ea = theta_effect(a, x);
    let eb = theta_effect(b, x);
    lemma_theta_lane(a, b, x);
    lemma_theta_lane(a, b, x + 5);
    lemma_theta_lane(a, b, x + 10);
    lemma_theta_lane(a, b, x + 15);
    lemma_theta_lane(a, b, x + 20);
    lemma_column_xor(
        a[x], a[x + 5], a[x + 10], a[x + 15], a[x + 20],
        b[x], b[x + 5], b[x + 10], b[x + 15], b[x + 20],
        theta_effect(a, x), theta_effect(b, x),
    );
    lemma_effect_xor(
        column(a, (x + 4) % 5),
        column(a, (x + 1) % 5),
        column(b, (x + 4) % 5),
        column(b, (x + 1) % 5),
    );
}

proof fn lemma_theta_injective(a: Seq<u64>, b: Seq<u64>)
    requires
        a.len() == 25,
        b.len() == 25,
        theta(a) == theta(b),
    ensures
        a == b,
{
    lemma_theta_column(a, b, 0);
    lemma_theta_column(a, b, 1);
    lemma_theta_column(a, b, 2);
    lemma_theta_column(a, b, 3);
    lemma_theta_column(a, b, 4);
    lemma_theta_kernel(
        column_diff(a, b, 0),
        column_diff(a, b, 1),
        column_diff(a, b, 2),
        column_diff(a, b, 3),
        column_diff(a, b, 4),
    );
    assert forall|l: int| 0 <= l < 25 implies a[l] == b[l] by {
        let x = l % 5;
        lemma_theta_column(a, b, x);
        let ea = theta_effect(a, x);
        let eb = theta_effect(b, x);
        assert(ea ^ eb == 0);
        assert(theta(a)[l] == a[l] ^ theta_effect(a, l % 5));
        assert(theta(b)[l] == b[l] ^ theta_effect(b, l % 5));
        assert(theta(a)[l] == theta(b)[l]);
        let (al, bl) = (a[l], b[l]);
        assert(al == bl) by (bit_vector)
            requires
                al ^ ea == bl ^ eb,
                ea ^ eb == 0,
        ;
    }
    assert(a =~= b);
}

/// Rotation loses no bit.
proof fn lemma_rotl_injective(x: u64, y: u64, n: u32)
    requires
        n < 64,
        rotl(x, n) == rotl(y, n),
    ensures
        x == y,
{
    if n > 0 {
        assert(((x << n) | (x >> ((64 - n) as u32))) == ((y << n) | (y >> ((64 - n) as u32)))
            ==> x == y) by (bit_vector)
            requires
                0 < n < 64,
        ;
    }
}

/// The lane to which pi moves lane `x + 5 * y`: lane `y + 5 * ((2x + 3y) mod 5)`.
spec fn pi_dest(lane: int) -> int {
    lane / 5 + 5 * ((2 * (lane % 5) + 3 * (lane / 5)) % 5)
}

proof fn lemma_pi_dest(l: int)
    requires
        0 <= l < 25,
    ensures
        0 <= pi_dest(l) < 25,
        pi_source(pi_dest(l)) == l,
{
    let x = l % 5;
    let y = l / 5;
    assert(l == x + 5 * y);
    let d = pi_dest(l);
    let yy = (2 * x + 3 * y) % 5;
    assert(d == y + 5 * yy);
    assert(d % 5 == y && d / 5 == yy);
    assert((y + 3 * yy) % 5 == x) by {
        if x == 0 { } else if x == 1 { } else if x == 2 { } else if x == 3 { } else { }
    }
}

proof fn lemma_rho_pi_injective(a: Seq<u64>, b: Seq<u64>)
    requires
        a.len() == 25,
        b.len() == 25,
        rho_pi(a) == rho_pi(b),
    ensures
        a == b,
{
    assert forall|l: int| 0 <= l < 25 implies a[l] == b[l] by {
        let d = pi_dest(l);
        lemma_pi_dest(l);
        assert(rho_pi(a)[d] == rotl(a[pi_source(d)], rho_offset(pi_source(d))));
        assert(rho_pi(b)[d] == rotl(b[pi_source(d)], rho_offset(pi_source(d))));
        assert(rho_pi(a)[d] == rho_pi(b)[d]);
        assert(rho_offset(l) < 64);
        lemma_rotl_injective(a[l], b[l], rho_offset(l));
    }
    assert(a =~= b);
}

proof fn lemma_chi_row(a: Seq<u64>, b: Seq<u64>, y: int)
    requires
        a.len() == 25,
        b.len() == 25,
        chi(a) == chi(b),
        0 <= y < 5,
    ensures
        a[5 * y] == b[5 * y],
        a[5 * y + 1] == b[5 * y + 1],
        a[5 * y + 2] == b[5 * y + 2],
        a[5 * y + 3] == b[5 * y + 3],
        a[5 * y + 4] == b[5 * y + 4],
{
    let j = 5 * y;
    assert(j % 5 == 0 && (j + 1) % 5 == 1 && (j + 2) % 5 == 2 && (j + 3) % 5 == 3 && (j + 4) % 5
        == 4);
    assert(chi(a)[j] == a[j] ^ (!a[j + 1] & a[j + 2]));
    assert(chi(a)[j + 1] == a[j + 1] ^ (!a[j + 2] & a[j + 3]));
    assert(chi(a)[j + 2] == a[j + 2] ^ (!a[j + 3] & a[j + 4]));
    assert(chi(a)[j + 3] == a[j + 3] ^ (!a[j + 4] & a[j]));
    assert(chi(a)[j + 4] == a[j + 4] ^ (!a[j] & a[j + 1]));
    assert(chi(b)[j] == b[j] ^ (!b[j + 1] & b[j + 2]));
    assert(chi(b)[j + 1] == b[j + 1] ^ (!b[j + 2] & b[j + 3]));
    assert(chi(b)[j + 2] == b[j + 2] ^ (!b[j + 3] & b[j + 4]));
    assert(chi(b)[j + 3] == b[j + 3] ^ (!b[j + 4] & b[j]));
    assert(chi(b)[j + 4] == b[j + 4] ^ (!b[j] & b[j + 1]));
    assert(chi(a)[j] == chi(b)[j]);
    assert(chi(a)[j + 1] == chi(b)[j + 1]);
    assert(chi(a)[j + 2] == chi(b)[j + 2]);
    assert(chi(a)[j + 3] == chi(b)[j + 3]);
    assert(chi(a)[j + 4] == chi(b)[j + 4]);
    let (a0, a1, a2, a3, a4) = (a[j], a[j + 1], a[j + 2], a[j + 3], a[j + 4]);
    let (b0, b1, b2, b3, b4) = (b[j], b[j + 1], b[j + 2], b[j + 3], b[j + 4]);
    assert(a0 == b0 && a1 == b1 && a2 == b2 && a3 == b3 && a4 == b4) by (bit_vector)
        requires
            a0 ^ (!a1 & a2) == b0 ^ (!b1 & b2),
            a1 ^ (!a2 & a3) == b1 ^ (!b2 & b3),
            a2 ^ (!a3 & a4) == b2 ^ (!b3 & b4),
            a3 ^ (!a4 & a0) == b3 ^ (!b4 & b0),
            a4 ^ (!a0 & a1) == b4 ^ (!b0 & b1),
    ;
}

proof fn lemma_chi_injective(a: Seq<u64>, b: Seq<u64>)
    requires
        a.len() == 25,
        b.len() == 25,
        chi(a) == chi(b),
    ensures
        a == b,
{
    assert forall|l: int| 0 <= l < 25 implies a[l] == b[l] by {
        let y = l / 5;
        lemma_chi_row(a, b, y);
        assert(l == 5 * y + l % 5);
    }
    assert(a =~= b);
}

proof fn lemma_round_injective(a: Seq<u64>, b: Seq<u64>, r: int)
    requires
        a.len() == 25,
        b.len() == 25,
        0 <= r < 24,
        keccak_round(a, r) == keccak_round(b, r),
    ensures
        a == b,
{
    let ca = chi(rho_pi(theta(a)));
    let cb = chi(rho_pi(theta(b)));
    let rc = KECCAK_RNDC[r];
    assert(iota(ca, r)[0] == iota(cb, r)[0]);
    let (x, y) = (ca[0], cb[0]);
    assert(x == y) by (bit_vector)
        requires
            x ^ rc == y ^ rc,
    ;
    assert forall|l: int| 0 < l < 25 implies ca[l] == cb[l] by {
        assert(iota(ca, r)[l] == iota(cb, r)[l]);
    }
    assert(ca =~= cb);
    lemma_chi_injective(rho_pi(theta(a)), rho_pi(theta(b)));
    lemma_rho_pi_injective(theta(a), theta(b));
    lemma_theta_injective(a, b);
}

proof fn lemma_rounds_len(a: Seq<u64>, n: nat)
    requires
        a.len() == 25,
        n <= 24,
    ensures
        keccak_rounds(a, n).len() == 25,
    decreases n,
{
    if n > 0 {
        lemma_rounds_len(a, (n - 1) as nat);
    }
}

proof fn lemma_rounds_injective(a: Seq<u64>, b: Seq<u64>, n: nat)
    requires
        a.len() == 25,
        b.len() == 25,
        n <= 24,
        keccak_rounds(a, n) == keccak_rounds(b, n),
    ensures
        a == b,
    decreases n,
{
    if n > 0 {
        lemma_rounds_len(a, (n - 1) as nat);
        lemma_rounds_len(b, (n - 1) as nat);
        lemma_round_injective(
            keccak_rounds(a, (n - 1) as nat),
            keccak_rounds(b, (n - 1) as nat),
            n - 1,
        );
        lemma_rounds_injective(a, b, (n - 1) as nat);
    }
}

/// Keccak-f[1600] is a permutation of the state: two different states never
/// give the same result.
pub proof fn law_keccak_injective(a: Seq<u64>, b: Seq<u64>)
    requires
        a.len() == 25,
        b.len() == 25,
        keccak_p(a) == keccak_p(b),
    ensures
        a == b,
{
    lemma_rounds_injective(a, b, 24);
}

fn rotate_left(x: u64, n: u32) -> (r: u64)
    requires
        0 < n < 64,
    ensures
        r == rotl(x, n),
{
    (x << n) | (x >> (64 - n))
}

fn theta_step(st: &mut [u64; 25])
    ensures
        final(st)@ == theta(old(st)@),
{
    let ghost a = st@;
    let mut bc = [0u64; 5];
    for i in 0..5
        invariant
            st@ == a,
            forall|k: int| 0 <= k < i ==> bc[k] == column(a, k),
    {
        bc[i] = st[i] ^ st[i + 5] ^ st[i + 10] ^ st[i + 15] ^ st[i + 20];
    }
    for i in 0..5
        invariant
            a.len() == 25,
            forall|k: int| 0 <= k < 5 ==> bc[k] == column(a, k),
            forall|x: int, y: int|
                0 <= x < 5 && 0 <= y < 5 ==> #[trigger] st@[x + 5 * y] == if x < i {
                    a[x + 5 * y] ^ theta_effect(a, x)
                } else {
                    a[x + 5 * y]
                },
    {
        let t = bc[(i + 4) % 5] ^ rotate_left(bc[(i + 1) % 5], 1);
        assert(t == theta_effect(a, i as int));
        st[i] = st[i] ^ t;
        st[i + 5] = st[i + 5] ^ t;
        st[i + 10] = st[i + 10] ^ t;
        st[i + 15] = st[i + 15] ^ t;
        st[i + 20] = st[i + 20] ^ t;
    }
    assert forall|l: int| 0 <= l < 25 implies st@[l] == theta(a)[l] by {
        let x = l % 5;
        let y = l / 5;
        assert(l == x + 5 * y);
        assert(st@[x + 5 * y] == a[x + 5 * y] ^ theta_effect(a, x));
    }
    assert(st@ =~= theta(a));
}

/// The lane whose old value the rho/pi walk writes at its step `k`.
spec fn walk_source(k: int) -> int {
    if k == 0 {
        1
    } else {
        KECCAK_PILN[k - 1] as int
    }
}

/// Whether the rho/pi walk writes lane `l` at some step.
spec fn walk_writes(l: int) -> bool {
    exists|k: int| 0 <= k < 24 && #[trigger] KECCAK_PILN[k] == l
}

proof fn lemma_walk_distinct()
    ensures
        forall|k: int| 0 <= k < 24 ==> 1 <= #[trigger] KECCAK_PILN[k] < 25,
        forall|k: int| 0 <= k < 24 ==> 0 < #[trigger] KECCAK_ROTC[k] < 64,
        forall|k1: int, k2: int|
            0 <= k1 < 24 && 0 <= k2 < 24 && k1 != k2 ==> #[trigger] KECCAK_PILN[k1]
                != #[trigger] KECCAK_PILN[k2],
{
}

proof fn lemma_walk_tables()
    ensures
        forall|k: int|
            0 <= k < 24 ==> pi_source(#[trigger] KECCAK_PILN[k] as int) == walk_source(k)
                && rho_offset(walk_source(k)) == KECCAK_ROTC[k],
        forall|l: int| 1 <= l < 25 ==> #[trigger] walk_writes(l),
{
    assert forall|l: int| 1 <= l < 25 implies #[trigger] walk_writes(l) by {
        if l == 10 { assert(KECCAK_PILN[0] == l); }
        else if l == 7 { assert(KECCAK_PILN[1] == l); }
        else if l == 11 { assert(KECCAK_PILN[2] == l); }
        else if l == 17 { assert(KECCAK_PILN[3] == l); }
        else if l == 18 { assert(KECCAK_PILN[4] == l); }
        else if l == 3 { assert(KECCAK_PILN[5] == l); }
        else if l == 5 { assert(KECCAK_PILN[6] == l); }
        else if l == 16 { assert(KECCAK_PILN[7] == l); }
        else if l == 8 { assert(KECCAK_PILN[8] == l); }
        else if l == 21 { assert(KECCAK_PILN[9] == l); }
        else if l == 24 { assert(KECCAK_PILN[10] == l); }
        else if l == 4 { assert(KECCAK_PILN[11] == l); }
        else if l == 15 { assert(KECCAK_PILN[12] == l); }
        else if l == 23 { assert(KECCAK_PILN[13] == l); }
        else if l == 19 { assert(KECCAK_PILN[14] == l); }
        else if l == 13 { assert(KECCAK_PILN[15] == l); }
        else if l == 12 { assert(KECCAK_PILN[16] == l); }
        else if l == 2 { assert(KECCAK_PILN[17] == l); }
        else if l == 20 { assert(KECCAK_PILN[18] == l); }
        else if l == 14 { assert(KECCAK_PILN[19] == l); }
        else if l == 22 { assert(KECCAK_PILN[20] == l); }
        else if l == 9 { assert(KECCAK_PILN[21] == l); }
        else if l == 6 { assert(KECCAK_PILN[22] == l); }
        else { assert(KECCAK_PILN[23] == l); }
    }
}

fn rho_pi_step(st: &mut [u64; 25])
    ensures
        final(st)@ == rho_pi(old(st)@),
{
    let ghost a = st@;
    let mut t = st[1];
    for i in 0..24
        invariant
            a.len() == 25,
            st@.len() == 25,
            t == a[walk_source(i as int)],
            forall|k: int| 0 <= k < i ==> st@[#[trigger] KECCAK_PILN[k] as int] == rotl(
                a[walk_source(k)],
                KECCAK_ROTC[k],
            ),
            forall|k: int| i <= k < 24 ==> st@[#[trigger] KECCAK_PILN[k] as int] == a[KECCAK_PILN[k] as int],
            st@[0] == a[0],
    {
        proof {
            lemma_walk_distinct();
        }
        let j = KECCAK_PILN[i];
        let tmp = st[j];
        st[j] = rotate_left(t, KECCAK_ROTC[i]);
        t = tmp;
    }
    proof {
        lemma_walk_tables();
    }
    assert forall|l: int| 0 <= l < 25 implies st@[l] == rho_pi(a)[l] by {
        if l == 0 {
        } else {
            assert(walk_writes(l));
            let k = choose|k: int| 0 <= k < 24 && #[trigger] KECCAK_PILN[k] == l;
            assert(st@[KECCAK_PILN[k] as int] == rotl(a[walk_source(k)], KECCAK_ROTC[k]));
        }
    }
    assert(st@ =~= rho_pi(a));
}

fn chi_step(st: &mut [u64; 25])
    ensures
        final(st)@ == chi(old(st)@),
{
    let ghost a = st@;
    for y in 0..5
        invariant
            a.len() == 25,
            forall|l: int| 0 <= l < 5 * y ==> st@[l] == chi(a)[l],
            forall|l: int| 5 * y <= l < 25 ==> st@[l] == a[l],
    {
        let j = 5 * y;
        let row = [st[j], st[j + 1], st[j + 2], st[j + 3], st[j + 4]];
        for i in 0..5
            invariant
                a.len() == 25,
                j == 5 * y,
                y < 5,
                forall|k: int| 0 <= k < 5 ==> row[k] == a[j + k],
                forall|l: int| 0 <= l < j + i ==> st@[l] == chi(a)[l],
                forall|l: int| j + i <= l < 25 ==> st@[l] == a[l],
        {
            st[j + i] = row[i] ^ ((!row[(i + 1) % 5]) & row[(i + 2) % 5]);
        }
    }
    assert(st@ =~= chi(a));
}

/// Applies Keccak-f[1600] to the state in place.
pub fn keccak_f1600(st: &mut [u64; 25])
    ensures
        final(st)@ == keccak_p(old(st)@),
{
    let ghost a = st@;
    for r in 0..24
        invariant
            st@ == keccak_rounds(a, r as nat),
    {
        let ghost before = st@;
        theta_step(st);
        rho_pi_step(st);
        chi_step(st);
        let ghost mixed = st@;
        st[0] = st[0] ^ KECCAK_RNDC[r];
        assert(st@ =~= iota(mixed, r as int));
        assert(keccak_rounds(a, (r + 1) as nat) == keccak_round(before, r as int));
    }
}

} // verus!
