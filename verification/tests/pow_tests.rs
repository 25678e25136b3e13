use ascend_kas::keccak::keccak_f1600;
use ascend_kas::matrix::{matrix_candidate, Xoshiro256PlusPlus};
use ascend_kas::pow::{Job, HEAVY_INITIAL_STATE, POW_INITIAL_STATE};
use ascend_kas::uint256::Uint256;
use std::cmp::Ordering;

/// Rank of a 64x64 matrix by floating-point Gaussian elimination: the test
/// that a HeavyHash matrix has to pass.
fn float_rank(mat: &[u8; 4096]) -> usize {
    const EPS: f64 = 1e-9;
    let mut a = [[0f64; 64]; 64];
    for r in 0..64 {
        for c in 0..64 {
            a[r][c] = mat[r * 64 + c] as f64;
        }
    }
    let mut rank = 0usize;
    let mut selected = [false; 64];
    for i in 0..64 {
        let mut j = 0usize;
        while j < 64 && (selected[j] || a[j][i].abs() <= EPS) {
            j += 1;
        }
        if j == 64 {
            continue;
        }
        rank += 1;
        selected[j] = true;
        for p in (i + 1)..64 {
            a[j][p] /= a[j][i];
        }
        for k in 0..64 {
            if k != j && a[k][i].abs() > EPS {
                for p in (i + 1)..64 {
                    a[k][p] -= a[j][p] * a[k][i];
                }
            }
        }
    }
    rank
}

fn first_full_rank_matrix(seed: [u64; 4]) -> [u8; 4096] {
    let mut rng = Xoshiro256PlusPlus(seed);
    loop {
        let m = matrix_candidate(&mut rng);
        if float_rank(&m) == 64 {
            return m;
        }
    }
}

#[test]
fn matrix_matches_kaspa_miner_reference_prefix() {
    let word = u64::from_le_bytes([42u8; 8]);
    let m = first_full_rank_matrix([word; 4]);
    let expected = [
        4, 5, 4, 5, 4, 5, 4, 5, 4, 5, 4, 5, 4, 5, 4, 5,
        15, 3, 15, 3, 15, 3, 15, 3, 15, 3, 15, 3, 15, 3, 15, 3,
        2, 10, 2, 10, 2, 10, 2, 10, 2, 10, 2, 10, 2, 10, 2, 10,
        14, 1, 2, 2, 14, 10, 4, 12, 4, 12, 10, 10, 10, 10, 10, 10,
    ];
    assert_eq!(&m[..64], &expected);
    assert_eq!(float_rank(&m), 64);
}

#[test]
fn u256_order_is_little_endian_words() {
    assert!(Uint256([9, 0, 0, 0]) < Uint256([10, 0, 0, 0]));
    assert!(Uint256([u64::MAX, 0, 0, 0]) < Uint256([0, 1, 0, 0]));
}

#[test]
fn nonce_masking_matches_stratum_model() {
    let matrix = matrix_candidate(&mut Xoshiro256PlusPlus([1, 2, 3, 4]));
    let j = Job::new("x".into(), [1, 2, 3, 4], 5, Uint256([u64::MAX; 4]), 0xffff, 0xabcd_0000, matrix);
    assert_eq!(j.nonce_for_counter(0x12345), 0xabcd_2345);
}

#[test]
fn keccak_zero_state_known_answer() {
    let mut st = [0u64; 25];
    keccak_f1600(&mut st);
    assert_eq!(st[0], 0xF1258F7940E1DDE7);
    assert_eq!(st[1], 0x84D5CCF933C0478A);
}

#[test]
fn keccak_is_deterministic_and_mixes() {
    let mut a = POW_INITIAL_STATE;
    let mut b = POW_INITIAL_STATE;
    b[9] ^= 1;
    keccak_f1600(&mut a);
    let mut a2 = POW_INITIAL_STATE;
    keccak_f1600(&mut a2);
    keccak_f1600(&mut b);
    assert_eq!(a, a2);
    assert_ne!(a, b);
    assert_ne!(a, POW_INITIAL_STATE);
    let mut h = HEAVY_INITIAL_STATE;
    keccak_f1600(&mut h);
    assert_ne!(h, a);
}

#[test]
fn job_new_mixes_header_into_state() {
    let matrix = [1u8; 4096];
    let j = Job::new("job7".into(), [10, 20, 30, 40], 99, Uint256([1, 2, 3, 4]), 0xff, 0x100, matrix);
    assert_eq!(j.id, "job7");
    assert_eq!(j.initial_state[0], POW_INITIAL_STATE[0] ^ 10);
    assert_eq!(j.initial_state[3], POW_INITIAL_STATE[3] ^ 40);
    assert_eq!(j.initial_state[4], POW_INITIAL_STATE[4] ^ 99);
    assert_eq!(j.initial_state[5], POW_INITIAL_STATE[5]);
    assert_eq!(j.matrix[4095], 1);
    assert_eq!(j.target, Uint256([1, 2, 3, 4]));
}

#[test]
fn nonce_keeps_fixed_high_bits() {
    let matrix = [0u8; 4096];
    let j = Job::new("x".into(), [0; 4], 0, Uint256([0; 4]), 0xffff_ffff, 0x1234_5678_0000_0000, matrix);
    let n = j.nonce_for_counter(u64::MAX);
    assert_eq!(n & 0xffff_ffff, 0xffff_ffff);
    assert_eq!(n & !0xffff_ffffu64, 0x1234_5678_0000_0000);
}

#[test]
fn calculate_pow_depends_on_nonce_and_matrix() {
    let word = u64::from_le_bytes([42u8; 8]);
    let matrix = first_full_rank_matrix([word; 4]);
    let j = Job::new("x".into(), [word; 4], 1_700_000_000, Uint256([u64::MAX; 4]), u64::MAX, 0, matrix);
    let p1 = j.calculate_pow(1);
    let p1b = j.calculate_pow(1);
    let p2 = j.calculate_pow(2);
    assert_eq!(p1, p1b);
    assert_ne!(p1, p2);
    let mut j2 = j.clone();
    j2.matrix = [0u8; 4096];
    assert_ne!(j2.calculate_pow(1), p1);
}

#[test]
fn pow_with_zero_matrix_is_keccak_of_folded_hash() {
    // With an all-zero matrix every product byte is the hash byte itself, so
    // the folded words are the first four words of the first Keccak pass.
    let matrix = [0u8; 4096];
    let j = Job::new("x".into(), [5, 6, 7, 8], 9, Uint256([0; 4]), u64::MAX, 0, matrix);
    let nonce = 0x0123_4567_89ab_cdef;
    let mut st = j.initial_state;
    st[9] ^= nonce;
    keccak_f1600(&mut st);
    let mut h = HEAVY_INITIAL_STATE;
    for i in 0..4 {
        h[i] ^= st[i];
    }
    keccak_f1600(&mut h);
    assert_eq!(j.calculate_pow(nonce), Uint256([h[0], h[1], h[2], h[3]]));
}

#[test]
fn matrix_candidate_entries_are_nibbles_and_advance_stream() {
    let mut rng = Xoshiro256PlusPlus([7, 8, 9, 10]);
    let m1 = matrix_candidate(&mut rng);
    let m2 = matrix_candidate(&mut rng);
    assert!(m1.iter().all(|&x| x < 16));
    assert_ne!(m1[..], m2[..]);
    let mut rng2 = Xoshiro256PlusPlus([7, 8, 9, 10]);
    let first = rng2.next();
    assert_eq!(m1[0] as u64, first & 0xf);
    assert_eq!(m1[1] as u64, (first >> 4) & 0xf);
    assert_eq!(m1[15] as u64, (first >> 60) & 0xf);
}

#[test]
fn xoshiro_next_known_answer() {
    // xoshiro256++ from state [1, 2, 3, 4]: first output is
    // rotl(1 + 4, 23) + 1.
    let mut rng = Xoshiro256PlusPlus([1, 2, 3, 4]);
    assert_eq!(rng.next(), (5u64.rotate_left(23)).wrapping_add(1));
    assert_eq!(rng.0, [7, 0, 262146, 211106232532992]);
}

#[test]
fn uint256_zero_and_bytes() {
    assert!(Uint256([0; 4]).is_zero());
    assert!(Uint256::default().is_zero());
    assert!(!Uint256([0, 0, 0, 1]).is_zero());
    let b = Uint256([0x0102030405060708, 0, 0, 0xa1a2a3a4a5a6a7a8]).to_be_bytes();
    assert_eq!(&b[..8], &[0xa1, 0xa2, 0xa3, 0xa4, 0xa5, 0xa6, 0xa7, 0xa8]);
    assert_eq!(&b[24..], &[1, 2, 3, 4, 5, 6, 7, 8]);
    assert!(b[8..24].iter().all(|&x| x == 0));
}

#[test]
fn uint256_cmp_is_numeric() {
    assert_eq!(Uint256([5, 0, 0, 1]).cmp(&Uint256([6, 0, 0, 0])), Ordering::Greater);
    assert_eq!(Uint256([5, 9, 9, 1]).cmp(&Uint256([5, 9, 9, 1])), Ordering::Equal);
    assert_eq!(Uint256([0, 0, 1, 0]).cmp(&Uint256([u64::MAX, u64::MAX, 0, 0])), Ordering::Greater);
    assert!(Uint256([0, 0, 0, 2]) > Uint256([u64::MAX, u64::MAX, u64::MAX, 1]));
    assert!(Uint256([3, 0, 0, 0]) <= Uint256([3, 0, 0, 0]));
}

#[test]
fn big_endian_bytes_order_like_the_numbers() {
    let values = [
        Uint256([0, 0, 0, 0]),
        Uint256([1, 0, 0, 0]),
        Uint256([u64::MAX, 0, 0, 0]),
        Uint256([0, 1, 0, 0]),
        Uint256([0x100, 0, 1, 0]),
        Uint256([0, 0, 0, 1]),
        Uint256([u64::MAX; 4]),
    ];
    for a in values {
        for b in values {
            assert_eq!(a.to_be_bytes().cmp(&b.to_be_bytes()), a.cmp(&b));
            assert_eq!(a.to_be_bytes() == b.to_be_bytes(), a == b);
        }
    }
}
