use ascend_kas::target::{integer_decode_f32_bits, target_from_reciprocal_bits, TargetError};
use ascend_kas::uint256::Uint256;

/// The target of a difficulty: the library's integer part, fed with the
/// bits of the `f32` reciprocal, as the miner computes it.
fn target_for(difficulty: f32) -> Result<Uint256, TargetError> {
    assert!(difficulty.is_finite() && difficulty > 0.0);
    target_from_reciprocal_bits((1.0f32 / difficulty).to_bits())
}

#[test]
fn difficulty_one_matches_expected_target() {
    let t = target_for(1.0).unwrap();
    assert_eq!(t.0, [0, 0, 0, 0x0000_0000_ffff_0000]);
}

#[test]
fn higher_difficulty_lowers_target() {
    assert!(target_for(100.0).unwrap() < target_for(1.0).unwrap());
}

#[test]
fn decode_matches_float_value() {
    let (m, e, s) = integer_decode_f32_bits(1.5f32.to_bits());
    assert_eq!((m, e, s), (0xc00000, -23, 1));
    let (m, e, s) = integer_decode_f32_bits((-2.0f32).to_bits());
    assert_eq!((m, e, s), (0x800000, -22, -1));
    let (m, e, _) = integer_decode_f32_bits(f32::from_bits(1).to_bits());
    assert_eq!((m, e), (2, -150));
}

#[test]
fn negative_reciprocal_is_refused() {
    assert_eq!(target_from_reciprocal_bits((-1.0f32).to_bits()), Err(TargetError::NegativeReciprocal));
}

#[test]
fn smallest_subnormal_reciprocal() {
    // Mantissa 2, exponent -150: the target is 2 * 0xffff * 2^58.
    let t = target_from_reciprocal_bits(1).unwrap();
    assert_eq!(t.0, [0xF800_0000_0000_0000, 0x7ff, 0, 0]);
    assert!(target_from_reciprocal_bits(0).unwrap().is_zero());
}

#[test]
fn huge_reciprocal_is_too_big() {
    assert_eq!(target_from_reciprocal_bits(f32::INFINITY.to_bits()), Err(TargetError::TooBig));
    assert_eq!(target_from_reciprocal_bits((1.0e20f32).to_bits()), Err(TargetError::TooBig));
}

#[test]
fn target_at_word_boundary() {
    // reciprocal 2^-64: mantissa 2^23, exponent -87, so the target is
    // 0xffff * 2^23 * 2^121 = 0xffff * 2^144; the shift carries it all into word 2.
    let t = target_from_reciprocal_bits((2.0f32).powi(-64).to_bits()).unwrap();
    assert_eq!(t.0, [0, 0, 0xffff << 16, 0]);
}

#[test]
fn largest_target_that_fits() {
    // reciprocal 2^16: mantissa 2^23, exponent -7, so the target is
    // 0xffff * 2^23 * 2^201 = 0xffff * 2^224.
    let t = target_from_reciprocal_bits((65536.0f32).to_bits()).unwrap();
    assert_eq!(t.0, [0, 0, 0, 0xffff_0000_0000]);
    // 2^32 gives 0xffff * 2^240, the top word full; 2^33 no longer fits.
    let t = target_from_reciprocal_bits((4294967296.0f32).to_bits()).unwrap();
    assert_eq!(t.0, [0, 0, 0, 0xffff_0000_0000_0000]);
    assert_eq!(target_from_reciprocal_bits((8589934592.0f32).to_bits()), Err(TargetError::TooBig));
}
