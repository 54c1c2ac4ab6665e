use unik::errors::UnikError;
use unik::split_math::compute_split;

#[test]
fn half_of_ten_thousand() {
    assert_eq!(compute_split(10000, 5000), Ok(5000));
}

#[test]
fn full_weight_returns_total() {
    assert_eq!(compute_split(123456789, 10000), Ok(123456789));
}

#[test]
fn zero_weight_returns_zero() {
    assert_eq!(compute_split(987654321, 0), Ok(0));
}

#[test]
fn zero_total_returns_zero() {
    assert_eq!(compute_split(0, 10000), Ok(0));
}

#[test]
fn rounding_is_floor() {
    // 10001 * 5000 / 10000 = 5000.5, floored
    assert_eq!(compute_split(10001, 5000), Ok(5000));
    // 9999 * 3333 / 10000 = 3332.6667, floored
    assert_eq!(compute_split(9999, 3333), Ok(3332));
}

#[test]
fn overflow_is_rejected_not_wrapped() {
    // u64::MAX * 10000 cannot be held losslessly in 64 bits
    assert_eq!(compute_split(u64::MAX, 10000), Err(UnikError::Overflow));
    assert_eq!(compute_split(u64::MAX, 2), Err(UnikError::Overflow));
}

#[test]
fn largest_total_that_fits_succeeds() {
    let total = u64::MAX / 10000;
    assert_eq!(compute_split(total, 10000), Ok(total));
}

#[test]
fn split_sums_never_exceed_total() {
    // concrete check of the proved bound: weights sum to 10000,
    // shares sum to at most the total, losing at most len - 1 units
    let weights: [u16; 5] = [3333, 3333, 1667, 1000, 667];
    for total in [10000u64, 10001, 99999, 123456789] {
        let mut sum: u64 = 0;
        for w in weights {
            sum += compute_split(total, w).unwrap();
        }
        assert!(sum <= total);
        assert!(total - sum <= (weights.len() as u64) - 1);
    }
}

#[test]
fn even_split_is_exact() {
    // 10000 split 50/50: exactly 5000 each, nothing lost
    let a = compute_split(10000, 5000).unwrap();
    let b = compute_split(10000, 5000).unwrap();
    assert_eq!(a + b, 10000);
}
