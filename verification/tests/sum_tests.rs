use bit_kernels::sum;
use bit_kernels::sum_avx2;
use bit_kernels::sum_scalar;

#[test]
fn test_sum_scalar() {
    let x = [0, 1, 2, 3, 4, 5, 6, 7];
    assert_eq!(sum_scalar(&x), 28);
}

#[test]
fn test_sum_avx2() {
    let x = [0, 1, 2, 3, 4, 5, 6, 7];
    assert_eq!(sum_avx2(&x), 28);
}

#[test]
fn test_sum() {
    let x = [0, 1, 2, 3, 4, 5, 6, 7];
    assert_eq!(sum(&x, true), 28);
    assert_eq!(sum(&x, false), 28);
}

#[test]
fn test_sum_strategies_agree() {
    let x = [
        -5, 17, 0, -1, 123456, -98765, 42, 7, i32::MAX, i32::MIN, 3, -3, 1000000, -1000000, 11, -12,
    ];
    let expected = sum_scalar(&x);
    assert_eq!(sum_avx2(&x), expected);
    assert_eq!(sum(&x, true), expected);
    assert_eq!(sum(&x, false), expected);
}

#[test]
fn test_sum_wraps_on_overflow() {
    let x = [i32::MAX, 1, 0, 0, 0, 0, 0, 0];
    assert_eq!(sum_scalar(&x), i32::MIN);
    assert_eq!(sum_avx2(&x), i32::MIN);
    let y = [i32::MIN, -1, 0, 0, 0, 0, 0, 0];
    assert_eq!(sum_scalar(&y), i32::MAX);
    assert_eq!(sum_avx2(&y), i32::MAX);
}

#[test]
fn test_sum_repeated_calls_agree() {
    let x: Vec<i32> = (0..64).collect();
    let first = sum(&x, true);
    let second = sum(&x, true);
    let third = sum(&x, false);
    assert_eq!(first, second);
    assert_eq!(first, third);
}
