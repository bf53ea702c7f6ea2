use dot_kernels::compose::{add_partitioned, dot_lane_partitioned, dot_multi_partitioned};
use dot_kernels::kernels::{add_lane, dot_lane, dot_multi, dot_product_simd, KernelError};
use dot_kernels::validate::{oracle_dot, validate_add, validate_dot};

fn to_bits(v: &[f64]) -> Vec<u64> {
    v.iter().map(|x| x.to_bits()).collect()
}

#[test]
fn test_length_mismatch_rejected_everywhere() {
    let x = to_bits(&[1.0, 2.0, 3.0]);
    let y = to_bits(&[4.0, 5.0]);

    assert_eq!(dot_lane(&x, &y, 4), Err(KernelError::LengthMismatch));
    assert_eq!(dot_multi(&x, &y, 4, 4), Err(KernelError::LengthMismatch));
    assert_eq!(dot_product_simd(&x, &y), Err(KernelError::LengthMismatch));
    assert_eq!(
        dot_lane_partitioned(&x, &y, 4, 3),
        Err(KernelError::LengthMismatch)
    );
    assert_eq!(
        dot_multi_partitioned(&x, &y, 4, 4, 3),
        Err(KernelError::LengthMismatch)
    );
    assert_eq!(add_lane(&x, &y, 4), Err(KernelError::LengthMismatch));
    assert_eq!(add_partitioned(&x, &y, 4, 3), Err(KernelError::LengthMismatch));
    assert_eq!(oracle_dot(&x, &y), Err(KernelError::LengthMismatch));
    assert_eq!(validate_dot(&x, &y, 0), Err(KernelError::LengthMismatch));
    assert_eq!(validate_add(&x, &y, &x), Err(KernelError::LengthMismatch));
}

#[test]
fn test_mismatch_rejected_before_any_work() {
    // the longer vector alone would make the kernels read out of range if
    // any partial computation leaked into the result
    let x = to_bits(&[1.0; 9]);
    let y: Vec<u64> = Vec::new();
    assert_eq!(dot_lane(&x, &y, 4), Err(KernelError::LengthMismatch));
    assert_eq!(dot_lane(&y, &x, 4), Err(KernelError::LengthMismatch));
    assert_eq!(add_lane(&y, &x, 4), Err(KernelError::LengthMismatch));
}
