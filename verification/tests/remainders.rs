use dot_kernels::compose::{add_partitioned, dot_lane_partitioned, dot_multi_partitioned};
use dot_kernels::kernels::{add_lane, dot_lane, dot_multi};

// Small integer-valued doubles: every product and partial sum is exact in
// IEEE-754, so all summation orders give bit-identical results and the
// kernels can be held to exact expected values.
fn input_pair(len: usize) -> (Vec<u64>, Vec<u64>) {
    let x: Vec<u64> = (0..len).map(|i| ((i + 1) as f64).to_bits()).collect();
    let y: Vec<u64> = (0..len).map(|i| ((2 * i + 1) as f64).to_bits()).collect();
    (x, y)
}

fn exact_dot(len: usize) -> f64 {
    (0..len).map(|i| ((i + 1) * (2 * i + 1)) as f64).sum()
}

#[test]
fn test_lane_kernel_remainder_lengths() {
    for w in [2usize, 4, 8] {
        for len in [0usize, 1, w - 1, w, w + 1, 2 * w - 1, 2 * w, 3 * w + 2] {
            let (x, y) = input_pair(len);
            let r = f64::from_bits(dot_lane(&x, &y, w).unwrap());
            assert_eq!(r, exact_dot(len), "w={} len={}", w, len);
        }
    }
}

#[test]
fn test_multi_kernel_remainder_lengths() {
    for (w, k) in [(4usize, 4usize), (4, 2), (2, 3), (8, 4)] {
        let kw = k * w;
        for len in [0, 1, w - 1, w, w + 1, kw - 1, kw, kw + 1, 2 * kw + 3] {
            let (x, y) = input_pair(len);
            let r = f64::from_bits(dot_multi(&x, &y, w, k).unwrap());
            assert_eq!(r, exact_dot(len), "w={} k={} len={}", w, k, len);
        }
    }
}

#[test]
fn test_partitioned_remainder_lengths() {
    for p in [1usize, 2, 3, 7] {
        for len in [0usize, 1, 3, 4, 5, 15, 16, 17, 31] {
            let (x, y) = input_pair(len);
            let r = f64::from_bits(dot_lane_partitioned(&x, &y, 4, p).unwrap());
            assert_eq!(r, exact_dot(len), "p={} len={}", p, len);
            let r2 = f64::from_bits(dot_multi_partitioned(&x, &y, 4, 4, p).unwrap());
            assert_eq!(r2, exact_dot(len), "p={} len={}", p, len);
        }
    }
}

#[test]
fn test_elementwise_remainder_lengths() {
    for w in [2usize, 4, 8] {
        for len in [0usize, 1, w - 1, w, w + 1, 4 * w - 1, 4 * w + 1] {
            let (x, y) = input_pair(len);
            let r = add_lane(&x, &y, w).unwrap();
            assert_eq!(r.len(), len);
            for i in 0..len {
                let expected = ((i + 1) as f64 + (2 * i + 1) as f64).to_bits();
                assert_eq!(r[i], expected, "w={} len={} i={}", w, len, i);
            }
            let rp = add_partitioned(&x, &y, w, 3).unwrap();
            assert_eq!(rp, r);
        }
    }
}
