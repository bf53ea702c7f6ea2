use rand::distributions::Distribution;
use rand::rngs::StdRng;
use rand::SeedableRng;
use rand_distr::Normal;

use dot_kernels::kernels::{dot_lane, dot_multi, dot_product_simd};

fn to_bits(v: &[f64]) -> Vec<u64> {
    v.iter().map(|x| x.to_bits()).collect()
}

fn fill_random(len: usize, normal: &Normal<f64>, rng: &mut StdRng) -> Vec<f64> {
    (0..len).map(|_| normal.sample(rng)).collect()
}

#[test]
fn test_dot_product_raw_simd() {
    let normal = Normal::new(0f64, 3f64).unwrap();
    let mut rng = StdRng::seed_from_u64(7);

    for len in 3..=24 {
        let x: Vec<f64> = fill_random(len, &normal, &mut rng);
        let y: Vec<f64> = fill_random(len, &normal, &mut rng);
        let xb = to_bits(&x);
        let yb = to_bits(&y);

        let reference_result = x
            .iter()
            .zip(y.iter())
            .fold(0.0, |a, zipped| a + zipped.0 * zipped.1);

        let raw_simd_result = f64::from_bits(dot_multi(&xb, &yb, 4, 2).unwrap());
        let relative_error = (raw_simd_result - reference_result).abs() / reference_result.abs();
        assert!(
            relative_error < f64::EPSILON * 10.0,
            "Relative error too large for vectors of size {}: simd_result = {}, reference_result = {}",
            len,
            raw_simd_result,
            reference_result
        );

        let packed_simd_result = f64::from_bits(dot_lane(&xb, &yb, 4).unwrap());
        let relative_error2 = (packed_simd_result - reference_result).abs() / reference_result.abs();
        assert!(
            relative_error2 < f64::EPSILON * 10.0,
            "Relative error too large for vectors of size {}: simd_result = {}, reference_result = {}",
            len,
            raw_simd_result,
            reference_result
        );

        let simd_result = f64::from_bits(dot_product_simd(&xb, &yb).unwrap());
        let relative_error2 = (simd_result - reference_result).abs() / reference_result.abs();
        assert!(
            relative_error2 < f64::EPSILON * 10.0,
            "Relative error too large for vectors of size {}: simd_result = {}, reference_result = {}",
            len,
            simd_result,
            reference_result
        );
    }
}

// Deterministic well-conditioned inputs: every value lies in [0.5, 1.5),
// so the sums have no cancellation and every summation order agrees with
// the sequential oracle well within the tolerance.
fn pseudo_random(len: usize, mut seed: u64) -> Vec<f64> {
    (0..len)
        .map(|_| {
            seed = seed
                .wrapping_mul(6364136223846793005)
                .wrapping_add(1442695040888963407);
            0.5 + (seed >> 11) as f64 / (1u64 << 53) as f64
        })
        .collect()
}

#[test]
fn test_multi_accumulator_agreement() {
    for len in 0..=40 {
        let x = pseudo_random(len, 1);
        let y = pseudo_random(len, 2);
        let xb = to_bits(&x);
        let yb = to_bits(&y);

        let reference: f64 = x.iter().zip(y.iter()).map(|(a, b)| a * b).sum();
        if reference == 0.0 {
            continue;
        }

        for (w, k) in [(4, 4), (4, 2), (8, 4), (2, 3)] {
            let r = f64::from_bits(dot_multi(&xb, &yb, w, k).unwrap());
            let rel = (r - reference).abs() / reference.abs();
            assert!(
                rel < f64::EPSILON * 10.0,
                "w={} k={} len={}: {} vs {}",
                w,
                k,
                len,
                r,
                reference
            );
        }
    }
}
