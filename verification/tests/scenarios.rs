use dot_kernels::compose::{add_partitioned, dot_lane_partitioned, dot_multi_partitioned};
use dot_kernels::dot_product_simd;
use dot_kernels::kernels::{add_lane, dot_lane, dot_multi};
use dot_kernels::partition::{partition_ranges, Partition};
use dot_kernels::validate::oracle_dot;

fn to_bits(v: &[f64]) -> Vec<u64> {
    v.iter().map(|x| x.to_bits()).collect()
}

fn from_bits(v: &[u64]) -> Vec<f64> {
    v.iter().map(|x| f64::from_bits(*x)).collect()
}

#[test]
fn test_dot_concrete_every_strategy() {
    let x = to_bits(&[1.0, 2.0, 3.0]);
    let y = to_bits(&[4.0, 5.0, 6.0]);

    assert_eq!(f64::from_bits(oracle_dot(&x, &y).unwrap()), 32.0);
    assert_eq!(f64::from_bits(dot_product_simd(&x, &y).unwrap()), 32.0);
    for w in [1, 2, 3, 4, 8] {
        assert_eq!(f64::from_bits(dot_lane(&x, &y, w).unwrap()), 32.0);
    }
    for (w, k) in [(4, 4), (4, 2), (2, 2), (1, 3)] {
        assert_eq!(f64::from_bits(dot_multi(&x, &y, w, k).unwrap()), 32.0);
    }
    for p in [1, 2, 3, 8] {
        assert_eq!(f64::from_bits(dot_lane_partitioned(&x, &y, 4, p).unwrap()), 32.0);
        assert_eq!(
            f64::from_bits(dot_multi_partitioned(&x, &y, 4, 4, p).unwrap()),
            32.0
        );
    }
}

#[test]
fn test_add_concrete_every_strategy() {
    let x = to_bits(&[1.0, 2.0, 3.0]);
    let y = to_bits(&[4.0, 5.0, 6.0]);
    let expected = [5.0, 7.0, 9.0];

    for w in [1, 2, 4, 8] {
        let r = add_lane(&x, &y, w).unwrap();
        assert_eq!(from_bits(&r), expected);
    }
    for p in [1, 2, 3, 8] {
        let r = add_partitioned(&x, &y, 4, p).unwrap();
        assert_eq!(from_bits(&r), expected);
    }
}

#[test]
fn test_dot_empty_vectors() {
    let x: Vec<u64> = Vec::new();
    let y: Vec<u64> = Vec::new();

    assert_eq!(f64::from_bits(oracle_dot(&x, &y).unwrap()), 0.0);
    assert_eq!(f64::from_bits(dot_product_simd(&x, &y).unwrap()), 0.0);
    assert_eq!(f64::from_bits(dot_lane(&x, &y, 4).unwrap()), 0.0);
    assert_eq!(f64::from_bits(dot_multi(&x, &y, 4, 4).unwrap()), 0.0);
    assert_eq!(f64::from_bits(dot_lane_partitioned(&x, &y, 4, 3).unwrap()), 0.0);
    assert_eq!(
        f64::from_bits(dot_multi_partitioned(&x, &y, 4, 4, 3).unwrap()),
        0.0
    );
    let r = add_lane(&x, &y, 4).unwrap();
    assert_eq!(r.len(), 0);
}

#[test]
fn test_partition_ten_into_three() {
    let parts = partition_ranges(10, 3);
    assert_eq!(
        parts,
        vec![
            Partition { start: 0, end: 3 },
            Partition { start: 3, end: 6 },
            Partition { start: 6, end: 10 },
        ]
    );
}

#[test]
fn test_partition_small_len_many_workers() {
    // len = 2, p = 8: the chunk size floors to zero, so the leading
    // partitions are empty and the last partition absorbs the whole range;
    // every empty partition is processed as a no-op without error.
    let parts = partition_ranges(2, 8);
    assert_eq!(parts.len(), 8);
    let empty = parts.iter().filter(|q| q.start == q.end).count();
    let nonempty = parts.iter().filter(|q| q.start < q.end).count();
    assert_eq!(empty + nonempty, 8);
    assert_eq!(nonempty, 1);
    assert_eq!(parts[7], Partition { start: 0, end: 2 });
    for q in parts.iter() {
        assert!(q.start <= q.end && q.end <= 2);
    }

    let x = to_bits(&[3.0, 5.0]);
    let y = to_bits(&[7.0, 11.0]);
    assert_eq!(f64::from_bits(dot_lane_partitioned(&x, &y, 4, 8).unwrap()), 76.0);
    assert_eq!(
        f64::from_bits(dot_multi_partitioned(&x, &y, 4, 4, 8).unwrap()),
        76.0
    );
    let r = add_partitioned(&x, &y, 4, 8).unwrap();
    assert_eq!(from_bits(&r), [10.0, 16.0]);
}

#[test]
fn test_partition_covers_and_is_disjoint() {
    for len in [0usize, 1, 2, 5, 10, 17, 64, 100] {
        for p in [1usize, 2, 3, 4, 7, 8, 16] {
            let parts = partition_ranges(len, p);
            assert_eq!(parts.len(), p);
            assert_eq!(parts[0].start, 0);
            assert_eq!(parts[p - 1].end, len);
            for i in 0..p {
                assert!(parts[i].start <= parts[i].end);
                assert!(parts[i].end <= len);
                if i + 1 < p {
                    assert_eq!(parts[i].end, parts[i + 1].start);
                }
            }
            // each index lies in exactly one partition
            for t in 0..len {
                let holders = parts
                    .iter()
                    .filter(|q| q.start <= t && t < q.end)
                    .count();
                assert_eq!(holders, 1, "index {} len {} p {}", t, len, p);
            }
        }
    }
}
