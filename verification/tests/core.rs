use scattering::rng::Rng;
use scattering::search::binary_search;
use scattering::stats::{sum_counts, BinCounts};

#[test]
fn test_binsearch() {
    let mut v1: Vec<f64> = Vec::new();
    let mut v2: Vec<f64> = Vec::new();
    let mut v3: Vec<f64> = Vec::new();
    for i in 1..200 {
        v1.push(i as f64 / 5.0);
        v2.push((i as f64).ln());
        v3.push((i as f64 / 200.0).sin());
    }
    assert_eq!(binary_search(&v1, 12.0) + 1, 60);
    assert_eq!(binary_search(&v2, 5.0) + 1, (5.0 as f64).exp().floor() as usize);
    assert_eq!(
        binary_search(&v3, 0.5) + 1,
        (200.0 * (0.5 as f64).asin()).floor() as usize
    );
}

#[test]
fn binsearch_brackets_integer_table() {
    let table: Vec<u64> = vec![0, 10, 10, 20, 35, 50];
    for value in 0u64..50 {
        let i = binary_search(&table, value);
        assert!(i + 1 < table.len());
        assert!(table[i] <= value);
        assert!(table[i + 1] > value);
    }
}

#[test]
fn binsearch_on_boundary_entries() {
    let table: Vec<u64> = vec![1, 3, 5, 7];
    // A value equal to an inner entry falls into the bracket that starts at it.
    assert_eq!(binary_search(&table, 3u64), 1);
    assert_eq!(binary_search(&table, 5u64), 2);
    // The least entry starts the first bracket.
    assert_eq!(binary_search(&table, 1u64), 0);
}

#[test]
fn binsearch_single_entry() {
    let table: Vec<u64> = vec![42];
    assert_eq!(binary_search(&table, 7u64), 0);
}

#[test]
fn rng_reference_values() {
    // First draws of the xorshift128 stream for seed 12345, computed from
    // the recurrence by hand.
    let mut rng = Rng::new(12345);
    assert_eq!(rng.rand(), 80308827);
    assert_eq!(rng.rand(), 3275432538);
    assert_eq!(rng.rand(), 1299867163);
    assert_eq!(rng.rand(), 15152140);
    assert_eq!(rng.rand(), 1328750073);
}

#[test]
fn rng_same_seed_same_stream() {
    let mut a = Rng::new(987654321);
    let mut b = Rng::new(987654321);
    for _ in 0..1000 {
        assert_eq!(a.rand(), b.rand());
    }
}

#[test]
fn rng_different_seeds_diverge() {
    let mut a = Rng::new(1);
    let mut b = Rng::new(2);
    let mut differed = false;
    for _ in 0..16 {
        if a.rand() != b.rand() {
            differed = true;
        }
    }
    assert!(differed);
}

#[test]
fn sum_counts_exact() {
    let counts: Vec<u32> = vec![3, 0, 7, 4000000000, 1];
    assert_eq!(sum_counts(&counts), 4000000011u64);
    let empty: Vec<u32> = Vec::new();
    assert_eq!(sum_counts(&empty), 0);
}

#[test]
fn bin_counts_record() {
    let mut h = BinCounts::new(4);
    assert_eq!(h.bins, vec![0, 0, 0, 0]);
    h.record(2);
    h.record(2);
    h.record(0);
    assert_eq!(h.bins, vec![1, 0, 2, 0]);
}

#[test]
fn bin_counts_merge() {
    let mut a = BinCounts::new(3);
    a.record(0);
    a.record(1);
    let mut b = BinCounts::new(3);
    b.record(1);
    b.record(2);
    assert!(a.merge(&b));
    assert_eq!(a.bins, vec![1, 2, 1]);
}

#[test]
fn bin_counts_merge_shape_mismatch() {
    let mut a = BinCounts::new(3);
    a.record(1);
    let b = BinCounts::new(2);
    assert!(!a.merge(&b));
    assert_eq!(a.bins, vec![0, 1, 0]);
}

#[test]
fn bin_counts_merge_overflow_refused() {
    let mut a = BinCounts::new(2);
    a.bins[0] = usize::MAX;
    a.bins[1] = 5;
    let mut b = BinCounts::new(2);
    b.record(0);
    b.record(1);
    assert!(!a.merge(&b));
    assert_eq!(a.bins, vec![usize::MAX, 5]);
}
