use gakumas_screenshot::stats::{
    build_histogram, calculate_bucket_size, calculate_mode, count_values, min_max,
};

#[test]
fn test_min_max() {
    let values = vec![5, 1, 3, 9, 2];
    let (min, max) = min_max(&values).unwrap();
    assert_eq!(min, 1);
    assert_eq!(max, 9);
}

#[test]
fn test_mode() {
    let values = vec![1, 2, 2, 3, 3, 3, 4];
    assert_eq!(calculate_mode(&values), 3);
}

#[test]
fn test_mode_tie() {
    // 1 appears twice, 2 appears twice - should return smaller (1)
    let values = vec![1, 1, 2, 2, 3];
    assert_eq!(calculate_mode(&values), 1);
}

#[test]
fn test_calculate_bucket_size() {
    // Small range: should use MIN_BUCKET_SIZE
    assert_eq!(calculate_bucket_size(0, 50000), 1000);

    // Medium range
    assert_eq!(calculate_bucket_size(0, 150000), 1000);

    // Large range
    assert_eq!(calculate_bucket_size(0, 300000), 3000);
}

#[test]
fn test_build_histogram() {
    let values = vec![1000, 1500, 2000, 2500, 3000, 3500];
    let bucket_size = 1000;
    let (starts, counts) = build_histogram(&values, bucket_size);

    assert_eq!(starts, vec![1000, 2000, 3000]);
    assert_eq!(counts, vec![2, 2, 2]);
}

#[test]
fn test_build_histogram_empty() {
    let values: Vec<u32> = vec![];
    let (starts, counts) = build_histogram(&values, 1000);
    assert!(starts.is_empty());
    assert!(counts.is_empty());
}

#[test]
fn mode_of_edge_cases() {
    assert_eq!(calculate_mode(&[]), 0);
    assert_eq!(calculate_mode(&[42]), 42);
    assert_eq!(calculate_mode(&[9, 7, 8]), 7);
    assert_eq!(calculate_mode(&[5, 4294967295, 4294967295, 5, 0]), 5);
    assert_eq!(calculate_mode(&[3, 1, 3, 1, 2, 2, 2]), 2);
    let counts = count_values(&[3, 1, 3, 1, 2, 2, 2]);
    assert_eq!(counts.len(), 3);
    assert_eq!(counts.get(&2), Some(&3));
    assert_eq!(counts.get(&1), Some(&2));
    assert_eq!(counts.get(&7), None);
    assert_eq!(min_max(&[]), None);
    assert_eq!(min_max(&[4]), Some((4, 4)));
}

#[test]
fn bucket_size_grows_with_the_range() {
    assert_eq!(calculate_bucket_size(0, 0), 1000);
    assert_eq!(calculate_bucket_size(500, 100), 1000);
    assert_eq!(calculate_bucket_size(0, 199_999), 1000);
    assert_eq!(calculate_bucket_size(0, 200_000), 2000);
    assert_eq!(calculate_bucket_size(100_000, 400_000), 3000);
    assert_eq!(calculate_bucket_size(0, u32::MAX), 42_949_000);
}

#[test]
fn histogram_buckets_are_aligned_and_counted() {
    let (starts, counts) = build_histogram(&[2999, 1000, 5000, 1999, 5999], 1000);
    assert_eq!(starts, vec![1000, 2000, 3000, 4000, 5000]);
    assert_eq!(counts, vec![2, 1, 0, 0, 2]);
    let (starts, counts) = build_histogram(&[7], 10);
    assert_eq!(starts, vec![0]);
    assert_eq!(counts, vec![1]);
    let (starts, counts) = build_histogram(&[u32::MAX, u32::MAX - 1], 1_000_000_000);
    assert_eq!(starts, vec![4_000_000_000]);
    assert_eq!(counts, vec![2]);
    let (starts, counts) = build_histogram(&[1, 2, 3], 0);
    assert!(starts.is_empty() && counts.is_empty());
}
