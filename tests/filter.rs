use zeen_filter::bloom_filter::BloomFilter;
use zeen_filter::hash_functions::CustomHasher;
use zeen_filter::hash_functions::FilterError;
use zeen_filter::logging::log_insertion;

/// Sizes a filter for `expected_items` at `false_positive_rate`:
/// ceil(-n ln p / (ln 2)^2) bits and ceil(m / n * ln 2) probes.
fn filter_for(expected_items: usize, false_positive_rate: f64) -> BloomFilter {
    let ln2 = std::f64::consts::LN_2;
    let n = expected_items as f64;
    let size = ((-(n * false_positive_rate.ln()) / ln2.powi(2)).ceil() as usize).max(1);
    let num_hashes = ((size as f64 / n * ln2).ceil() as usize).max(1);
    BloomFilter::new(size, num_hashes).unwrap()
}

/// The estimate (1 - e^(-k n / m))^k from the filter's counters.
fn estimated_rate(filter: &BloomFilter) -> f64 {
    let k = filter.num_hashes() as f64;
    let n = filter.inserted_items() as f64;
    let m = filter.size() as f64;
    (1.0 - (-k * n / m).exp()).powi(filter.num_hashes() as i32)
}

#[test]
fn test_insert_and_lookup() {
    let mut filter = filter_for(100, 0.01);

    let record = log_insertion("Hello");
    assert_eq!(record.item, "Hello");
    filter.insert("Hello");
    log_insertion("World");
    filter.insert("World");

    assert!(filter.contains("Hello"));
    assert!(filter.contains("World"));
    assert!(!filter.contains("NotInFilter"));
}

#[test]
fn test_large_insertion() {
    let mut filter = filter_for(1_000_000, 0.01);

    for i in 0..1_000_000 {
        log_insertion(&format!("Inserting item_{}", i));
        filter.insert(&format!("item_{}", i));
    }

    assert!(filter.contains("item_999999"));
    assert!(!filter.contains("item_1000001"));
}

#[test]
fn test_false_positive_rate() {
    let mut filter = filter_for(10_000, 0.01);

    for i in 0..10_000 {
        filter.insert(&format!("test_item_{}", i));
    }

    let false_positives = (10_000..20_000)
        .filter(|i| filter.contains(&format!("test_item_{}", i)))
        .count();

    let actual_false_positive_rate = false_positives as f64 / 10_000.0;
    println!("Actual False Positive Rate: {}", actual_false_positive_rate);

    // The target is 1%; one fixed sample of 10 000 probes scatters around it,
    // so the bound leaves a quarter of the target as statistical slack.
    assert!(actual_false_positive_rate <= 0.01 * 1.25);
}

#[test]
fn sizing_for_hundred_items_at_one_percent() {
    let filter = filter_for(100, 0.01);
    assert_eq!(filter.size(), 959);
    assert_eq!(filter.num_hashes(), 7);
    assert_eq!(filter.inserted_items(), 0);
}

#[test]
fn new_rejects_zero_size_or_zero_probes() {
    assert_eq!(BloomFilter::new(0, 3).err(), Some(FilterError::InvalidParameter));
    assert_eq!(BloomFilter::new(64, 0).err(), Some(FilterError::InvalidParameter));
    assert_eq!(BloomFilter::new(0, 0).err(), Some(FilterError::InvalidParameter));
    let filter = BloomFilter::new(1, 1).unwrap();
    assert_eq!(filter.size(), 1);
    assert!(!filter.contains("anything"));
}

#[test]
fn size_not_a_multiple_of_eight() {
    let mut filter = BloomFilter::new(13, 2).unwrap();
    let items = ["a", "b", "c", "d", "e", "f", "g"];
    for item in items.iter() {
        filter.insert(item);
    }
    for item in items.iter() {
        assert!(filter.contains(item));
    }
}

#[test]
fn every_inserted_item_is_found() {
    let mut filter = filter_for(500, 0.05);
    for i in 0..500 {
        filter.insert(&format!("key-{}", i));
    }
    for i in 0..500 {
        assert!(filter.contains(&format!("key-{}", i)));
    }
}

#[test]
fn empty_filter_contains_nothing() {
    let filter = filter_for(100, 0.01);
    assert!(!filter.contains(""));
    assert!(!filter.contains("Hello"));
}

#[test]
fn inserted_count_counts_duplicates() {
    let mut filter = filter_for(100, 0.01);
    filter.insert("x");
    filter.insert("x");
    filter.insert("y");
    assert_eq!(filter.inserted_items(), 3);
    filter.insert_with_murmur3("z").unwrap();
    assert_eq!(filter.inserted_items(), 4);
}

#[test]
fn contains_is_repeatable() {
    let mut filter = filter_for(50, 0.1);
    filter.insert("alpha");
    for probe in ["alpha", "beta", "gamma"].iter() {
        let first = filter.contains(probe);
        for _ in 0..5 {
            assert_eq!(filter.contains(probe), first);
        }
    }
}

#[test]
fn rate_estimate_grows_with_distinct_insertions() {
    let mut filter = filter_for(1_000, 0.01);
    let size = filter.size();
    let num_hashes = filter.num_hashes();
    let mut last = estimated_rate(&filter);
    assert_eq!(last, 0.0);
    for i in 0..2_000 {
        filter.insert(&format!("distinct-{}", i));
        let now = estimated_rate(&filter);
        assert!(now >= last);
        last = now;
    }
    assert_eq!(filter.size(), size);
    assert_eq!(filter.num_hashes(), num_hashes);
    assert!(last > 0.01);
}

#[test]
fn rebuild_discards_contents() {
    let mut filter = filter_for(100, 0.01);
    filter.insert("Hello");
    filter.insert("World");
    assert!(filter.contains("Hello"));
    filter.rebuild(200, 5).unwrap();
    assert_eq!(filter.size(), 200);
    assert_eq!(filter.num_hashes(), 5);
    assert_eq!(filter.inserted_items(), 0);
    assert!(!filter.contains("Hello"));
    assert!(!filter.contains("World"));
}

#[test]
fn rebuild_with_zero_keeps_the_filter() {
    let mut filter = filter_for(100, 0.01);
    filter.insert("Hello");
    assert_eq!(filter.rebuild(0, 5), Err(FilterError::InvalidParameter));
    assert_eq!(filter.rebuild(10, 0), Err(FilterError::InvalidParameter));
    assert_eq!(filter.size(), 959);
    assert_eq!(filter.inserted_items(), 1);
    assert!(filter.contains("Hello"));
}

#[test]
fn murmur3_insertion_counts_and_keeps_probes() {
    let mut filter = BloomFilter::new(1_000, 3).unwrap();
    filter.insert("Blockchain");
    filter.insert_with_murmur3("Blockchain").unwrap();
    assert_eq!(filter.inserted_items(), 2);
    assert!(filter.contains("Blockchain"));
}

#[test]
fn wide_digest_matches_known_vector() {
    let hasher = CustomHasher;
    let expected = (0xcbd8a7b341bd9b02u128 << 64) | 0x5b1e906a48ae1d19u128;
    assert_eq!(hasher.wide_digest(b"hello"), expected);
    assert_eq!(hasher.wide_digest(b""), 0);
}

#[test]
fn murmur3_hash_covers_the_encoded_item() {
    let hasher = CustomHasher;
    let encoded = bincode::serialize("hello").unwrap();
    assert_eq!(encoded.len(), 13);
    assert_eq!(hasher.hash_with_murmur3("hello"), Ok(hasher.wide_digest(&encoded)));
    assert_ne!(hasher.hash_with_murmur3("hello"), Ok(hasher.wide_digest(b"hello")));
}

#[test]
fn murmur3_hash_of_length_prefixed_bytes() {
    let hasher = CustomHasher;
    let encoded: [u8; 13] = [5, 0, 0, 0, 0, 0, 0, 0, b'h', b'e', b'l', b'l', b'o'];
    assert_eq!(hasher.hash_with_murmur3("hello"), Ok(hasher.wide_digest(&encoded)));
    let empty: [u8; 8] = [0; 8];
    assert_eq!(hasher.hash_with_murmur3(""), Ok(hasher.wide_digest(&empty)));
}

#[test]
fn murmur3_insertion_always_succeeds() {
    let mut filter = BloomFilter::new(64, 2).unwrap();
    for item in ["", "Hello", "ünïcödé", "a much longer item than the others"].iter() {
        assert_eq!(filter.insert_with_murmur3(item), Ok(()));
    }
    assert_eq!(filter.inserted_items(), 4);
}

#[test]
fn default_hash_depends_on_item_and_seed() {
    let hasher = CustomHasher;
    let a0 = hasher.hash_with_default("Hello", 0);
    assert_eq!(hasher.hash_with_default("Hello", 0), a0);
    assert_ne!(hasher.hash_with_default("Hello", 1), a0);
    assert_ne!(hasher.hash_with_default("World", 0), a0);
}
