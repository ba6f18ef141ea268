use mozheng_board::histogram::{bucket_counts, max_count};

#[test]
fn counts_keys_in_first_occurrence_order() {
    let keys: Vec<i32> = vec![2, -1, 2, 0, 2, -1];
    let tally = bucket_counts(&keys);
    assert_eq!(tally, vec![(2, 3), (-1, 2), (0, 1)]);
}

#[test]
fn empty_keys_give_empty_tally() {
    let keys: Vec<i32> = Vec::new();
    assert!(bucket_counts(&keys).is_empty());
}

#[test]
fn single_key_tally() {
    let keys: Vec<i32> = vec![5, 5, 5];
    assert_eq!(bucket_counts(&keys), vec![(5, 3)]);
}

#[test]
fn max_count_finds_tallest_bucket() {
    let keys: Vec<i32> = vec![2, -1, 2, 0, 2, -1];
    let tally = bucket_counts(&keys);
    assert_eq!(max_count(&tally), 3);
}

#[test]
fn max_count_of_single_bucket() {
    let tally = vec![(0, 7usize)];
    assert_eq!(max_count(&tally), 7);
}
