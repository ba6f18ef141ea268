use mozheng_board::aggregate::{all_ids_valid, partition_by_post};

#[test]
fn id_validity_check() {
    assert!(all_ids_valid(&vec![0, 1, 2], 3));
    assert!(!all_ids_valid(&vec![0, 3], 3));
    assert!(!all_ids_valid(&vec![0], 0));
    assert!(all_ids_valid(&Vec::new(), 0));
}

#[test]
fn partitions_stably_by_post() {
    let ids: Vec<usize> = vec![1, 0, 1, 2, 0, 1];
    let buckets = partition_by_post(&ids, 3);
    assert_eq!(buckets.len(), 3);
    assert_eq!(buckets[0], vec![1, 4]);
    assert_eq!(buckets[1], vec![0, 2, 5]);
    assert_eq!(buckets[2], vec![3]);
}

#[test]
fn post_without_scores_gets_empty_bucket() {
    let ids: Vec<usize> = vec![0, 0];
    let buckets = partition_by_post(&ids, 2);
    assert_eq!(buckets.len(), 2);
    assert_eq!(buckets[0], vec![0, 1]);
    assert!(buckets[1].is_empty());
}

#[test]
fn no_scores_gives_all_empty_buckets() {
    let ids: Vec<usize> = Vec::new();
    let buckets = partition_by_post(&ids, 4);
    assert_eq!(buckets.len(), 4);
    for b in &buckets {
        assert!(b.is_empty());
    }
}

#[test]
fn empty_catalog_gives_no_buckets() {
    let ids: Vec<usize> = Vec::new();
    let buckets = partition_by_post(&ids, 0);
    assert!(buckets.is_empty());
}
