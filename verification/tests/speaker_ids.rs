use pyannote_rs::speaker_ids::order_ids;

#[test]
fn clusters_are_numbered_by_earliest_member() {
    let clusters = vec![vec![2, 3], vec![0], vec![1, 4]];
    assert_eq!(order_ids(&clusters, 5), vec![1, 2, 3, 3, 2]);
}

#[test]
fn unclustered_items_get_zero() {
    assert_eq!(order_ids(&vec![vec![1]], 3), vec![0, 1, 0]);
    assert_eq!(order_ids(&vec![], 2), vec![0, 0]);
}

#[test]
fn singletons_keep_their_order() {
    let clusters = vec![vec![0], vec![1], vec![2]];
    assert_eq!(order_ids(&clusters, 3), vec![1, 2, 3]);
}

#[test]
fn overlapping_clusters_leave_the_later_number() {
    assert_eq!(order_ids(&vec![vec![0, 1], vec![1]], 2), vec![1, 2]);
    assert_eq!(order_ids(&vec![vec![0], vec![0]], 1), vec![2]);
}
