use pyannote_rs::shape::{checked_permute, checked_product, checked_reshape, checked_swap};

#[test]
fn reshape_infers_one_dimension_and_copies_zeros() {
    assert_eq!(checked_reshape(&vec![2, 3, 4], &vec![0, -1]), Some(vec![2, 12]));
    assert_eq!(checked_reshape(&vec![2, 3, 4], &vec![4, 6]), Some(vec![4, 6]));
    assert_eq!(checked_reshape(&vec![6, 2, 2, 128], &vec![0, 0, -1]), Some(vec![6, 2, 256]));
}

#[test]
fn reshape_refuses_bad_arguments() {
    assert_eq!(checked_reshape(&vec![2, 3, 4], &vec![-1, -1]), None);
    assert_eq!(checked_reshape(&vec![2, 3, 4], &vec![5, -1]), None);
    assert_eq!(checked_reshape(&vec![2, 3, 4], &vec![4, 5]), None);
    assert_eq!(checked_reshape(&vec![2, 3, 4], &vec![-2, 12]), None);
    assert_eq!(checked_reshape(&vec![2, 3], &vec![0, 0, 0]), None);
}

#[test]
fn reshape_of_empty_tensors() {
    assert_eq!(checked_reshape(&vec![0, 3], &vec![-1, 3]), Some(vec![0, 3]));
    assert_eq!(checked_reshape(&vec![0, 3], &vec![0, -1]), None);
}

#[test]
fn permute_reorders_dimensions() {
    assert_eq!(checked_permute(&vec![2, 3, 4], &vec![2, 0, 1]), Some(vec![4, 2, 3]));
    assert_eq!(checked_permute(&vec![2, 3, 4], &vec![0, 1]), None);
    assert_eq!(checked_permute(&vec![2, 3, 4], &vec![0, 1, 3]), None);
}

#[test]
fn swap_exchanges_two_dimensions() {
    assert_eq!(checked_swap(&vec![2, 3, 4], 0, 2), Some(vec![4, 3, 2]));
    assert_eq!(checked_swap(&vec![2, 3, 4], 1, 1), Some(vec![2, 3, 4]));
    assert_eq!(checked_swap(&vec![2, 3, 4], 0, 3), None);
}

#[test]
fn products_that_overflow_are_refused() {
    assert_eq!(checked_product(&vec![2, 3, 4]), Some(24));
    assert_eq!(checked_product(&vec![]), Some(1));
    assert_eq!(checked_product(&vec![usize::MAX, 2]), None);
    assert_eq!(checked_product(&vec![0, usize::MAX, 2]), Some(0));
}
