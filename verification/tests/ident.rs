use ghist::ident::{fresh_id, is_taken, least_free};

#[test]
fn free_candidate_is_taken_as_it_is() {
    assert_eq!(fresh_id(&vec![], 42), 42);
    assert_eq!(fresh_id(&vec![1, 2, 3], 0), 0);
    assert_eq!(fresh_id(&vec![1, 2, 3], usize::MAX), usize::MAX);
}

#[test]
fn taken_candidate_gives_the_least_free_identifier() {
    assert_eq!(fresh_id(&vec![7], 7), 0);
    assert_eq!(fresh_id(&vec![0, 1, 2, 7], 7), 3);
    assert_eq!(fresh_id(&vec![2, 0, 1], 1), 3);
    assert_eq!(fresh_id(&vec![0, 2], 0), 1);
}

#[test]
fn fresh_identifier_is_never_a_taken_one() {
    let taken = vec![0, 1, 2, 3, 4, 9, 11];
    for candidate in 0..16 {
        let id = fresh_id(&taken, candidate);
        assert!(!is_taken(&taken, id));
    }
}

#[test]
fn least_free_skips_a_full_prefix() {
    assert_eq!(least_free(&vec![]), 0);
    assert_eq!(least_free(&vec![3, 2, 1]), 0);
    assert_eq!(least_free(&vec![3, 2, 1, 0]), 4);
    assert_eq!(least_free(&vec![0, 0, 1, 1]), 2);
}

#[test]
fn is_taken_finds_what_is_there() {
    assert!(is_taken(&vec![5, 6], 6));
    assert!(!is_taken(&vec![5, 6], 7));
    assert!(!is_taken(&vec![], 0));
}
