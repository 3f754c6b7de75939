use phase2::audit::contains_contribution;

#[test]
fn contains_contribution_finds_a_hash_that_is_there() {
    let a = [1u8; 64];
    let b = [2u8; 64];
    let c = [3u8; 64];
    let list = vec![a, b];
    assert!(contains_contribution(&list, &a));
    assert!(contains_contribution(&list, &b));
    assert!(!contains_contribution(&list, &c));
}

#[test]
fn contains_contribution_is_false_on_the_empty_list() {
    let list: Vec<[u8; 64]> = vec![];
    assert!(!contains_contribution(&list, &[0u8; 64]));
}
