use sto::compositions::count_permutations;

#[test]
fn test_count_permutations() {
    assert_eq!(count_permutations(1), 1);
    assert_eq!(count_permutations(2), 2);
    assert_eq!(count_permutations(3), 4);
    assert_eq!(count_permutations(4), 8);
}

#[test]
fn count_permutations_of_zero_is_one() {
    assert_eq!(count_permutations(0), 1);
}

#[test]
fn count_permutations_doubles_with_each_step() {
    assert_eq!(count_permutations(10), 512);
    assert_eq!(count_permutations(33), 1_usize << 32);
}
