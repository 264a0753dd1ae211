use rust_repl::helper_fns::is_it_pow;

#[test]
fn powers_of_ten_are_recognised() {
    assert!(is_it_pow(10, 10));
    assert!(is_it_pow(100, 10));
    assert!(is_it_pow(1000, 10));
    assert!(is_it_pow(10_000_000_000_000_000_000, 10));
}

#[test]
fn non_powers_are_refused() {
    assert!(!is_it_pow(1, 10));
    assert!(!is_it_pow(0, 10));
    assert!(!is_it_pow(11, 10));
    assert!(!is_it_pow(99, 10));
    assert!(!is_it_pow(101, 10));
    assert!(!is_it_pow(usize::MAX, 10));
}

#[test]
fn other_bases() {
    assert!(is_it_pow(8, 2));
    assert!(is_it_pow(2, 2));
    assert!(!is_it_pow(6, 2));
    assert!(is_it_pow(81, 3));
    assert!(!is_it_pow(2, 3));
}

#[test]
fn bases_zero_and_one() {
    assert!(is_it_pow(0, 0));
    assert!(!is_it_pow(5, 0));
    assert!(is_it_pow(1, 1));
    assert!(!is_it_pow(0, 1));
    assert!(!is_it_pow(2, 1));
}
