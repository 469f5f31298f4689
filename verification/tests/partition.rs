use utility_traits::partition::partition;
use utility_traits::power_of_two::is_power_of_two;

#[test]
fn squares_split_into_powers_of_two_and_the_rest() {
    let squares = [4, 9, 16, 25, 36, 49, 64];
    let (powers_of_two, impure) = partition(&squares, |n| is_power_of_two(*n));
    assert_eq!(powers_of_two, vec![4, 16, 64]);
    assert_eq!(impure, vec![9, 25, 36, 49]);
    assert_eq!(powers_of_two.len(), 3);
    assert_eq!(impure.len(), 4);
    assert_eq!(powers_of_two.len() + impure.len(), squares.len());
    assert!(powers_of_two.iter().all(|n| !impure.contains(n)));
}

#[test]
fn letters_split_by_case() {
    let letters: Vec<char> = "Great Teacher Onizuka".chars().collect();
    let (upper, lower) = partition(&letters, |c| c.is_uppercase());
    assert_eq!(upper.iter().collect::<String>(), "GTO");
    assert_eq!(lower.iter().collect::<String>(), "reat eacher nizuka");
}

#[test]
fn nothing_splits_into_nothing() {
    let none: [i32; 0] = [];
    let (yes, no) = partition(&none, |n| is_power_of_two(*n));
    assert!(yes.is_empty());
    assert!(no.is_empty());
}

#[test]
fn one_side_may_stay_empty() {
    let (yes, no) = partition(&[1, 2, 4, 8], |n| is_power_of_two(*n));
    assert_eq!(yes, vec![1, 2, 4, 8]);
    assert!(no.is_empty());
    let (yes, no) = partition(&[3, 5, 6], |n| is_power_of_two(*n));
    assert!(yes.is_empty());
    assert_eq!(no, vec![3, 5, 6]);
}

#[test]
fn items_that_occur_twice_are_kept_twice() {
    let (even, odd) = partition(&[2, 3, 2, 3, 3], |n| n % 2 == 0);
    assert_eq!(even, vec![2, 2]);
    assert_eq!(odd, vec![3, 3, 3]);
}

#[test]
fn powers_of_two_are_recognised() {
    for exponent in 0..31 {
        assert!(is_power_of_two(1 << exponent));
    }
}

#[test]
fn other_numbers_are_not_powers_of_two() {
    for n in [0, -1, -2, -4, 3, 5, 6, 7, 9, 12, 36, 100, 1023, 1025, i32::MAX, i32::MIN] {
        assert!(!is_power_of_two(n));
    }
}
