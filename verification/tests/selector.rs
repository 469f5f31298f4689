use utility_traits::selector::Selector;

fn shout(text: &str) -> String {
    text.to_uppercase()
}

#[test]
fn a_selector_reads_as_its_selected_element() {
    let s = Selector::new(vec!['x', 'y', 'z'], 2);
    assert_eq!(*s, 'z');
}

#[test]
fn methods_of_the_element_apply_to_the_selector() {
    let s = Selector::new(vec!['x', 'y', 'z'], 2);
    assert!(s.is_alphabetic());
    assert_eq!(s.is_alphabetic(), 'z'.is_alphabetic());
    assert_eq!(s.is_ascii_digit(), 'z'.is_ascii_digit());
    assert_eq!(s.to_ascii_uppercase(), 'Z');
}

#[test]
fn a_selector_passes_for_its_element_in_a_call() {
    let s = Selector::new(vec!["good", "bad", "ugly"], 2);
    assert_eq!(shout(&s), "UGLY");
    assert_eq!(s.len(), 4);
}

#[test]
fn writing_through_a_selector_changes_the_element_in_place() {
    let mut s = Selector::new(vec!['x', 'y', 'z'], 2);
    *s = 'w';
    assert_eq!(*s, 'w');
    assert_eq!(s.elements(), &vec!['x', 'y', 'w']);
}

#[test]
fn a_write_is_seen_by_another_selector_over_the_same_elements() {
    let mut s = Selector::new(vec![10, 20, 30], 1);
    *s += 5;
    let other = Selector::new(s.into_elements(), 1);
    assert_eq!(*other, 25);
    let third = Selector::new(other.into_elements(), 0);
    assert_eq!(*third, 10);
}

#[test]
fn methods_that_change_the_element_work_through_the_selector() {
    let mut s = Selector::new(vec![String::from("a"), String::from("b")], 0);
    s.push_str("bc");
    assert_eq!(s.elements(), &vec![String::from("abc"), String::from("b")]);
}

#[test]
fn selecting_another_index_changes_what_is_read() {
    let mut s = Selector::new(vec!['x', 'y', 'z'], 2);
    assert_eq!(s.current(), 2);
    s.select(0);
    assert_eq!(s.current(), 0);
    assert_eq!(*s, 'x');
    *s = 'a';
    s.select(2);
    assert_eq!(*s, 'z');
    assert_eq!(s.into_elements(), vec!['a', 'y', 'z']);
}

#[test]
fn a_selector_over_one_element_selects_it() {
    let s = Selector::new(vec![7u8], 0);
    assert_eq!(*s, 7);
    assert_eq!(s.current(), 0);
}
