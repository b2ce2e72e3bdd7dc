use lsplus::element::{Element, FileStat, Timestamp};
use lsplus::sorting::{key_at_most, same_chars, stable_order_of, text_at_most, SortKey};
use lsplus::utils::{sort_elements, sort_key, sorted_places, SortBy};

fn entry(name: &str, len: u64, secs: i64, nanos: u32) -> Element {
    Element::new(
        name,
        Some(FileStat {
            link_target: None,
            is_dir: false,
            is_file: true,
            is_block_device: false,
            is_socket: false,
            len,
            mode: 0,
            created: Some(Timestamp { secs, nanos }),
        }),
        Timestamp { secs: 0, nanos: 0 },
    )
}

fn named(names: &[&str]) -> Vec<Element> {
    names.iter().map(|n| entry(n, 0, 0, 0)).collect()
}

fn sized(sizes: &[u64]) -> Vec<Element> {
    sizes.iter().enumerate().map(|(i, s)| entry(&format!("f{}", i), *s, 0, 0)).collect()
}

fn names(elements: &[Element]) -> Vec<String> {
    elements.iter().map(|e| e.get_name()).collect()
}

fn sizes(elements: &[Element]) -> Vec<u64> {
    elements.iter().map(|e| e.get_size()).collect()
}

fn chars(s: &str) -> Vec<char> {
    s.chars().collect()
}

#[test]
fn by_name_ignores_case_and_keeps_ties_in_input_order() {
    let mut v = named(&["b", "A", "a"]);
    sort_elements(&mut v, &SortBy::NAME);
    assert_eq!(names(&v), ["A", "a", "b"]);
    let mut v = named(&["b", "a", "A"]);
    sort_elements(&mut v, &SortBy::NAME);
    assert_eq!(names(&v), ["a", "A", "b"]);
}

#[test]
fn by_name_is_a_dictionary_order() {
    let mut v = named(&["beta", "Alpha", "alp", "", "alpha2", "Zed", "_x", "10", "9"]);
    sort_elements(&mut v, &SortBy::NAME);
    assert_eq!(names(&v), ["", "10", "9", "_x", "alp", "Alpha", "alpha2", "beta", "Zed"]);
}

#[test]
fn by_name_orders_by_scalar_value() {
    let mut v = named(&["\u{10000}", "\u{ffff}", "z", "\u{e9}"]);
    sort_elements(&mut v, &SortBy::NAME);
    assert_eq!(names(&v), ["z", "\u{e9}", "\u{ffff}", "\u{10000}"]);
}

#[test]
fn by_size_puts_the_largest_first() {
    let mut v = sized(&[10, 100, 1]);
    sort_elements(&mut v, &SortBy::SIZE);
    assert_eq!(sizes(&v), [100, 10, 1]);
}

#[test]
fn by_size_keeps_ties_in_input_order() {
    let mut v = sized(&[5, 7, 5, 7, 5, u64::MAX, 0]);
    sort_elements(&mut v, &SortBy::SIZE);
    assert_eq!(sizes(&v), [u64::MAX, 7, 7, 5, 5, 5, 0]);
    assert_eq!(names(&v), ["f5", "f1", "f3", "f0", "f2", "f4", "f6"]);
}

#[test]
fn by_creation_puts_the_newest_first() {
    let mut v = vec![
        entry("old", 0, 100, 0),
        entry("before_epoch", 0, -5, 999_999_999),
        entry("new", 0, 200, 1),
        entry("newer_by_nanos", 0, 200, 2),
        entry("oldest", 0, i64::MIN, 0),
        entry("newest", 0, i64::MAX, u32::MAX),
        entry("tie", 0, 100, 0),
    ];
    sort_elements(&mut v, &SortBy::CREATION);
    assert_eq!(
        names(&v),
        ["newest", "newer_by_nanos", "new", "old", "tie", "before_epoch", "oldest"]
    );
}

#[test]
fn no_ordering_leaves_everything_in_place() {
    let mut v = named(&["b", "A", "a", "0"]);
    sort_elements(&mut v, &SortBy::NONE);
    assert_eq!(names(&v), ["b", "A", "a", "0"]);
}

#[test]
fn sorting_nothing_and_one() {
    let mut v: Vec<Element> = Vec::new();
    sort_elements(&mut v, &SortBy::NAME);
    assert!(v.is_empty());
    let mut v = named(&["x"]);
    sort_elements(&mut v, &SortBy::SIZE);
    assert_eq!(names(&v), ["x"]);
}

#[test]
fn sorting_keeps_every_entry_once() {
    let mut v = sized(&[3, 1, 2, 3, 1, 2, 9, 0]);
    sort_elements(&mut v, &SortBy::SIZE);
    let mut seen = names(&v);
    seen.sort();
    assert_eq!(seen, ["f0", "f1", "f2", "f3", "f4", "f5", "f6", "f7"]);
    for pair in v.windows(2) {
        assert!(pair[0].get_size() >= pair[1].get_size());
    }
}

#[test]
fn places_name_the_entries_in_order() {
    let v = sized(&[10, 100, 1, 100]);
    assert_eq!(sorted_places(&v, &SortBy::SIZE), [1, 3, 0, 2]);
    assert_eq!(sorted_places(&v, &SortBy::NONE), [0, 1, 2, 3]);
    assert_eq!(sorted_places(&v, &SortBy::NAME), [0, 1, 2, 3]);
}

#[test]
fn key_of_each_ordering() {
    let e = entry("MiXed", 7, 3, 4);
    let key = sort_key(&e, &SortBy::NAME);
    assert_eq!(key.text, chars("mixed"));
    assert_eq!(key.number, 0);
    let key = sort_key(&e, &SortBy::SIZE);
    assert!(key.text.is_empty());
    assert_eq!(key.number, -7);
    let key = sort_key(&e, &SortBy::CREATION);
    assert_eq!(key.number, -(3 * 4294967296 + 4));
    let key = sort_key(&e, &SortBy::NONE);
    assert!(key.text.is_empty());
    assert_eq!(key.number, 0);
}

#[test]
fn texts_compare_as_in_a_dictionary() {
    assert!(text_at_most(&chars(""), &chars("")));
    assert!(text_at_most(&chars(""), &chars("a")));
    assert!(!text_at_most(&chars("a"), &chars("")));
    assert!(text_at_most(&chars("ab"), &chars("abc")));
    assert!(!text_at_most(&chars("abc"), &chars("ab")));
    assert!(text_at_most(&chars("abc"), &chars("abd")));
    assert!(!text_at_most(&chars("b"), &chars("abc")));
    assert!(text_at_most(&chars("same"), &chars("same")));
    assert!(same_chars(&chars("same"), &chars("same")));
    assert!(!same_chars(&chars("same"), &chars("sama")));
    assert!(!same_chars(&chars("same"), &chars("sam")));
}

#[test]
fn keys_compare_by_text_then_number() {
    let key = |t: &str, n: i128| SortKey { text: chars(t), number: n };
    assert!(key_at_most(&key("a", 9), &key("b", 0)));
    assert!(!key_at_most(&key("b", 0), &key("a", 9)));
    assert!(key_at_most(&key("a", 1), &key("a", 1)));
    assert!(key_at_most(&key("a", 1), &key("a", 2)));
    assert!(!key_at_most(&key("a", 2), &key("a", 1)));
}

#[test]
fn stable_order_of_keys() {
    let key = |t: &str, n: i128| SortKey { text: chars(t), number: n };
    let keys = vec![key("b", 0), key("a", 2), key("a", 1), key("b", 0), key("", 5), key("a", 1)];
    assert_eq!(stable_order_of(&keys), [4, 2, 5, 1, 0, 3]);
    assert!(stable_order_of(&Vec::new()).is_empty());
}

#[test]
fn orderings_have_names() {
    assert_eq!(SortBy::NONE.to_string(), "none");
    assert_eq!(SortBy::NAME.to_string(), "name");
    assert_eq!(SortBy::SIZE.to_string(), "size");
    assert_eq!(SortBy::CREATION.to_string(), "creation");
}
