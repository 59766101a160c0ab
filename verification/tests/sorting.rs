use battlegroup_data::app_data::order::{name_at_most, sort_tags};
use battlegroup_data::app_data::tags::Tag;

fn tag(name: &str, fluff: &str) -> Tag {
    Tag { name: name.to_string(), fluff: fluff.to_string() }
}

fn names(tags: &Vec<Tag>) -> Vec<&str> {
    tags.iter().map(|entry| entry.name.as_str()).collect()
}

#[test]
fn names_are_ordered_as_text() {
    assert!(name_at_most("", ""));
    assert!(name_at_most("", "a"));
    assert!(!name_at_most("a", ""));
    assert!(name_at_most("a", "a"));
    assert!(name_at_most("a", "b"));
    assert!(!name_at_most("b", "a"));
    assert!(name_at_most("ab", "b"));
    assert!(name_at_most("a", "ab"));
    assert!(!name_at_most("ab", "a"));
    assert!(name_at_most("B", "a"));
    assert!(!name_at_most("a", "B"));
    assert!(name_at_most("Fast", "Faster"));
    assert!(name_at_most("Fast", "Heavy"));
}

#[test]
fn names_are_ordered_by_code_point_beyond_ascii() {
    assert!(name_at_most("z", "é"));
    assert!(!name_at_most("é", "z"));
    assert!(name_at_most("é", "中"));
    assert!(name_at_most("中", "😀"));
    assert!(!name_at_most("😀", "中"));
}

#[test]
fn name_order_agrees_with_the_order_of_strings() {
    let samples = ["", "a", "A", "ab", "b", "Fast", "Quick", "é", "中", "😀", "a😀", "a中"];
    for left in samples {
        for right in samples {
            assert_eq!(name_at_most(left, right), left <= right);
        }
    }
}

#[test]
fn sort_orders_the_dictionary_by_name() {
    let mut tags = vec![tag("B", "b"), tag("A", "a"), tag("C", "c")];
    sort_tags(&mut tags);
    assert_eq!(tags, vec![tag("A", "a"), tag("B", "b"), tag("C", "c")]);
}

#[test]
fn sort_is_stable_within_equal_names() {
    let mut tags = vec![
        tag("X", "first"),
        tag("A", "1"),
        tag("X", "second"),
        tag("A", "2"),
        tag("X", "third"),
    ];
    sort_tags(&mut tags);
    assert_eq!(
        tags,
        vec![
            tag("A", "1"),
            tag("A", "2"),
            tag("X", "first"),
            tag("X", "second"),
            tag("X", "third"),
        ]
    );
}

#[test]
fn sort_of_an_empty_or_single_dictionary_changes_nothing() {
    let mut tags: Vec<Tag> = Vec::new();
    sort_tags(&mut tags);
    assert!(tags.is_empty());
    let mut tags = vec![tag("Only", "one")];
    sort_tags(&mut tags);
    assert_eq!(tags, vec![tag("Only", "one")]);
}

#[test]
fn sort_leaves_a_sorted_dictionary_as_it_is() {
    let mut tags = vec![tag("", "blank"), tag("A", ""), tag("B", ""), tag("a", "")];
    let before = tags.clone();
    sort_tags(&mut tags);
    assert_eq!(tags, before);
}

#[test]
fn sort_reverses_a_descending_dictionary() {
    let mut tags = vec![tag("d", ""), tag("c", ""), tag("b", ""), tag("a", "")];
    sort_tags(&mut tags);
    assert_eq!(names(&tags), vec!["a", "b", "c", "d"]);
}

#[test]
fn sort_agrees_with_the_stable_sort_of_vectors() {
    let mut tags = vec![
        tag("Guided", "1"),
        tag("", "2"),
        tag("Fast", "3"),
        tag("fast", "4"),
        tag("Fast", "5"),
        tag("Échelon", "6"),
        tag("Area", "7"),
        tag("", "8"),
    ];
    let mut expected = tags.clone();
    expected.sort_by_key(|entry| entry.name.clone());
    sort_tags(&mut tags);
    assert_eq!(tags, expected);
}
