use battlegroup_data::app_data::lookup::TagLookup;
use battlegroup_data::app_data::tags::{SelectorEdit, Tag};

fn tag(name: &str, fluff: &str) -> Tag {
    Tag { name: name.to_string(), fluff: fluff.to_string() }
}

#[test]
fn lookup_resolves_each_name_to_its_tag() {
    let tags = vec![tag("Fast", "+1"), tag("Heavy", "-1"), tag("Guided", "")];
    let lookup = TagLookup::build(&tags);
    assert_eq!(lookup.resolve("Fast"), Some(&tag("Fast", "+1")));
    assert_eq!(lookup.resolve("Heavy"), Some(&tag("Heavy", "-1")));
    assert_eq!(lookup.resolve("Guided"), Some(&tag("Guided", "")));
}

#[test]
fn lookup_of_an_empty_dictionary_resolves_nothing() {
    let lookup = TagLookup::build(&Vec::new());
    assert_eq!(lookup.resolve(""), None);
    assert_eq!(lookup.resolve("Fast"), None);
    assert!(lookup.entries().is_empty());
}

#[test]
fn unknown_name_is_dangling() {
    let lookup = TagLookup::build(&vec![tag("Fast", "+1")]);
    assert_eq!(lookup.resolve("Quick"), None);
    assert_eq!(lookup.resolve("fast"), None);
    assert_eq!(lookup.resolve("Fas"), None);
}

#[test]
fn duplicate_names_resolve_to_the_last_entry() {
    let tags = vec![tag("X", ""), tag("X", "second")];
    let lookup = TagLookup::build(&tags);
    assert_eq!(lookup.resolve("X"), Some(&tag("X", "second")));
}

#[test]
fn duplicate_names_stay_two_entries_of_the_picker() {
    let tags = vec![tag("X", ""), tag("X", "second")];
    let lookup = TagLookup::build(&tags);
    assert_eq!(lookup.entries(), &tags);
    assert_eq!(lookup.entries().len(), 2);
}

#[test]
fn later_duplicate_wins_with_other_names_between() {
    let tags = vec![tag("A", "1"), tag("B", "2"), tag("A", "3"), tag("C", "4"), tag("B", "5")];
    let lookup = TagLookup::build(&tags);
    assert_eq!(lookup.resolve("A").map(|found| found.fluff.as_str()), Some("3"));
    assert_eq!(lookup.resolve("B").map(|found| found.fluff.as_str()), Some("5"));
    assert_eq!(lookup.resolve("C").map(|found| found.fluff.as_str()), Some("4"));
}

#[test]
fn picker_lists_the_dictionary_in_its_order() {
    let tags = vec![tag("B", ""), tag("A", ""), tag("C", "")];
    let lookup = TagLookup::build(&tags);
    let names: Vec<&str> = lookup.entries().iter().map(|entry| entry.name.as_str()).collect();
    assert_eq!(names, vec!["B", "A", "C"]);
}

#[test]
fn lookup_is_a_snapshot_of_the_dictionary() {
    let mut tags = vec![tag("Fast", "+1")];
    let lookup = TagLookup::build(&tags);
    tags[0].name = "Quick".to_string();
    assert!(lookup.resolve("Fast").is_some());
    assert!(lookup.resolve("Quick").is_none());
    let lookup = TagLookup::build(&tags);
    assert!(lookup.resolve("Fast").is_none());
    assert!(lookup.resolve("Quick").is_some());
}

#[test]
fn selector_shows_the_name_of_a_resolved_reference() {
    let lookup = TagLookup::build(&vec![tag("Fast", "+1")]);
    assert_eq!(Tag::selector_label("Fast", &lookup), "Fast");
}

#[test]
fn selector_shows_a_marker_for_a_dangling_reference() {
    let lookup = TagLookup::build(&vec![tag("Quick", "+1")]);
    assert_eq!(Tag::selector_label("Fast", &lookup), "!!! Invalid Tag ID: Fast !!!");
    assert_eq!(Tag::selector_label("", &lookup), "!!! Invalid Tag ID:  !!!");
}

#[test]
fn selector_overwrites_the_reference_with_the_chosen_entry() {
    let lookup = TagLookup::build(&vec![tag("Fast", "+1"), tag("Heavy", "-1")]);
    let mut reference = "Fast".to_string();
    let remove =
        Tag::selector_ui(&mut reference, &SelectorEdit { picked: Some(1), remove: false }, &lookup);
    assert_eq!(reference, "Heavy");
    assert!(!remove);
}

#[test]
fn selector_left_alone_keeps_the_reference() {
    let lookup = TagLookup::build(&vec![tag("Fast", "+1"), tag("Heavy", "-1")]);
    let mut reference = "Heavy".to_string();
    let remove = Tag::selector_ui(&mut reference, &SelectorEdit::default(), &lookup);
    assert_eq!(reference, "Heavy");
    assert!(!remove);
}

#[test]
fn selector_of_a_dangling_reference_has_no_menu_but_can_be_removed() {
    let lookup = TagLookup::build(&vec![tag("Quick", "+1")]);
    let mut reference = "Fast".to_string();
    let remove =
        Tag::selector_ui(&mut reference, &SelectorEdit { picked: Some(0), remove: true }, &lookup);
    assert_eq!(reference, "Fast");
    assert!(remove);
}

#[test]
fn selector_passes_over_a_choice_beyond_the_menu() {
    let lookup = TagLookup::build(&vec![tag("Fast", "+1")]);
    let mut reference = "Fast".to_string();
    Tag::selector_ui(&mut reference, &SelectorEdit { picked: Some(1), remove: false }, &lookup);
    assert_eq!(reference, "Fast");
    Tag::selector_ui(
        &mut reference,
        &SelectorEdit { picked: Some(usize::MAX), remove: false },
        &lookup,
    );
    assert_eq!(reference, "Fast");
}

#[test]
fn selector_can_choose_either_of_two_entries_of_one_name() {
    let lookup = TagLookup::build(&vec![tag("Y", ""), tag("X", ""), tag("X", "second")]);
    let mut reference = "Y".to_string();
    Tag::selector_ui(&mut reference, &SelectorEdit { picked: Some(2), remove: false }, &lookup);
    assert_eq!(reference, "X");
    let mut reference = "Y".to_string();
    Tag::selector_ui(&mut reference, &SelectorEdit { picked: Some(1), remove: false }, &lookup);
    assert_eq!(reference, "X");
}
