use anki_gen::fields::CardFields;
use anki_gen::reconcile::{fix_field_names, find_closest_unfilled, FuzzyFix, MAX_EDIT_DISTANCE};

fn names(items: &[&str]) -> Vec<String> {
    items.iter().map(|s| s.to_string()).collect()
}

fn fields(pairs: &[(&str, &str)]) -> CardFields {
    CardFields::from_pairs(pairs.iter().map(|(k, v)| (k.to_string(), v.to_string())).collect())
}

fn pairs(items: &[(&str, &str)]) -> Vec<(String, String)> {
    items.iter().map(|(k, v)| (k.to_string(), v.to_string())).collect()
}

#[test]
fn exact_names_are_kept() {
    let raw = fields(&[("Front", "x"), ("Back", "y")]);
    let out = fix_field_names(raw, &names(&["Front", "Back"]));
    assert_eq!(out.fields.to_pairs(), pairs(&[("Front", "x"), ("Back", "y")]));
    assert!(out.fixes.is_empty());
}

#[test]
fn exact_names_in_another_order_are_kept() {
    let raw = fields(&[("Back", "y"), ("Front", "x")]);
    let out = fix_field_names(raw, &names(&["Front", "Back", "Notes"]));
    assert_eq!(out.fields.to_pairs(), pairs(&[("Back", "y"), ("Front", "x")]));
    assert!(out.fixes.is_empty());
}

#[test]
fn misspelt_name_is_repaired() {
    let raw = fields(&[("Readng", "よむ"), ("Word", "読む")]);
    let out = fix_field_names(raw, &names(&["Word", "Reading"]));
    assert_eq!(out.fields.to_pairs(), pairs(&[("Reading", "よむ"), ("Word", "読む")]));
    assert_eq!(
        out.fixes,
        vec![FuzzyFix { from: "Readng".to_string(), to: "Reading".to_string(), distance: 1 }]
    );
}

#[test]
fn name_at_the_limit_is_repaired() {
    assert_eq!(MAX_EDIT_DISTANCE, 2);
    let raw = fields(&[("Frnt!", "x")]);
    let out = fix_field_names(raw, &names(&["Front"]));
    assert_eq!(out.fields.to_pairs(), pairs(&[("Front", "x")]));
    assert_eq!(out.fixes.len(), 1);
    assert_eq!(out.fixes[0].distance, 2);
}

#[test]
fn distant_name_is_kept() {
    let raw = fields(&[("Pronunciation", "p"), ("Fxyz", "q")]);
    let out = fix_field_names(raw, &names(&["Front", "Back"]));
    assert_eq!(out.fields.to_pairs(), pairs(&[("Pronunciation", "p"), ("Fxyz", "q")]));
    assert!(out.fixes.is_empty());
}

#[test]
fn name_beyond_the_limit_is_kept() {
    let raw = fields(&[("Fr", "x")]);
    let out = fix_field_names(raw, &names(&["Front"]));
    assert_eq!(out.fields.to_pairs(), pairs(&[("Fr", "x")]));
    assert!(out.fixes.is_empty());
}

#[test]
fn closer_expected_name_wins() {
    let raw = fields(&[("Bacc", "x")]);
    let out = fix_field_names(raw, &names(&["Bait", "Back"]));
    assert_eq!(out.fields.to_pairs(), pairs(&[("Back", "x")]));
}

#[test]
fn first_of_equally_close_names_wins() {
    let raw = fields(&[("cat", "x")]);
    let out = fix_field_names(raw, &names(&["bat", "hat"]));
    assert_eq!(out.fields.to_pairs(), pairs(&[("bat", "x")]));
    let raw = fields(&[("cat", "x")]);
    let out = fix_field_names(raw, &names(&["hat", "bat"]));
    assert_eq!(out.fields.to_pairs(), pairs(&[("hat", "x")]));
}

#[test]
fn filled_name_is_not_offered_again() {
    let raw = fields(&[("Fron", "first"), ("Frontt", "second")]);
    let out = fix_field_names(raw, &names(&["Front"]));
    assert_eq!(out.fields.to_pairs(), pairs(&[("Front", "first"), ("Frontt", "second")]));
    assert_eq!(out.fixes.len(), 1);
}

#[test]
fn second_misspelling_takes_the_next_free_name() {
    let raw = fields(&[("bat", "first"), ("cat", "second")]);
    let out = fix_field_names(raw, &names(&["hat", "mat"]));
    assert_eq!(out.fields.to_pairs(), pairs(&[("hat", "first"), ("mat", "second")]));
    assert_eq!(out.fixes.len(), 2);
}

#[test]
fn exact_name_overwrites_an_earlier_repair() {
    let raw = fields(&[("Fron", "guess"), ("Front", "exact")]);
    let out = fix_field_names(raw, &names(&["Front", "Back"]));
    assert_eq!(out.fields.to_pairs(), pairs(&[("Front", "exact")]));
    assert_eq!(out.fixes.len(), 1);
}

#[test]
fn empty_input_gives_empty_output() {
    let out = fix_field_names(CardFields::new(), &names(&["Front", "Back"]));
    assert_eq!(out.fields.len(), 0);
    assert!(out.fixes.is_empty());
}

#[test]
fn nothing_expected_keeps_every_name() {
    let raw = fields(&[("a", "1"), ("b", "2")]);
    let out = fix_field_names(raw, &[]);
    assert_eq!(out.fields.to_pairs(), pairs(&[("a", "1"), ("b", "2")]));
    assert!(out.fixes.is_empty());
}

#[test]
fn distance_counts_characters_not_bytes() {
    let raw = fields(&[("読み方", "x")]);
    let out = fix_field_names(raw, &names(&["読み"]));
    assert_eq!(out.fields.to_pairs(), pairs(&[("読み", "x")]));
    assert_eq!(out.fixes[0].distance, 1);
}

#[test]
fn closest_unfilled_reports_position_and_distance() {
    let filled = fields(&[("Front", "x")]);
    let expected = names(&["Front", "Back", "Notes"]);
    assert_eq!(find_closest_unfilled(&filled, "kitten", &names(&["sitting"])), Some((0, 3)));
    assert_eq!(find_closest_unfilled(&filled, "Bock", &expected), Some((1, 1)));
    assert_eq!(find_closest_unfilled(&filled, "Front", &names(&["Front"])), None);
    assert_eq!(find_closest_unfilled(&filled, "x", &[]), None);
}

#[test]
fn reconciled_names_are_distinct() {
    let raw = fields(&[("Fron", "a"), ("Front", "b"), ("Frontt", "c"), ("Bac", "d")]);
    let out = fix_field_names(raw, &names(&["Front", "Back"]));
    let keys = out.fields.keys();
    for i in 0..keys.len() {
        for j in (i + 1)..keys.len() {
            assert_ne!(keys[i], keys[j]);
        }
    }
    assert_eq!(out.fields.to_pairs(), pairs(&[("Front", "b"), ("Frontt", "c"), ("Back", "d")]));
}
