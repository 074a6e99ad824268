use anki_gen::errors::{AppError, ValidationError};
use anki_gen::fields::CardFields;
use anki_gen::validate::{validate_fields, ValidationMode};

fn names(items: &[&str]) -> Vec<String> {
    items.iter().map(|s| s.to_string()).collect()
}

fn fields(pairs: &[(&str, &str)]) -> CardFields {
    CardFields::from_pairs(pairs.iter().map(|(k, v)| (k.to_string(), v.to_string())).collect())
}

#[test]
fn strict_reports_the_missing_names() {
    let verdict =
        validate_fields(&fields(&[("Front", "x")]), &names(&["Front", "Back"]), ValidationMode::Strict);
    assert_eq!(verdict, Err(ValidationError::MissingFields(names(&["Back"]))));
}

#[test]
fn strict_reports_all_missing_names_in_order() {
    let verdict = validate_fields(
        &fields(&[("Other", "x")]),
        &names(&["Front", "Back", "Notes"]),
        ValidationMode::Strict,
    );
    assert_eq!(verdict, Err(ValidationError::MissingFields(names(&["Front", "Back", "Notes"]))));
}

#[test]
fn strict_accepts_filled_fields() {
    let verdict = validate_fields(
        &fields(&[("Front", "x"), ("Back", "y")]),
        &names(&["Front", "Back"]),
        ValidationMode::Strict,
    );
    assert_eq!(verdict, Ok(()));
}

#[test]
fn strict_rejects_fields_that_are_all_empty() {
    let verdict = validate_fields(
        &fields(&[("Front", ""), ("Back", "")]),
        &names(&["Front", "Back"]),
        ValidationMode::Strict,
    );
    assert_eq!(verdict, Err(ValidationError::AllFieldsEmpty));
}

#[test]
fn strict_accepts_some_empty_fields() {
    let verdict = validate_fields(
        &fields(&[("Front", ""), ("Back", "y")]),
        &names(&["Front", "Back"]),
        ValidationMode::Strict,
    );
    assert_eq!(verdict, Ok(()));
}

#[test]
fn strict_takes_white_space_for_content() {
    let verdict = validate_fields(
        &fields(&[("Front", " "), ("Back", "")]),
        &names(&["Front", "Back"]),
        ValidationMode::Strict,
    );
    assert_eq!(verdict, Ok(()));
}

#[test]
fn strict_ignores_names_that_are_not_expected() {
    let verdict = validate_fields(
        &fields(&[("Front", ""), ("Extra", "y")]),
        &names(&["Front"]),
        ValidationMode::Strict,
    );
    assert_eq!(verdict, Err(ValidationError::AllFieldsEmpty));
}

#[test]
fn strict_with_nothing_expected_is_all_empty() {
    let verdict = validate_fields(&fields(&[("Front", "x")]), &[], ValidationMode::Strict);
    assert_eq!(verdict, Err(ValidationError::AllFieldsEmpty));
}

#[test]
fn optional_rejects_an_empty_value() {
    let verdict =
        validate_fields(&fields(&[("Front", "")]), &names(&["Front", "Back"]), ValidationMode::Optional);
    assert_eq!(verdict, Err(ValidationError::NoContent));
}

#[test]
fn optional_accepts_content_under_any_name() {
    let verdict =
        validate_fields(&fields(&[("Extra", "y")]), &names(&["Front", "Back"]), ValidationMode::Optional);
    assert_eq!(verdict, Ok(()));
}

#[test]
fn optional_rejects_white_space_only() {
    let verdict = validate_fields(
        &fields(&[("Front", " \t\n"), ("Back", "\u{3000}")]),
        &names(&["Front", "Back"]),
        ValidationMode::Optional,
    );
    assert_eq!(verdict, Err(ValidationError::NoContent));
}

#[test]
fn optional_rejects_an_empty_map() {
    let verdict = validate_fields(&CardFields::new(), &names(&["Front"]), ValidationMode::Optional);
    assert_eq!(verdict, Err(ValidationError::NoContent));
}

#[test]
fn mode_follows_the_flag() {
    assert_eq!(ValidationMode::from_optional(true), ValidationMode::Optional);
    assert_eq!(ValidationMode::from_optional(false), ValidationMode::Strict);
}

#[test]
fn failures_have_their_texts() {
    let present = names(&["Front", "Extra"]);
    assert_eq!(
        ValidationError::MissingFields(names(&["Back", "Notes"])).message(&present),
        "Model response missing fields: Back, Notes. Got: Front, Extra"
    );
    assert_eq!(ValidationError::AllFieldsEmpty.message(&present), "Model returned all empty fields");
    assert_eq!(
        ValidationError::NoContent.message(&present),
        "Model returned no content in any field"
    );
}

#[test]
fn errors_have_their_texts() {
    assert_eq!(AppError::Network("down".to_string()).message(), "Network error: down");
    assert_eq!(AppError::Parse("bad".to_string()).message(), "JSON parse error: bad");
    assert_eq!(AppError::Anki("no deck".to_string()).message(), "AnkiConnect error: no deck");
    assert_eq!(AppError::Storage("denied".to_string()).message(), "Storage error: denied");
    assert_eq!(AppError::Model("empty".to_string()).message(), "Model error: empty");
}
