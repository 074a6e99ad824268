use anki_gen::engine::{history_label, item_request, assess_fields, BatchRun};
use anki_gen::errors::AppError;
use anki_gen::fields::CardFields;
use anki_gen::storage::{FileStorage, LoadPlan};
use anki_gen::types::{CardRequest, StoredHistory};
use std::path::PathBuf;

fn names(items: &[&str]) -> Vec<String> {
    items.iter().map(|s| s.to_string()).collect()
}

fn fields(pairs: &[(&str, &str)]) -> CardFields {
    CardFields::from_pairs(pairs.iter().map(|(k, v)| (k.to_string(), v.to_string())).collect())
}

fn request(optional_fields: bool) -> CardRequest {
    CardRequest {
        description: "JLPT N3 grammar".to_string(),
        fields: names(&["Front", "Back"]),
        note_type: "Basic".to_string(),
        deck: "Japanese".to_string(),
        optional_fields,
    }
}

#[test]
fn accepted_answer_is_reconciled() {
    let assessment = assess_fields(fields(&[("Frnt", "x"), ("Back", "y")]), &request(false));
    assert_eq!(
        assessment.outcome.unwrap().to_pairs(),
        vec![("Front".to_string(), "x".to_string()), ("Back".to_string(), "y".to_string())]
    );
    assert_eq!(assessment.fixes.len(), 1);
}

#[test]
fn rejected_answer_names_what_is_missing() {
    let assessment = assess_fields(fields(&[("Front", "x"), ("Zzzzzz", "y")]), &request(false));
    assert!(assessment.fixes.is_empty());
    assert_eq!(
        assessment.outcome.err(),
        Some(AppError::Model(
            "Model response missing fields: Back. Got: Front, Zzzzzz".to_string()
        ))
    );
}

#[test]
fn rejected_answer_still_reports_its_repairs() {
    let assessment = assess_fields(fields(&[("Frnt", "")]), &request(false));
    assert_eq!(assessment.fixes.len(), 1);
    assert_eq!(assessment.fixes[0].to, "Front");
    assert_eq!(
        assessment.outcome.err(),
        Some(AppError::Model("Model response missing fields: Back. Got: Front".to_string()))
    );
}

#[test]
fn optional_request_accepts_a_partial_answer() {
    let accepted = assess_fields(fields(&[("Front", "x")]), &request(true)).outcome.unwrap();
    assert_eq!(accepted.to_pairs(), vec![("Front".to_string(), "x".to_string())]);
    let assessment = assess_fields(fields(&[("Front", " ")]), &request(true));
    assert_eq!(
        assessment.outcome.err(),
        Some(AppError::Model("Model returned no content in any field".to_string()))
    );
}

#[test]
fn label_is_the_sort_field() {
    let card = fields(&[("Back", "to read"), ("Front", "読む")]);
    assert_eq!(history_label(&card, &names(&["Front", "Back"]), "verbs"), "読む");
}

#[test]
fn label_falls_back_when_the_sort_field_is_missing() {
    let card = fields(&[("Back", "to read")]);
    assert_eq!(history_label(&card, &names(&["Front", "Back"]), "verbs"), "verbs");
}

#[test]
fn label_falls_back_when_the_sort_field_is_empty() {
    let card = fields(&[("Front", ""), ("Back", "to read")]);
    assert_eq!(history_label(&card, &names(&["Front", "Back"]), "verbs"), "verbs");
}

#[test]
fn label_falls_back_when_nothing_is_expected() {
    let card = fields(&[("Front", "読む")]);
    assert_eq!(history_label(&card, &[], "verbs"), "verbs");
}

#[test]
fn history_only_grows() {
    let mut history = StoredHistory::default();
    assert_eq!(history.len(), 0);
    history.append("a".to_string());
    history.append("b".to_string());
    history.append("a".to_string());
    assert_eq!(history.used_items, names(&["a", "b", "a"]));
    assert_eq!(history.len(), 3);
}

#[test]
fn item_request_takes_the_item_for_description() {
    let req = item_request(&request(true), "〜ために");
    assert_eq!(req.description, "〜ために");
    assert_eq!(req.fields, names(&["Front", "Back"]));
    assert_eq!(req.note_type, "Basic");
    assert_eq!(req.deck, "Japanese");
    assert!(req.optional_fields);
}

#[test]
fn batch_with_one_failure_keeps_the_others() {
    let req = request(false);
    let items = names(&["one", "two", "three"]);
    let answers = vec![
        fields(&[("Front", "1"), ("Back", "eins")]),
        fields(&[("Front", "2")]),
        fields(&[("Front", "3"), ("Back", "drei")]),
    ];
    let mut history = StoredHistory::default();
    history.append("zero".to_string());
    let mut run = BatchRun::start(history);
    for (item, answer) in items.iter().zip(answers) {
        let outcome = assess_fields(answer, &item_request(&req, item)).outcome.map(|_| ());
        run = run.record(item, outcome);
    }
    assert_eq!(run.succeeded(), 2);
    assert_eq!(run.failed(), 1);
    let report = run.finish();
    assert_eq!(report.succeeded, 2);
    assert_eq!(report.failed, 1);
    assert_eq!(report.history.used_items, names(&["zero", "one", "three"]));
    assert_eq!(
        report.failures,
        vec![(
            "two".to_string(),
            "Model error: Model response missing fields: Back. Got: Front".to_string()
        )]
    );
    assert_eq!(report.outcome, Ok(()));
}

#[test]
fn batch_without_success_fails() {
    let mut run = BatchRun::start(StoredHistory::default());
    run = run.record("one", Err(AppError::Network("unreachable".to_string())));
    run = run.record("two", Err(AppError::Anki("duplicate".to_string())));
    let report = run.finish();
    assert_eq!(report.succeeded, 0);
    assert_eq!(report.failed, 2);
    assert!(report.history.used_items.is_empty());
    assert_eq!(
        report.failures,
        vec![
            ("one".to_string(), "Network error: unreachable".to_string()),
            ("two".to_string(), "AnkiConnect error: duplicate".to_string()),
        ]
    );
    assert_eq!(report.outcome, Err(AppError::Model("All batch items failed".to_string())));
}

#[test]
fn batch_without_items_fails() {
    let report = BatchRun::start(StoredHistory::default()).finish();
    assert_eq!(report.succeeded, 0);
    assert_eq!(report.failed, 0);
    assert_eq!(report.outcome, Err(AppError::Model("All batch items failed".to_string())));
}

#[test]
fn missing_or_blank_storage_is_an_empty_history() {
    assert_eq!(FileStorage::plan_load(None), LoadPlan::Empty);
    assert_eq!(FileStorage::plan_load(Some("")), LoadPlan::Empty);
    assert_eq!(FileStorage::plan_load(Some(" \n\t ")), LoadPlan::Empty);
}

#[test]
fn stored_text_is_parsed_even_if_malformed() {
    assert_eq!(FileStorage::plan_load(Some("{\"used_items\": []}")), LoadPlan::Parse);
    assert_eq!(FileStorage::plan_load(Some("not json")), LoadPlan::Parse);
}

#[test]
fn storage_keeps_its_path() {
    let storage = FileStorage::new(PathBuf::from("storage/used_grammar.json"));
    assert_eq!(storage.location(), &PathBuf::from("storage/used_grammar.json"));
}
