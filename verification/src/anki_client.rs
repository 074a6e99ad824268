//! What is decided about the flashcard store: whether a deck, a note type
//! and field names are known to it, and which fields a new note carries.

use crate::errors::AppError;
use crate::fields::{collected, lookup, CardFields, Entries};
use crate::text::{contains_name, join, joined};
use vstd::prelude::*;

verus! {

/// How a list of names is shown in the report of unknown fields: as the
/// debug form of a list of strings.
pub uninterp spec fn debug_list(names: Seq<Seq<char>>) -> Seq<char>;

/// Formats a list of strings with `{:?}`, the `Debug` form of `Vec<String>`:
/// the items, each quoted and escaped, between square brackets. The contract
/// gives that text the name `debug_list`.
#[verifier::external_body]
fn format_debug_list(names: &Vec<String>) -> (text: String)
    ensures
        text@ == debug_list(names.deep_view()),
{
    format!("{:?}", names)
}

/// The failure that the store reported, if it reported one.
pub fn check_reply(error: Option<String>) -> (verdict: Result<(), AppError>)
    ensures
        match error {
            None => verdict is Ok,
            Some(text) => verdict matches Err(AppError::Anki(detail)) && detail@ == text@,
        },
{
    match error {
        None => Ok(()),
        Some(text) => Err(AppError::Anki(text)),
    }
}

/// The report of a deck that the store does not have.
pub open spec fn unknown_deck_text(deck: Seq<char>, decks: Seq<Seq<char>>) -> Seq<char> {
    "Deck '"@ + deck + "' not found. Available: "@ + joined(decks, ", "@)
}

/// The report of a note type that the store does not have.
pub open spec fn unknown_note_type_text(note_type: Seq<char>, models: Seq<Seq<char>>) -> Seq<
    char,
> {
    "Note type '"@ + note_type + "' not found. Available: "@ + joined(models, ", "@)
}

/// The report of field names that the note type does not have.
pub open spec fn unknown_fields_text(
    unknown: Seq<Seq<char>>,
    note_type: Seq<char>,
    model_fields: Seq<Seq<char>>,
) -> Seq<char> {
    "Fields "@ + debug_list(unknown) + " not found in note type '"@ + note_type
        + "'. Available fields: "@ + joined(model_fields, ", "@)
}

/// The names among `wanted` that are not among `known`, in order.
pub open spec fn unknown_names(wanted: Seq<Seq<char>>, known: Seq<Seq<char>>) -> Seq<Seq<char>>
    decreases wanted.len(),
{
    if wanted.len() == 0 {
        Seq::<Seq<char>>::empty()
    } else {
        let before = unknown_names(wanted.drop_last(), known);
        if known.contains(wanted.last()) {
            before
        } else {
            before.push(wanted.last())
        }
    }
}

/// Whether the store has the deck: it fails exactly when `deck` is not among
/// `decks`.
pub fn check_deck(decks: &[String], deck: &str) -> (verdict: Result<(), AppError>)
    ensures
        verdict is Ok <==> decks.deep_view().contains(deck@),
        verdict matches Err(e) ==> e matches AppError::Anki(detail) && detail@
            == unknown_deck_text(deck@, decks.deep_view()),
{
    if contains_name(decks, deck) {
        Ok(())
    } else {
        let mut text = String::from_str("Deck '");
        text.append(deck);
        text.append("' not found. Available: ");
        let available = join(decks, ", ");
        text.append(available.as_str());
        Err(AppError::Anki(text))
    }
}

/// Whether the store has the note type: it fails exactly when `note_type` is
/// not among `models`.
pub fn check_note_type(models: &[String], note_type: &str) -> (verdict: Result<(), AppError>)
    ensures
        verdict is Ok <==> models.deep_view().contains(note_type@),
        verdict matches Err(e) ==> e matches AppError::Anki(detail) && detail@
            == unknown_note_type_text(note_type@, models.deep_view()),
{
    if contains_name(models, note_type) {
        Ok(())
    } else {
        let mut text = String::from_str("Note type '");
        text.append(note_type);
        text.append("' not found. Available: ");
        let available = join(models, ", ");
        text.append(available.as_str());
        Err(AppError::Anki(text))
    }
}

/// The names among `fields` that the note type does not have.
pub fn find_unknown(fields: &[String], model_fields: &[String]) -> (unknown: Vec<String>)
    ensures
        unknown.deep_view() == unknown_names(fields.deep_view(), model_fields.deep_view()),
{
    let mut unknown: Vec<String> = Vec::new();
    let mut i: usize = 0;
    while i < fields.len()
        invariant
            i <= fields.len(),
            unknown.deep_view() == unknown_names(
                fields.deep_view().take(i as int),
                model_fields.deep_view(),
            ),
        decreases fields.len() - i,
    {
        let ghost upto = fields.deep_view().take(i + 1);
        let ghost before = unknown.deep_view();
        assert(upto.drop_last() =~= fields.deep_view().take(i as int));
        assert(upto.last() == fields[i as int]@);
        if !contains_name(model_fields, fields[i].as_str()) {
            unknown.push(fields[i].clone());
            assert(unknown.deep_view() =~= before.push(upto.last()));
        }
        i = i + 1;
    }
    assert(fields.deep_view().take(fields.len() as int) =~= fields.deep_view());
    unknown
}

/// Whether the note type has all the fields asked for: it fails exactly when
/// one of `fields` is not among `model_fields`.
pub fn check_fields(fields: &[String], model_fields: &[String], note_type: &str) -> (verdict:
    Result<(), AppError>)
    ensures
        verdict is Ok <==> unknown_names(fields.deep_view(), model_fields.deep_view()).len()
            == 0,
        verdict matches Err(e) ==> e matches AppError::Anki(detail) && detail@
            == unknown_fields_text(
            unknown_names(fields.deep_view(), model_fields.deep_view()),
            note_type@,
            model_fields.deep_view(),
        ),
{
    let unknown = find_unknown(fields, model_fields);
    if unknown.len() == 0 {
        Ok(())
    } else {
        let mut text = String::from_str("Fields ");
        let shown = format_debug_list(&unknown);
        text.append(shown.as_str());
        text.append(" not found in note type '");
        text.append(note_type);
        text.append("'. Available fields: ");
        let available = join(model_fields, ", ");
        text.append(available.as_str());
        Err(AppError::Anki(text))
    }
}

/// The sort field of the note type, its first field, where the fields asked
/// for do not include it: it will then be left empty.
pub open spec fn uncovered_sort_field(model_fields: Seq<Seq<char>>, fields: Seq<Seq<char>>) -> Option<
    Seq<char>,
> {
    if model_fields.len() > 0 && !fields.contains(model_fields[0]) {
        Some(model_fields[0])
    } else {
        None
    }
}

/// The sort field of the note type where the fields asked for do not include
/// it.
pub fn find_uncovered_sort_field(model_fields: &[String], fields: &[String]) -> (sort_field: Option<
    String,
>)
    ensures
        match sort_field {
            Some(name) => uncovered_sort_field(model_fields.deep_view(), fields.deep_view())
                == Some(name@),
            None => uncovered_sort_field(model_fields.deep_view(), fields.deep_view()) is None,
        },
{
    if model_fields.len() > 0 {
        assert(model_fields.deep_view()[0] == model_fields[0]@);
        if !contains_name(fields, model_fields[0].as_str()) {
            return Some(model_fields[0].clone());
        }
    }
    None
}

/// Each field of the note type with its value in `fields`, or with the empty
/// text where `fields` has none.
pub open spec fn defaulted(fields: Entries, model_fields: Seq<Seq<char>>) -> Entries {
    Seq::new(
        model_fields.len(),
        |i: int|
            (
                model_fields[i],
                match lookup(fields, model_fields[i]) {
                    Some(value) => value,
                    None => Seq::<char>::empty(),
                },
            ),
    )
}

/// The fields of a new note: every field of the note type, with the value
/// from `fields` or empty. Names of `fields` that the note type does not have
/// are left out.
pub fn note_fields(fields: &CardFields, all_model_fields: &[String]) -> (full: CardFields)
    ensures
        full.entries() == collected(defaulted(fields.entries(), all_model_fields.deep_view())),
{
    let ghost wanted = defaulted(fields.entries(), all_model_fields.deep_view());
    let mut full = CardFields::new();
    let mut i: usize = 0;
    while i < all_model_fields.len()
        invariant
            i <= all_model_fields.len(),
            wanted == defaulted(fields.entries(), all_model_fields.deep_view()),
            full.entries() == collected(wanted.take(i as int)),
        decreases all_model_fields.len() - i,
    {
        assert(wanted.take(i + 1).drop_last() =~= wanted.take(i as int));
        assert(wanted.take(i + 1).last() == wanted[i as int]);
        assert(all_model_fields.deep_view()[i as int] == all_model_fields[i as int]@);
        let value = match fields.get(all_model_fields[i].as_str()) {
            Some(value) => value.clone(),
            None => String::new(),
        };
        full.insert(all_model_fields[i].clone(), value);
        i = i + 1;
    }
    assert(wanted.take(all_model_fields.len() as int) =~= wanted);
    full
}

} // verus!
