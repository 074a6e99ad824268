//! What is decided about the text generator's answer: how the stream of
//! its reply falls into lines, and which field map its answer holds.

use crate::errors::AppError;
use crate::fields::{as_map, collected, distinct_keys, CardFields, Entries};
use crate::text::{
    drop_blank, is_blank, lemma_split_has_piece, split, split_on, starts_with, trim, trimmed,
    without_blank, blank,
};
use std::collections::HashMap;
use vstd::prelude::*;

verus! {

/// `serde_json::Error`, the failure of reading or writing JSON. Nothing is
/// said of what it holds.
#[verifier::external_type_specification]
#[verifier::external_body]
pub struct ExJsonError(serde_json::Error);

/// The mapping that a JSON text stands for where it is one object whose
/// values are all strings, and `None` for any other text.
pub uninterp spec fn json_string_map(text: Seq<char>) -> Option<Map<Seq<char>, Seq<char>>>;

/// Calls `serde_json::from_str` for a map from strings to strings and hands
/// out the entries of the map in the order in which the map is walked. The
/// contract claims that the call succeeds on the texts for which
/// `json_string_map` has a value, that the entries are then those of that
/// mapping, and that no key comes twice. Of the order nothing is claimed.
#[verifier::external_body]
fn parse_string_map(text: &str) -> (parsed: Result<Vec<(String, String)>, serde_json::Error>)
    ensures
        match parsed {
            Ok(pairs) => distinct_keys(pairs.deep_view()) && json_string_map(text@) == Some(
                as_map(pairs.deep_view()),
            ),
            Err(_) => json_string_map(text@) is None,
        },
{
    match serde_json::from_str::<HashMap<String, String>>(text) {
        Ok(map) => Ok(map.into_iter().collect()),
        Err(error) => Err(error),
    }
}

/// Formats a `serde_json::Error` with its `Display` form: the message of the
/// failure with the line and column where it was met.
#[verifier::external_body]
fn json_error_text(error: &serde_json::Error) -> (text: String) {
    error.to_string()
}

/// The report of a reply whose status is not a success.
pub open spec fn bad_status_text(status: Seq<char>) -> Seq<char> {
    "Ollama returned status "@ + status
}

/// Whether the generator's reply may be read: it fails exactly when the
/// status of the reply is not a success, with the kind `Model` and the
/// status in the detail.
pub fn check_status(success: bool, status: &str) -> (verdict: Result<(), AppError>)
    ensures
        verdict is Ok <==> success,
        verdict matches Err(e) ==> e matches AppError::Model(detail) && detail@
            == bad_status_text(status@),
{
    if success {
        Ok(())
    } else {
        Err(AppError::Model(String::from_str("Ollama returned status ").concat(status)))
    }
}

/// The pairs with name and value trimmed.
pub open spec fn trimmed_pairs(pairs: Entries) -> Entries {
    Seq::new(pairs.len(), |i: int| (trimmed(pairs[i].0), trimmed(pairs[i].1)))
}

/// The field map of the given pairs: names and values are trimmed, and of
/// two pairs whose trimmed names are the same the later value stays.
pub fn normalize_fields(pairs: Vec<(String, String)>) -> (fields: CardFields)
    ensures
        fields.entries() == collected(trimmed_pairs(pairs.deep_view())),
{
    let ghost wanted = trimmed_pairs(pairs.deep_view());
    let mut fields = CardFields::new();
    let mut i: usize = 0;
    while i < pairs.len()
        invariant
            i <= pairs.len(),
            wanted == trimmed_pairs(pairs.deep_view()),
            fields.entries() == collected(wanted.take(i as int)),
        decreases pairs.len() - i,
    {
        assert(wanted.take(i + 1).drop_last() =~= wanted.take(i as int));
        assert(wanted.take(i + 1).last() == wanted[i as int]);
        assert(pairs.deep_view()[i as int] == (pairs[i as int].0@, pairs[i as int].1@));
        let name = trim(pairs[i].0.as_str());
        let value = trim(pairs[i].1.as_str());
        fields.insert(name, value);
        i = i + 1;
    }
    assert(wanted.take(pairs.len() as int) =~= wanted);
    fields
}

/// The field map that the generator's answer holds.
///
/// The answer is read as a JSON object with string values. It fails with
/// the kind `Parse` exactly when the text is no such object. Otherwise the
/// field map is that of the object's entries, normalized as
/// `normalize_fields` says, taken in some order.
pub fn parse_model_output(text: &str) -> (answer: Result<CardFields, AppError>)
    ensures
        answer is Ok <==> json_string_map(text@) is Some,
        answer matches Err(e) ==> e is Parse,
        answer matches Ok(fields) ==> exists|pairs: Entries|
            {
                &&& distinct_keys(pairs)
                &&& json_string_map(text@) == Some(as_map(pairs))
                &&& fields.entries() == collected(#[trigger] trimmed_pairs(pairs))
            },
{
    match parse_string_map(text) {
        Ok(pairs) => {
            let ghost found = pairs.deep_view();
            let fields = normalize_fields(pairs);
            assert(fields.entries() == collected(trimmed_pairs(found)));
            Ok(fields)
        },
        Err(error) => Err(AppError::Parse(json_error_text(&error))),
    }
}

/// The text of a reply that has arrived and is not yet a whole line.
pub struct LineBuffer {
    pending: String,
}

impl View for LineBuffer {
    type V = Seq<char>;

    closed spec fn view(&self) -> Seq<char> {
        self.pending@
    }
}

impl LineBuffer {
    /// A buffer that holds nothing.
    pub fn new() -> (buffer: Self)
        ensures
            buffer@ == Seq::<char>::empty(),
    {
        LineBuffer { pending: String::new() }
    }

    /// Takes the next part of the reply and hands out the lines that are now
    /// whole, without the blank ones. What follows the last line break stays
    /// in the buffer.
    pub fn feed(&mut self, chunk: &str) -> (lines: Vec<String>)
        ensures
            lines.deep_view() == without_blank(
                split_on(old(self)@ + chunk@, '\n').drop_last(),
            ),
            final(self)@ == split_on(old(self)@ + chunk@, '\n').last(),
    {
        self.pending.append(chunk);
        let mut pieces = split(self.pending.as_str(), '\n');
        proof {
            lemma_split_has_piece(self.pending@, '\n');
        }
        let ghost all = pieces.deep_view();
        let rest = pieces.pop();
        assert(pieces.deep_view() =~= all.drop_last());
        match rest {
            Some(rest) => {
                self.pending = rest;
            },
            None => {},
        }
        drop_blank(pieces.as_slice())
    }

    /// Ends the reply: what is left in the buffer, if it is not blank.
    pub fn finish(self) -> (rest: Option<String>)
        ensures
            match rest {
                Some(text) => text@ == self@ && !is_blank(self@),
                None => is_blank(self@),
            },
    {
        if blank(self.pending.as_str()) {
            None
        } else {
            Some(self.pending)
        }
    }
}

/// Whether a name in `models` begins with `name`.
pub open spec fn lists_model(models: Seq<Seq<char>>, name: Seq<char>) -> bool {
    exists|i: int| 0 <= i < models.len() && name.is_prefix_of(#[trigger] models[i])
}

/// Whether the generator offers the model: one of the names it lists begins
/// with `name`.
pub fn model_listed(models: &[String], name: &str) -> (listed: bool)
    ensures
        listed == lists_model(models.deep_view(), name@),
{
    let mut i: usize = 0;
    while i < models.len()
        invariant
            i <= models.len(),
            forall|j: int| 0 <= j < i ==> !name@.is_prefix_of(#[trigger] models.deep_view()[j]),
        decreases models.len() - i,
    {
        assert(models.deep_view()[i as int] == models[i as int]@);
        if starts_with(models[i].as_str(), name) {
            return true;
        }
        i = i + 1;
    }
    false
}

} // verus!
