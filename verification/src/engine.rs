//! The decisions between a generator's answer and the stored card: whether
//! the answer is accepted, under which label it enters the history, and how
//! a batch of items is accounted for.

use crate::errors::{failure_text, AppError};
use crate::fields::{lookup, names_of, CardFields, Entries};
use crate::reconcile::{fix_field_names, reconciled, substitutions, FuzzyFix, Reconciliation};
use crate::types::{CardRequest, StoredHistory};
use crate::validate::{validate_fields, validation, ValidationMode};
use vstd::prelude::*;

verus! {

/// The mode in which the fields of a request are judged.
pub open spec fn mode_of(optional_fields: bool) -> ValidationMode {
    if optional_fields {
        ValidationMode::Optional
    } else {
        ValidationMode::Strict
    }
}

/// What the assessment of an answer gives.
#[derive(Debug)]
pub struct Assessment {
    /// The names that were repaired, whether or not the answer is accepted.
    pub fixes: Vec<FuzzyFix>,
    /// The reconciled field map, or why it is not accepted.
    pub outcome: Result<CardFields, AppError>,
}

/// Reconciles the answer `raw` with the fields of the request and judges the
/// result.
///
/// The answer is accepted exactly when its reconciled form passes
/// validation in the request's mode; the outcome is then the reconciled
/// field map. Otherwise the failure is of the kind `Model` and its detail is
/// the text of the validation failure.
pub fn assess_fields(raw: CardFields, req: &CardRequest) -> (assessment: Assessment)
    ensures
        assessment.fixes.deep_view() == substitutions(raw.entries(), req.fields.deep_view()),
        match assessment.outcome {
            Ok(fields) => {
                &&& fields.entries() == reconciled(raw.entries(), req.fields.deep_view())
                &&& validation(
                    reconciled(raw.entries(), req.fields.deep_view()),
                    req.fields.deep_view(),
                    mode_of(req.optional_fields),
                ) is Ok
            },
            Err(e) => {
                &&& validation(
                    reconciled(raw.entries(), req.fields.deep_view()),
                    req.fields.deep_view(),
                    mode_of(req.optional_fields),
                ) matches Err(failure)
                &&& e matches AppError::Model(detail)
                &&& detail@ == failure_text(
                    failure,
                    names_of(reconciled(raw.entries(), req.fields.deep_view())),
                )
            },
        },
{
    let Reconciliation { fields, fixes } = fix_field_names(raw, req.fields.as_slice());
    let mode = ValidationMode::from_optional(req.optional_fields);
    match validate_fields(&fields, req.fields.as_slice(), mode) {
        Ok(()) => Assessment { fixes, outcome: Ok(fields) },
        Err(failure) => {
            let present = fields.keys();
            Assessment { fixes, outcome: Err(AppError::Model(failure.message(present.as_slice()))) }
        },
    }
}

/// The label under which a card enters the history: the value of the sort
/// field, the first expected name, where it is present and not empty, and
/// the fallback otherwise.
pub open spec fn label_of(fields: Entries, expected: Seq<Seq<char>>, fallback: Seq<char>) -> Seq<
    char,
> {
    if expected.len() > 0 && lookup(fields, expected[0]) is Some && lookup(
        fields,
        expected[0],
    )->0.len() > 0 {
        lookup(fields, expected[0])->0
    } else {
        fallback
    }
}

/// The label under which a card with the given fields enters the history.
pub fn history_label(fields: &CardFields, expected: &[String], fallback: &str) -> (label: String)
    ensures
        label@ == label_of(fields.entries(), expected.deep_view(), fallback@),
{
    if expected.len() > 0 {
        assert(expected.deep_view()[0] == expected[0]@);
        match fields.get(expected[0].as_str()) {
            Some(value) => {
                if !value.as_str().is_empty() {
                    return value.clone();
                }
            },
            None => {},
        }
    }
    String::from_str(fallback)
}

/// The request for one item of a batch: the request of the batch with the
/// item as its description.
pub fn item_request(req: &CardRequest, item: &str) -> (item_req: CardRequest)
    ensures
        item_req.description@ == item@,
        item_req.fields.deep_view() == req.fields.deep_view(),
        item_req.note_type@ == req.note_type@,
        item_req.deck@ == req.deck@,
        item_req.optional_fields == req.optional_fields,
{
    CardRequest {
        description: String::from_str(item),
        fields: req.fields.clone(),
        note_type: req.note_type.clone(),
        deck: req.deck.clone(),
        optional_fields: req.optional_fields,
    }
}

/// The state of a batch as a value of the model.
pub struct BatchView {
    /// The history, with the items that succeeded so far at its end.
    pub history: Seq<Seq<char>>,
    /// How many items succeeded.
    pub succeeded: nat,
    /// The items that failed, each with the text of its failure, in order.
    pub failures: Seq<(Seq<char>, Seq<char>)>,
}

/// The state of a batch after the item `item` ended with `failure`, or
/// succeeded where `failure` is `None`.
pub open spec fn after_item(state: BatchView, item: Seq<char>, failure: Option<Seq<char>>) -> BatchView {
    match failure {
        None => BatchView {
            history: state.history.push(item),
            succeeded: state.succeeded + 1,
            failures: state.failures,
        },
        Some(text) => BatchView {
            history: state.history,
            succeeded: state.succeeded,
            failures: state.failures.push((item, text)),
        },
    }
}

/// The state of a batch that began with `history`, after the given items
/// ended with the given outcomes, taken in order.
pub open spec fn after_items(
    history: Seq<Seq<char>>,
    items: Seq<Seq<char>>,
    outcomes: Seq<Option<Seq<char>>>,
) -> BatchView
    recommends
        items.len() == outcomes.len(),
    decreases items.len(),
{
    if items.len() == 0 {
        BatchView { history, succeeded: 0, failures: Seq::<(Seq<char>, Seq<char>)>::empty() }
    } else {
        after_item(
            after_items(history, items.drop_last(), outcomes.drop_last()),
            items.last(),
            outcomes.last(),
        )
    }
}

/// The items that succeeded, in order.
pub open spec fn succeeded_items(items: Seq<Seq<char>>, outcomes: Seq<Option<Seq<char>>>) -> Seq<
    Seq<char>,
>
    recommends
        items.len() == outcomes.len(),
    decreases items.len(),
{
    if items.len() == 0 {
        Seq::<Seq<char>>::empty()
    } else if outcomes.last() is None {
        succeeded_items(items.drop_last(), outcomes.drop_last()).push(items.last())
    } else {
        succeeded_items(items.drop_last(), outcomes.drop_last())
    }
}

/// After a batch the history is the one it began with followed by the items
/// that succeeded, in the order of the batch; every item is counted once, as
/// succeeded or as failed.
pub proof fn lemma_batch_accounts(
    history: Seq<Seq<char>>,
    items: Seq<Seq<char>>,
    outcomes: Seq<Option<Seq<char>>>,
)
    requires
        items.len() == outcomes.len(),
    ensures
        after_items(history, items, outcomes).history == history + succeeded_items(
            items,
            outcomes,
        ),
        after_items(history, items, outcomes).succeeded == succeeded_items(items, outcomes).len(),
        after_items(history, items, outcomes).succeeded + after_items(
            history,
            items,
            outcomes,
        ).failures.len() == items.len(),
    decreases items.len(),
{
    if items.len() == 0 {
        assert(history + succeeded_items(items, outcomes) =~= history);
    } else {
        lemma_batch_accounts(history, items.drop_last(), outcomes.drop_last());
        let before = succeeded_items(items.drop_last(), outcomes.drop_last());
        if outcomes.last() is None {
            assert((history + before).push(items.last()) =~= history + before.push(items.last()));
        }
    }
}

/// A batch in progress: the history, and the account of the items so far.
pub struct BatchRun {
    history: StoredHistory,
    succeeded: usize,
    failures: Vec<(String, String)>,
}

/// What a batch came to.
#[derive(Debug)]
pub struct BatchReport {
    /// The history to be stored.
    pub history: StoredHistory,
    /// How many items succeeded.
    pub succeeded: usize,
    /// How many items failed.
    pub failed: usize,
    /// The items that failed, each with the text of its failure.
    pub failures: Vec<(String, String)>,
    /// Whether the batch as a whole succeeded: it fails where no item did.
    pub outcome: Result<(), AppError>,
}

impl View for BatchRun {
    type V = BatchView;

    closed spec fn view(&self) -> BatchView {
        BatchView {
            history: self.history@,
            succeeded: self.succeeded as nat,
            failures: self.failures.deep_view(),
        }
    }
}

impl BatchRun {
    /// Every item that succeeded is in the history.
    #[verifier::type_invariant]
    spec fn successes_are_in_history(&self) -> bool {
        self.succeeded <= self.history@.len()
    }

    /// A batch that begins with the given history and no item yet.
    pub fn start(history: StoredHistory) -> (run: Self)
        ensures
            run@ == (BatchView {
                history: history@,
                succeeded: 0,
                failures: Seq::<(Seq<char>, Seq<char>)>::empty(),
            }),
    {
        let run = BatchRun { history, succeeded: 0, failures: Vec::new() };
        assert(run.failures.deep_view() =~= Seq::<(Seq<char>, Seq<char>)>::empty());
        run
    }

    /// The batch after `item` ended with `outcome`. A success puts the item
    /// at the end of the history; a failure is noted with its text and
    /// leaves the history as it is.
    pub fn record(self, item: &str, outcome: Result<(), AppError>) -> (run: Self)
        ensures
            run@ == after_item(
                self@,
                item@,
                match outcome {
                    Ok(()) => None,
                    Err(e) => Some(e.text()),
                },
            ),
    {
        proof {
            use_type_invariant(&self);
        }
        let ghost before = self@;
        let BatchRun { mut history, succeeded, mut failures } = self;
        match outcome {
            Ok(()) => {
                history.append(String::from_str(item));
                let stored: usize = history.len();
                assert(succeeded < stored);
                BatchRun { history, succeeded: succeeded + 1, failures }
            },
            Err(e) => {
                let text = e.message();
                failures.push((String::from_str(item), text));
                assert(failures.deep_view() =~= before.failures.push((item@, e.text())));
                BatchRun { history, succeeded, failures }
            },
        }
    }

    /// How many items succeeded so far.
    pub fn succeeded(&self) -> (n: usize)
        ensures
            n == self@.succeeded,
    {
        self.succeeded
    }

    /// How many items failed so far.
    pub fn failed(&self) -> (n: usize)
        ensures
            n == self@.failures.len(),
    {
        self.failures.len()
    }

    /// Ends the batch. The batch as a whole fails exactly when no item
    /// succeeded, also where there was no item at all.
    pub fn finish(self) -> (report: BatchReport)
        ensures
            report.history@ == self@.history,
            report.succeeded == self@.succeeded,
            report.failed == self@.failures.len(),
            report.failures.deep_view() == self@.failures,
            report.outcome is Err <==> self@.succeeded == 0,
            report.outcome matches Err(e) ==> e matches AppError::Model(detail) && detail@
                == "All batch items failed"@,
    {
        let BatchRun { history, succeeded, failures } = self;
        let failed: usize = failures.len();
        let outcome = if succeeded == 0 {
            Err(AppError::Model(String::from_str("All batch items failed")))
        } else {
            Ok(())
        };
        BatchReport { history, succeeded, failed, failures, outcome }
    }
}

} // verus!
