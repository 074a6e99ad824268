//! Field validation: whether a field map may be stored.

use crate::errors::{ValidationError, ValidationFailure};
use crate::fields::{has_key, lookup, CardFields, Entries};
use crate::text::{blank, is_blank};
use vstd::prelude::*;

verus! {

/// How strictly a field map is judged.
#[derive(Clone, Copy, Debug, PartialEq, Eq, Structural)]
pub enum ValidationMode {
    /// Every expected name must be present, and not all of them empty.
    Strict,
    /// Some value must have content.
    Optional,
}

impl ValidationMode {
    /// `Optional` where fields may be left out, `Strict` where not.
    pub fn from_optional(optional_fields: bool) -> (mode: Self)
        ensures
            mode == (if optional_fields {
                ValidationMode::Optional
            } else {
                ValidationMode::Strict
            }),
    {
        if optional_fields {
            ValidationMode::Optional
        } else {
            ValidationMode::Strict
        }
    }
}

/// The expected names that have no entry, in the order of `expected`.
pub open spec fn missing_names(fields: Entries, expected: Seq<Seq<char>>) -> Seq<Seq<char>>
    decreases expected.len(),
{
    if expected.len() == 0 {
        Seq::<Seq<char>>::empty()
    } else {
        let before = missing_names(fields, expected.drop_last());
        if has_key(fields, expected.last()) {
            before
        } else {
            before.push(expected.last())
        }
    }
}

/// No expected name has a value that is not empty.
pub open spec fn all_expected_empty(fields: Entries, expected: Seq<Seq<char>>) -> bool {
    forall|i: int|
        0 <= i < expected.len() ==> (#[trigger] lookup(fields, expected[i]) matches Some(v)
            ==> v.len() == 0)
}

/// No value holds anything but white space.
pub open spec fn no_content(fields: Entries) -> bool {
    forall|i: int| 0 <= i < fields.len() ==> is_blank((#[trigger] fields[i]).1)
}

/// The judgement on a field map.
pub open spec fn validation(fields: Entries, expected: Seq<Seq<char>>, mode: ValidationMode) -> Result<
    (),
    ValidationFailure,
> {
    match mode {
        ValidationMode::Optional => if no_content(fields) {
            Err(ValidationFailure::NoContent)
        } else {
            Ok(())
        },
        ValidationMode::Strict => if missing_names(fields, expected).len() > 0 {
            Err(ValidationFailure::MissingFields(missing_names(fields, expected)))
        } else if all_expected_empty(fields, expected) {
            Err(ValidationFailure::AllFieldsEmpty)
        } else {
            Ok(())
        },
    }
}

/// A name is missing exactly when it is expected and has no entry.
pub proof fn lemma_missing_names(fields: Entries, expected: Seq<Seq<char>>)
    ensures
        forall|name: Seq<char>| #[trigger]
            missing_names(fields, expected).contains(name) <==> expected.contains(name)
                && !has_key(fields, name),
        missing_names(fields, expected).len() == 0 <==> forall|i: int|
            0 <= i < expected.len() ==> has_key(fields, #[trigger] expected[i]),
    decreases expected.len(),
{
    let missing = missing_names(fields, expected);
    if expected.len() > 0 {
        let init = expected.drop_last();
        let before = missing_names(fields, init);
        lemma_missing_names(fields, init);
        assert forall|name: Seq<char>| #[trigger]
            missing.contains(name) <==> expected.contains(name) && !has_key(fields, name) by {
            if missing.contains(name) {
                let at = choose|at: int| 0 <= at < missing.len() && missing[at] == name;
                if at < before.len() {
                    assert(before[at] == name);
                    assert(before.contains(name));
                    let p = choose|p: int| 0 <= p < init.len() && init[p] == name;
                    assert(expected[p] == name);
                } else {
                    assert(expected[expected.len() - 1] == name);
                }
            }
            if expected.contains(name) && !has_key(fields, name) {
                let p = choose|p: int| 0 <= p < expected.len() && expected[p] == name;
                if p < init.len() {
                    assert(init[p] == name);
                    assert(init.contains(name));
                    assert(before.contains(name));
                    let at = choose|at: int| 0 <= at < before.len() && before[at] == name;
                    assert(missing[at] == name);
                } else {
                    assert(missing[missing.len() - 1] == name);
                }
            }
        }
        if missing.len() == 0 {
            assert forall|i: int| 0 <= i < expected.len() implies has_key(
                fields,
                #[trigger] expected[i],
            ) by {
                if i < init.len() {
                    assert(init[i] == expected[i]);
                }
            }
        } else if forall|i: int| 0 <= i < expected.len() ==> has_key(fields, #[trigger] expected[i]) {
            assert(has_key(fields, expected[expected.len() - 1]));
            assert forall|i: int| 0 <= i < init.len() implies has_key(fields, #[trigger] init[i]) by {
                assert(init[i] == expected[i]);
            }
        }
    }
}

/// The expected names that have no entry in `fields`.
pub fn find_missing(fields: &CardFields, expected: &[String]) -> (missing: Vec<String>)
    ensures
        missing.deep_view() == missing_names(fields.entries(), expected.deep_view()),
{
    let mut missing: Vec<String> = Vec::new();
    let mut i: usize = 0;
    while i < expected.len()
        invariant
            i <= expected.len(),
            missing.deep_view() == missing_names(
                fields.entries(),
                expected.deep_view().take(i as int),
            ),
        decreases expected.len() - i,
    {
        let ghost upto = expected.deep_view().take(i + 1);
        let ghost before = missing.deep_view();
        assert(upto.drop_last() =~= expected.deep_view().take(i as int));
        assert(upto.last() == expected[i as int]@);
        if !fields.contains_key(expected[i].as_str()) {
            missing.push(expected[i].clone());
            assert(missing.deep_view() =~= before.push(upto.last()));
        }
        i = i + 1;
    }
    assert(expected.deep_view().take(expected.len() as int) =~= expected.deep_view());
    missing
}

/// Whether no expected name has a value that is not empty.
pub fn expected_all_empty(fields: &CardFields, expected: &[String]) -> (empty: bool)
    ensures
        empty == all_expected_empty(fields.entries(), expected.deep_view()),
{
    let ghost names = expected.deep_view();
    let mut i: usize = 0;
    while i < expected.len()
        invariant
            i <= expected.len(),
            names == expected.deep_view(),
            forall|j: int|
                0 <= j < i ==> (#[trigger] lookup(fields.entries(), names[j]) matches Some(v)
                    ==> v.len() == 0),
        decreases expected.len() - i,
    {
        assert(names[i as int] == expected[i as int]@);
        match fields.get(expected[i].as_str()) {
            Some(value) => {
                if !value.as_str().is_empty() {
                    assert(lookup(fields.entries(), names[i as int]) == Some(value@));
                    return false;
                }
            },
            None => {},
        }
        i = i + 1;
    }
    true
}

/// Whether no value of `fields` holds anything but white space.
pub fn has_no_content(fields: &CardFields) -> (none: bool)
    ensures
        none == no_content(fields.entries()),
{
    let total: usize = fields.len();
    let mut i: usize = 0;
    while i < total
        invariant
            i <= total,
            total == fields.entries().len(),
            forall|j: int| 0 <= j < i ==> is_blank((#[trigger] fields.entries()[j]).1),
        decreases total - i,
    {
        if !blank(fields.value(i).as_str()) {
            assert(!is_blank(fields.entries()[i as int].1));
            return false;
        }
        i = i + 1;
    }
    true
}

/// Judges `fields` against the `expected` names.
///
/// In strict mode the field map fails with the missing names if an expected
/// name has no entry, and with `AllFieldsEmpty` if all expected names are
/// present with empty values; some empty values among others are accepted.
/// In optional mode it fails with `NoContent` if no value at all, under an
/// expected name or any other, holds more than white space.
pub fn validate_fields(fields: &CardFields, expected: &[String], mode: ValidationMode) -> (verdict:
    Result<(), ValidationError>)
    ensures
        match verdict {
            Ok(()) => validation(fields.entries(), expected.deep_view(), mode) is Ok,
            Err(e) => validation(fields.entries(), expected.deep_view(), mode) == Err::<
                (),
                ValidationFailure,
            >(e.deep_view()),
        },
{
    match mode {
        ValidationMode::Optional => {
            if has_no_content(fields) {
                Err(ValidationError::NoContent)
            } else {
                Ok(())
            }
        },
        ValidationMode::Strict => {
            let missing = find_missing(fields, expected);
            if missing.len() > 0 {
                Err(ValidationError::MissingFields(missing))
            } else if expected_all_empty(fields, expected) {
                Err(ValidationError::AllFieldsEmpty)
            } else {
                Ok(())
            }
        },
    }
}

} // verus!
