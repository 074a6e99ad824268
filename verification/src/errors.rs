//! The failures the library reports.

use crate::text::{join, joined};
use vstd::prelude::*;

verus! {

/// Why a field map was not accepted, as a value of the model.
pub enum ValidationFailure {
    /// These expected names have no entry.
    MissingFields(Seq<Seq<char>>),
    /// Every expected name has an empty value.
    AllFieldsEmpty,
    /// No value holds anything but white space.
    NoContent,
}

/// Why a field map was not accepted.
#[derive(Clone, Debug, PartialEq, Eq)]
pub enum ValidationError {
    /// These expected names have no entry.
    MissingFields(Vec<String>),
    /// Every expected name has an empty value.
    AllFieldsEmpty,
    /// No value holds anything but white space.
    NoContent,
}

impl DeepView for ValidationError {
    type V = ValidationFailure;

    open spec fn deep_view(&self) -> ValidationFailure {
        match self {
            ValidationError::MissingFields(names) => ValidationFailure::MissingFields(
                names.deep_view(),
            ),
            ValidationError::AllFieldsEmpty => ValidationFailure::AllFieldsEmpty,
            ValidationError::NoContent => ValidationFailure::NoContent,
        }
    }
}

/// The text that reports `failure` for a field map with the names `present`.
pub open spec fn failure_text(failure: ValidationFailure, present: Seq<Seq<char>>) -> Seq<char> {
    match failure {
        ValidationFailure::MissingFields(names) => "Model response missing fields: "@ + joined(
            names,
            ", "@,
        ) + ". Got: "@ + joined(present, ", "@),
        ValidationFailure::AllFieldsEmpty => "Model returned all empty fields"@,
        ValidationFailure::NoContent => "Model returned no content in any field"@,
    }
}

impl ValidationError {
    /// The text that reports this failure for a field map with the names
    /// `present`.
    pub fn message(&self, present: &[String]) -> (text: String)
        ensures
            text@ == failure_text(self.deep_view(), present.deep_view()),
    {
        match self {
            ValidationError::MissingFields(names) => {
                let mut text = String::from_str("Model response missing fields: ");
                let missing = join(names.as_slice(), ", ");
                text.append(missing.as_str());
                text.append(". Got: ");
                let got = join(present, ", ");
                text.append(got.as_str());
                text
            },
            ValidationError::AllFieldsEmpty => String::from_str("Model returned all empty fields"),
            ValidationError::NoContent => String::from_str(
                "Model returned no content in any field",
            ),
        }
    }
}

/// A failure of an operation.
#[derive(Clone, Debug, PartialEq, Eq)]
pub enum AppError {
    /// A service was unreachable or answered with a failure status.
    Network(String),
    /// A service answered with malformed data.
    Parse(String),
    /// The flashcard store refused a request, or a deck, note type or field
    /// name is unknown to it.
    Anki(String),
    /// The history could not be read or written.
    Storage(String),
    /// The generated content was not acceptable.
    Model(String),
}

impl AppError {
    /// The text of the failure: what kind it is, then what is known of it.
    pub open spec fn text(&self) -> Seq<char> {
        match self {
            AppError::Network(detail) => "Network error: "@ + detail@,
            AppError::Parse(detail) => "JSON parse error: "@ + detail@,
            AppError::Anki(detail) => "AnkiConnect error: "@ + detail@,
            AppError::Storage(detail) => "Storage error: "@ + detail@,
            AppError::Model(detail) => "Model error: "@ + detail@,
        }
    }

    /// The text of the failure.
    pub fn message(&self) -> (text: String)
        ensures
            text@ == self.text(),
    {
        match self {
            AppError::Network(detail) => String::from_str("Network error: ").concat(
                detail.as_str(),
            ),
            AppError::Parse(detail) => String::from_str("JSON parse error: ").concat(
                detail.as_str(),
            ),
            AppError::Anki(detail) => String::from_str("AnkiConnect error: ").concat(
                detail.as_str(),
            ),
            AppError::Storage(detail) => String::from_str("Storage error: ").concat(
                detail.as_str(),
            ),
            AppError::Model(detail) => String::from_str("Model error: ").concat(detail.as_str()),
        }
    }
}

} // verus!
