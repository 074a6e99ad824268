//! Flashcard field reconciliation, validation and history tracking.
//!
//! The crate holds the decision logic of a flashcard generator: it aligns
//! the field names that a text generator returned with the names a note
//! type requires, decides whether the result may be stored, and records
//! which items were generated.

pub mod anki_client;
pub mod cli;
pub mod config;
pub mod distance;
pub mod engine;
pub mod errors;
pub mod fields;
pub mod items;
pub mod model_client;
pub mod prompt_builder;
pub mod reconcile;
pub mod storage;
pub mod text;
pub mod types;
pub mod validate;
