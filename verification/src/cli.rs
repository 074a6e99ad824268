//! The command line as plain values.

use vstd::prelude::*;

verus! {

/// What the program is asked to do.
#[derive(Clone, Debug)]
pub enum Commands {
    /// Check that both services can be reached.
    Check,
    /// Generate a single card from a description.
    Generate { description: String },
    /// Generate the next card of a series, skipping what was generated.
    Next { description: String },
    /// Generate cards from a list: items separated by commas, or `@` and the
    /// name of a file with one item per line.
    Batch { items: String },
    /// Print an example configuration in the given format.
    Config { format: String },
}

/// The command with the options given on the command line. An option that
/// was not given is `None`, an empty list, or `false`.
#[derive(Clone, Debug)]
pub struct Cli {
    pub command: Commands,
    /// The name of the model.
    pub model: Option<String>,
    /// Where the text generator listens.
    pub ollama_url: Option<String>,
    /// Where the flashcard store listens.
    pub anki_url: Option<String>,
    /// The deck.
    pub deck: Option<String>,
    /// The note type.
    pub note_type: Option<String>,
    /// The field names of the card.
    pub fields: Vec<String>,
    /// Whether fields may be left out or empty.
    pub optional_fields: bool,
}

} // verus!
