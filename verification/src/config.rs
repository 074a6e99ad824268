//! The configuration: defaults, and what the command line overrides.

use crate::cli::Cli;
use crate::types::CardRequest;
use vstd::prelude::*;

verus! {

/// The settings of a run.
#[derive(Clone, Debug)]
pub struct Config {
    pub model: String,
    pub ollama_url: String,
    pub anki_url: String,
    pub deck: Option<String>,
    pub note_type: String,
    pub fields: Vec<String>,
    pub storage_path: String,
    pub optional_fields: bool,
}

/// The formats in which a configuration is written.
#[derive(Clone, Copy, Debug, PartialEq, Eq, Structural)]
pub enum ConfigFormat {
    Json,
    Yaml,
}

/// The places where a configuration file is looked for, in this order.
pub const CONFIG_FILES: [&'static str; 5] = [
    "config.yaml",
    "config.yml",
    "config.json",
    ".anki_gen.yaml",
    ".anki_gen.json",
];

/// `text` in lower case.
pub uninterp spec fn lowercase(text: Seq<char>) -> Seq<char>;

/// Calls `str::to_lowercase`, which gives the lower-case form of a text as
/// Unicode defines it; the contract gives that text the name `lowercase`.
#[verifier::external_body]
fn to_lowercase(text: &str) -> (lower: String)
    ensures
        lower@ == lowercase(text@),
{
    text.to_lowercase()
}

/// The format that `name` stands for, in any mix of upper and lower case:
/// `json` for JSON, `yaml` or `yml` for YAML.
pub open spec fn format_named(name: Seq<char>) -> Option<ConfigFormat> {
    if lowercase(name) == "json"@ {
        Some(ConfigFormat::Json)
    } else if lowercase(name) == "yaml"@ || lowercase(name) == "yml"@ {
        Some(ConfigFormat::Yaml)
    } else {
        None
    }
}

/// The format of a file with the given extension: YAML for `yaml` and `yml`,
/// JSON for any other and for none.
pub open spec fn format_of_extension(extension: Option<Seq<char>>) -> ConfigFormat {
    if extension == Some("yaml"@) || extension == Some("yml"@) {
        ConfigFormat::Yaml
    } else {
        ConfigFormat::Json
    }
}

impl ConfigFormat {
    /// The format that `name` stands for, if it stands for one.
    pub fn from_name(name: &str) -> (format: Option<Self>)
        ensures
            format == format_named(name@),
    {
        let lower = to_lowercase(name);
        if lower == String::from_str("json") {
            Some(ConfigFormat::Json)
        } else if lower == String::from_str("yaml") || lower == String::from_str("yml") {
            Some(ConfigFormat::Yaml)
        } else {
            None
        }
    }

    /// The format of a file with the given extension.
    pub fn from_extension(extension: Option<&str>) -> (format: Self)
        ensures
            format == format_of_extension(
                match extension {
                    Some(e) => Some(e@),
                    None => None,
                },
            ),
    {
        match extension {
            Some(e) => {
                let e = String::from_str(e);
                if e == String::from_str("yaml") || e == String::from_str("yml") {
                    ConfigFormat::Yaml
                } else {
                    ConfigFormat::Json
                }
            },
            None => ConfigFormat::Json,
        }
    }

    /// The name under which an example configuration of this format is to be
    /// saved.
    pub fn file_name(self) -> (name: &'static str)
        ensures
            name@ == (match self {
                ConfigFormat::Json => "config.json"@,
                ConfigFormat::Yaml => "config.yaml"@,
            }),
    {
        match self {
            ConfigFormat::Json => "config.json",
            ConfigFormat::Yaml => "config.yaml",
        }
    }
}

/// The text of an optional string.
pub open spec fn text_of(value: Option<String>) -> Option<Seq<char>> {
    match value {
        Some(s) => Some(s@),
        None => None,
    }
}

/// The model used where none is named.
pub fn default_model() -> (s: String)
    ensures
        s@ == "llama3"@,
{
    String::from_str("llama3")
}

/// Where the text generator is looked for where no address is given.
pub fn default_ollama_url() -> (s: String)
    ensures
        s@ == "http://localhost:11434"@,
{
    String::from_str("http://localhost:11434")
}

/// Where the flashcard store is looked for where no address is given.
pub fn default_anki_url() -> (s: String)
    ensures
        s@ == "http://localhost:8765"@,
{
    String::from_str("http://localhost:8765")
}

/// The note type used where none is named.
pub fn default_note_type() -> (s: String)
    ensures
        s@ == "Kiku"@,
{
    String::from_str("Kiku")
}

/// Where the history is kept where no path is given.
pub fn default_storage_path() -> (s: String)
    ensures
        s@ == "storage/used_grammar.json"@,
{
    String::from_str("storage/used_grammar.json")
}

/// Fields must be filled unless the configuration says otherwise.
pub fn default_optional_fields() -> (optional: bool)
    ensures
        !optional,
{
    false
}

impl Default for Config {
    /// The settings where nothing is configured: no deck, no field names, and
    /// the default of every other setting.
    fn default() -> (config: Self)
        ensures
            config.model@ == "llama3"@,
            config.ollama_url@ == "http://localhost:11434"@,
            config.anki_url@ == "http://localhost:8765"@,
            config.deck is None,
            config.note_type@ == "Kiku"@,
            config.fields@.len() == 0,
            config.storage_path@ == "storage/used_grammar.json"@,
            !config.optional_fields,
    {
        Config {
            model: default_model(),
            ollama_url: default_ollama_url(),
            anki_url: default_anki_url(),
            deck: None,
            note_type: default_note_type(),
            fields: Vec::new(),
            storage_path: default_storage_path(),
            optional_fields: default_optional_fields(),
        }
    }
}

impl Config {
    /// Lets the command line override the settings. A setting is replaced
    /// exactly where the command line gives a value: an option that is
    /// there, a list of field names that is not empty, the flag for optional
    /// fields where it is set. The storage path is never overridden.
    pub fn merge_cli_overrides(&mut self, cli: &Cli)
        ensures
            final(self).model@ == (match cli.model {
                Some(model) => model@,
                None => old(self).model@,
            }),
            final(self).ollama_url@ == (match cli.ollama_url {
                Some(url) => url@,
                None => old(self).ollama_url@,
            }),
            final(self).anki_url@ == (match cli.anki_url {
                Some(url) => url@,
                None => old(self).anki_url@,
            }),
            text_of(final(self).deck) == (match cli.deck {
                Some(deck) => Some(deck@),
                None => text_of(old(self).deck),
            }),
            final(self).note_type@ == (match cli.note_type {
                Some(note_type) => note_type@,
                None => old(self).note_type@,
            }),
            final(self).fields.deep_view() == (if cli.fields@.len() > 0 {
                cli.fields.deep_view()
            } else {
                old(self).fields.deep_view()
            }),
            final(self).storage_path@ == old(self).storage_path@,
            final(self).optional_fields == (old(self).optional_fields || cli.optional_fields),
    {
        if let Some(model) = &cli.model {
            self.model = model.clone();
        }
        if let Some(ollama_url) = &cli.ollama_url {
            self.ollama_url = ollama_url.clone();
        }
        if let Some(anki_url) = &cli.anki_url {
            self.anki_url = anki_url.clone();
        }
        if let Some(deck) = &cli.deck {
            self.deck = Some(deck.clone());
        }
        if let Some(note_type) = &cli.note_type {
            self.note_type = note_type.clone();
        }
        if cli.fields.len() > 0 {
            self.fields = cli.fields.clone();
        }
        if cli.optional_fields {
            self.optional_fields = true;
        }
    }

    /// The request for a card with the given description and field names,
    /// or `None` where no deck is configured.
    pub fn card_request(&self, description: &str, fields: Vec<String>) -> (req: Option<CardRequest>)
        ensures
            req is Some <==> self.deck is Some,
            req matches Some(r) ==> {
                &&& r.description@ == description@
                &&& r.fields.deep_view() == fields.deep_view()
                &&& r.note_type@ == self.note_type@
                &&& Some(r.deck@) == text_of(self.deck)
                &&& r.optional_fields == self.optional_fields
            },
    {
        match &self.deck {
            Some(deck) => Some(
                CardRequest {
                    description: String::from_str(description),
                    fields,
                    note_type: self.note_type.clone(),
                    deck: deck.clone(),
                    optional_fields: self.optional_fields,
                },
            ),
            None => None,
        }
    }
}

} // verus!
