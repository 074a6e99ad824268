use anki_gen::cli::{Cli, Commands};
use anki_gen::config::{
    default_anki_url, default_model, default_note_type, default_ollama_url,
    default_optional_fields, default_storage_path, Config, ConfigFormat, CONFIG_FILES,
};

fn names(items: &[&str]) -> Vec<String> {
    items.iter().map(|s| s.to_string()).collect()
}

fn bare_cli() -> Cli {
    Cli {
        command: Commands::Check,
        model: None,
        ollama_url: None,
        anki_url: None,
        deck: None,
        note_type: None,
        fields: Vec::new(),
        optional_fields: false,
    }
}

#[test]
fn defaults_are_as_documented() {
    assert_eq!(default_model(), "llama3");
    assert_eq!(default_ollama_url(), "http://localhost:11434");
    assert_eq!(default_anki_url(), "http://localhost:8765");
    assert_eq!(default_note_type(), "Kiku");
    assert_eq!(default_storage_path(), "storage/used_grammar.json");
    assert!(!default_optional_fields());
    let config = Config::default();
    assert_eq!(config.model, "llama3");
    assert_eq!(config.ollama_url, "http://localhost:11434");
    assert_eq!(config.anki_url, "http://localhost:8765");
    assert_eq!(config.deck, None);
    assert_eq!(config.note_type, "Kiku");
    assert!(config.fields.is_empty());
    assert_eq!(config.storage_path, "storage/used_grammar.json");
    assert!(!config.optional_fields);
}

#[test]
fn empty_command_line_changes_nothing() {
    let mut config = Config::default();
    config.deck = Some("Japanese".to_string());
    config.fields = names(&["Front"]);
    config.optional_fields = true;
    config.merge_cli_overrides(&bare_cli());
    assert_eq!(config.model, "llama3");
    assert_eq!(config.ollama_url, "http://localhost:11434");
    assert_eq!(config.anki_url, "http://localhost:8765");
    assert_eq!(config.deck, Some("Japanese".to_string()));
    assert_eq!(config.note_type, "Kiku");
    assert_eq!(config.fields, names(&["Front"]));
    assert_eq!(config.storage_path, "storage/used_grammar.json");
    assert!(config.optional_fields);
}

#[test]
fn command_line_overrides_what_it_gives() {
    let mut config = Config::default();
    config.fields = names(&["Front"]);
    let cli = Cli {
        command: Commands::Generate { description: "x".to_string() },
        model: Some("mistral".to_string()),
        ollama_url: Some("http://gen:1".to_string()),
        anki_url: Some("http://anki:2".to_string()),
        deck: Some("Deck".to_string()),
        note_type: Some("Basic".to_string()),
        fields: names(&["Word", "Meaning"]),
        optional_fields: true,
    };
    config.merge_cli_overrides(&cli);
    assert_eq!(config.model, "mistral");
    assert_eq!(config.ollama_url, "http://gen:1");
    assert_eq!(config.anki_url, "http://anki:2");
    assert_eq!(config.deck, Some("Deck".to_string()));
    assert_eq!(config.note_type, "Basic");
    assert_eq!(config.fields, names(&["Word", "Meaning"]));
    assert_eq!(config.storage_path, "storage/used_grammar.json");
    assert!(config.optional_fields);
}

#[test]
fn request_needs_a_deck() {
    let mut config = Config::default();
    assert!(config.card_request("x", names(&["Front"])).is_none());
    config.deck = Some("Japanese".to_string());
    config.optional_fields = true;
    let req = config.card_request("x", names(&["Front"])).unwrap();
    assert_eq!(req.description, "x");
    assert_eq!(req.fields, names(&["Front"]));
    assert_eq!(req.note_type, "Kiku");
    assert_eq!(req.deck, "Japanese");
    assert!(req.optional_fields);
}

#[test]
fn format_is_named_in_any_case() {
    assert_eq!(ConfigFormat::from_name("json"), Some(ConfigFormat::Json));
    assert_eq!(ConfigFormat::from_name("JSON"), Some(ConfigFormat::Json));
    assert_eq!(ConfigFormat::from_name("yaml"), Some(ConfigFormat::Yaml));
    assert_eq!(ConfigFormat::from_name("Yml"), Some(ConfigFormat::Yaml));
    assert_eq!(ConfigFormat::from_name("toml"), None);
    assert_eq!(ConfigFormat::from_name(""), None);
}

#[test]
fn format_follows_the_extension() {
    assert_eq!(ConfigFormat::from_extension(Some("yaml")), ConfigFormat::Yaml);
    assert_eq!(ConfigFormat::from_extension(Some("yml")), ConfigFormat::Yaml);
    assert_eq!(ConfigFormat::from_extension(Some("YAML")), ConfigFormat::Json);
    assert_eq!(ConfigFormat::from_extension(Some("json")), ConfigFormat::Json);
    assert_eq!(ConfigFormat::from_extension(Some("txt")), ConfigFormat::Json);
    assert_eq!(ConfigFormat::from_extension(None), ConfigFormat::Json);
}

#[test]
fn example_files_are_named_after_the_format() {
    assert_eq!(ConfigFormat::Json.file_name(), "config.json");
    assert_eq!(ConfigFormat::Yaml.file_name(), "config.yaml");
    assert_eq!(
        CONFIG_FILES,
        ["config.yaml", "config.yml", "config.json", ".anki_gen.yaml", ".anki_gen.json"]
    );
}
