use anki_gen::fields::CardFields;
use anki_gen::items::{parse_item_lines, parse_items, ItemList};
use anki_gen::text::{
    blank, contains_name, drop_blank, join, split, starts_with, strip_prefix, trim, trim_nonblank,
};

fn names(items: &[&str]) -> Vec<String> {
    items.iter().map(|s| s.to_string()).collect()
}

#[test]
fn blank_texts() {
    assert!(blank(""));
    assert!(blank(" \t\r\n"));
    assert!(blank("\u{a0}\u{2003}\u{3000}"));
    assert!(!blank(" a "));
    assert!(!blank("\u{200b}"));
}

#[test]
fn trim_removes_white_space_at_both_ends() {
    assert_eq!(trim("  a b \n"), "a b");
    assert_eq!(trim("a"), "a");
    assert_eq!(trim(""), "");
    assert_eq!(trim(" \t "), "");
    assert_eq!(trim("\u{3000}読む\u{3000}"), "読む");
    assert_eq!(trim("x  "), "x");
    assert_eq!(trim("  x"), "x");
}

#[test]
fn split_gives_every_piece() {
    assert_eq!(split("a,b,c", ','), names(&["a", "b", "c"]));
    assert_eq!(split("", ','), names(&[""]));
    assert_eq!(split(",", ','), names(&["", ""]));
    assert_eq!(split("a,,b,", ','), names(&["a", "", "b", ""]));
    assert_eq!(split("読む、書く", '、'), names(&["読む", "書く"]));
    assert_eq!(split("abc", ','), names(&["abc"]));
}

#[test]
fn join_puts_the_separator_between() {
    assert_eq!(join(&names(&["a", "b", "c"]), ", "), "a, b, c");
    assert_eq!(join(&names(&["a"]), ", "), "a");
    assert_eq!(join(&[], ", "), "");
    assert_eq!(join(&names(&["", ""]), "-"), "-");
}

#[test]
fn join_undoes_split() {
    for text in ["a,b,c", "", ",", ",a,,b,", "no separator"] {
        assert_eq!(join(&split(text, ','), ","), text);
    }
}

#[test]
fn trimmed_items_without_the_blank_ones() {
    assert_eq!(trim_nonblank(&names(&[" a ", "", "  ", "b"])), names(&["a", "b"]));
    assert_eq!(drop_blank(&names(&[" a ", "", "  ", "b"])), names(&[" a ", "b"]));
}

#[test]
fn prefixes() {
    assert!(starts_with("llama3:latest", "llama3"));
    assert!(starts_with("llama3", "llama3"));
    assert!(starts_with("llama3", ""));
    assert!(!starts_with("llama", "llama3"));
    assert!(!starts_with("xllama3", "llama3"));
    assert_eq!(strip_prefix("@items.txt", '@'), Some("items.txt".to_string()));
    assert_eq!(strip_prefix("@", '@'), Some(String::new()));
    assert_eq!(strip_prefix("items", '@'), None);
    assert_eq!(strip_prefix("", '@'), None);
}

#[test]
fn names_are_found() {
    assert!(contains_name(&names(&["a", "b"]), "b"));
    assert!(!contains_name(&names(&["a", "b"]), "B"));
    assert!(!contains_name(&[], "a"));
}

#[test]
fn listed_items_are_trimmed() {
    assert_eq!(parse_items("a, b ,,c , "), ItemList::Listed(names(&["a", "b", "c"])));
    assert_eq!(parse_items(""), ItemList::Listed(Vec::new()));
    assert_eq!(parse_items("one"), ItemList::Listed(names(&["one"])));
}

#[test]
fn at_sign_names_a_file() {
    assert_eq!(parse_items("@items.txt"), ItemList::InFile("items.txt".to_string()));
    assert_eq!(parse_items("@a,b"), ItemList::InFile("a,b".to_string()));
    assert_eq!(parse_items(" @a"), ItemList::Listed(names(&["@a"])));
}

#[test]
fn file_items_are_the_lines() {
    assert_eq!(parse_item_lines("one\n  two \r\n\n three\n"), names(&["one", "two", "three"]));
    assert_eq!(parse_item_lines(""), Vec::<String>::new());
    assert_eq!(parse_item_lines("a,b\nc"), names(&["a,b", "c"]));
}

#[test]
fn field_map_holds_each_name_once() {
    let mut fields = CardFields::new();
    assert_eq!(fields.len(), 0);
    fields.insert("a".to_string(), "1".to_string());
    fields.insert("b".to_string(), "2".to_string());
    fields.insert("a".to_string(), "3".to_string());
    assert_eq!(fields.len(), 2);
    assert_eq!(fields.keys(), names(&["a", "b"]));
    assert_eq!(fields.get("a").map(|s| s.as_str()), Some("3"));
    assert_eq!(fields.get("c"), None);
    assert!(fields.contains_key("b"));
    assert!(!fields.contains_key("c"));
    assert_eq!(fields.find("b"), Some(1));
    assert_eq!(fields.find("c"), None);
    assert_eq!(fields.name(1), "b");
    assert_eq!(fields.value(1), "2");
    let copy = fields.clone();
    assert_eq!(copy.to_pairs(), fields.to_pairs());
}

#[test]
fn later_pair_of_a_name_stays() {
    let fields = CardFields::from_pairs(vec![
        ("a".to_string(), "1".to_string()),
        ("b".to_string(), "2".to_string()),
        ("a".to_string(), "3".to_string()),
    ]);
    assert_eq!(
        fields.to_pairs(),
        vec![("a".to_string(), "3".to_string()), ("b".to_string(), "2".to_string())]
    );
}
