//! The items of a batch as they are written on the command line or in a
//! file.

use crate::text::{after_prefix, split, split_on, strip_prefix, trim_nonblank, trimmed_nonblank};
use vstd::prelude::*;

verus! {

/// Where the items of a batch are.
#[derive(Clone, Debug, PartialEq, Eq)]
pub enum ItemList {
    /// In the file of this name, one item per line.
    InFile(String),
    /// These, as they were listed.
    Listed(Vec<String>),
}

/// The items written in `input`: the pieces between commas, trimmed, without
/// those that are blank.
pub open spec fn listed_items(input: Seq<char>) -> Seq<Seq<char>> {
    trimmed_nonblank(split_on(input, ','))
}

/// The items written in the text of a file: its lines, trimmed, without
/// those that are blank.
pub open spec fn line_items(content: Seq<char>) -> Seq<Seq<char>> {
    trimmed_nonblank(split_on(content, '\n'))
}

/// Reads the argument of a batch. An argument that begins with `@` names a
/// file: what follows the `@` is its name. Any other argument lists the
/// items, separated by commas.
pub fn parse_items(input: &str) -> (items: ItemList)
    ensures
        match after_prefix(input@, '@') {
            Some(path) => items matches ItemList::InFile(p) && p@ == path,
            None => items matches ItemList::Listed(listed) && listed.deep_view() == listed_items(
                input@,
            ),
        },
{
    match strip_prefix(input, '@') {
        Some(path) => ItemList::InFile(path),
        None => {
            let pieces = split(input, ',');
            ItemList::Listed(trim_nonblank(pieces.as_slice()))
        },
    }
}

/// The items in the text of a file.
pub fn parse_item_lines(content: &str) -> (items: Vec<String>)
    ensures
        items.deep_view() == line_items(content@),
{
    let lines = split(content, '\n');
    trim_nonblank(lines.as_slice())
}

} // verus!
