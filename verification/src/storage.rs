//! Where the history is kept, and what a stored text means.

use crate::text::{blank, is_blank};
use std::path::PathBuf;
use vstd::prelude::*;

verus! {

/// `std::path::PathBuf`, an owned path of the file system. Nothing is said
/// of what it holds.
#[verifier::external_type_specification]
#[verifier::external_body]
pub struct ExPathBuf(PathBuf);

/// The place where the history is kept.
#[derive(Debug)]
pub struct FileStorage {
    path: PathBuf,
}

/// What is to be done with what was found at the place of the history.
#[derive(Clone, Copy, Debug, PartialEq, Eq, Structural)]
pub enum LoadPlan {
    /// There is no history yet: begin with an empty one.
    Empty,
    /// There is a text: it holds the history, or is malformed, which is a
    /// failure and never an empty history.
    Parse,
}

/// What is to be done with `content`, the text found, or `None` where
/// nothing is stored.
pub open spec fn load_plan(content: Option<Seq<char>>) -> LoadPlan {
    match content {
        None => LoadPlan::Empty,
        Some(text) => if is_blank(text) {
            LoadPlan::Empty
        } else {
            LoadPlan::Parse
        },
    }
}

impl FileStorage {
    /// The storage at `path`.
    pub fn new(path: PathBuf) -> (storage: Self)
        ensures
            storage.path() == path,
    {
        FileStorage { path }
    }

    /// The path of the storage.
    pub closed spec fn path(&self) -> PathBuf {
        self.path
    }

    /// The path of the storage.
    pub fn location(&self) -> (path: &PathBuf)
        ensures
            *path == self.path(),
    {
        &self.path
    }

    /// What is to be done with `content`, the text found at the path, or
    /// `None` where there is no file. A file that is missing, empty or all
    /// white space stands for the empty history; any other text is to be
    /// parsed.
    pub fn plan_load(content: Option<&str>) -> (plan: LoadPlan)
        ensures
            plan == load_plan(
                match content {
                    Some(text) => Some(text@),
                    None => None,
                },
            ),
    {
        match content {
            None => LoadPlan::Empty,
            Some(text) => {
                if blank(text) {
                    LoadPlan::Empty
                } else {
                    LoadPlan::Parse
                }
            },
        }
    }
}

} // verus!
