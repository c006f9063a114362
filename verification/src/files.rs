//! What the file commands of the shell hand back, and the one rule among
//! them: which names a search finds.

use crate::text::{chars_of, find, find_chars};
use vstd::prelude::*;

verus! {

/// An error of a file command.
#[derive(Debug, Clone, PartialEq, Eq)]
pub struct FsError {
    pub message: String,
}

/// What is known of one file or directory.
#[derive(Debug, Clone, PartialEq, Eq)]
pub struct FileInfo {
    pub name: String,
    pub path: String,
    pub size: u64,
    pub is_dir: bool,
    pub is_file: bool,
    pub modified: Option<String>,
}

/// One entry of a directory.
#[derive(Debug, Clone, PartialEq, Eq)]
pub struct DirEntry {
    pub name: String,
    pub path: String,
    pub is_dir: bool,
    pub is_file: bool,
    pub size: Option<u64>,
}

/// Whether a search for `pattern` finds the file name `name`: the pattern
/// stands somewhere in the name.
pub open spec fn name_matches(name: Seq<char>, pattern: Seq<char>) -> bool {
    find(name, pattern) is Some
}

/// Whether a search for `pattern` finds the file name `name`.
pub fn file_name_matches(name: &str, pattern: &str) -> (b: bool)
    ensures
        b == name_matches(name@, pattern@),
{
    find_chars(&chars_of(name), &chars_of(pattern)).is_some()
}

} // verus!
