//! Records of the command surface.

use vstd::prelude::*;
use crate::text::chars_of;

verus! {

/// A directory offered for selection.
#[derive(Debug, Clone)]
pub struct DirectoryEntry {
    pub name: String,
    pub path: String,
    pub is_directory: bool,
}

/// A file found by a tag search.
#[derive(Debug, Clone)]
pub struct FileInfo {
    pub id: i64,
    pub path: String,
    pub file_name: String,
    pub extension: Option<String>,
    pub tags: Option<Vec<String>>,
}

/// An entry is offered when it is a directory whose name does not start
/// with a dot.
pub open spec fn is_offered(name: Seq<char>, is_directory: bool) -> bool {
    is_directory && !(name.len() > 0 && name[0] == '.')
}

/// The entry to offer for something found in a directory, if it is offered.
pub fn directory_entry(name: String, path: String, is_directory: bool) -> (out: Option<
    DirectoryEntry,
>)
    ensures
        match out {
            Some(entry) => is_offered(name@, is_directory) && entry.name == name && entry.path
                == path && entry.is_directory,
            None => !is_offered(name@, is_directory),
        },
{
    if !is_directory {
        return None;
    }
    let chars = chars_of(name.as_str());
    if chars.len() > 0 && chars[0] == '.' {
        return None;
    }
    Some(DirectoryEntry { name, path, is_directory })
}

} // verus!
