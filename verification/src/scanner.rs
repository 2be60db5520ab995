use vstd::prelude::*;
use crate::json::str_eq;

verus! {

broadcast use vstd::seq::group_seq_axioms, vstd::std_specs::vec::group_vec_axioms, vstd::string::group_string_axioms;

/// One node of the project tree handed to the canvas.
#[derive(Debug)]
pub struct FileNode {
    pub name: String,
    pub path: String,
    pub file_type: String,
    pub children: Option<Vec<FileNode>>,
    pub size: Option<u64>,
}

/// The scanned project: its root, tree, and totals.
#[derive(Debug)]
pub struct ProjectMap {
    pub root_path: String,
    pub structure: FileNode,
    pub file_count: usize,
    pub total_size: u64,
}

/// A directory name the scanner does not descend into.
pub open spec fn spec_ignored_dir(name: Seq<char>) -> bool {
    name == "target"@ || name == "node_modules"@ || name == ".git"@ || name == ".vscode"@ || name
        == "dist"@ || name == "build"@ || name == ".gemini"@
}

/// A file extension the scanner leaves out of the tree.
pub open spec fn spec_ignored_ext(e: Seq<char>) -> bool {
    e == "lock"@ || e == "log"@ || e == "png"@ || e == "jpg"@ || e == "jpeg"@ || e == "gif"@ || e
        == "ico"@ || e == "svg"@ || e == "woff"@ || e == "woff2"@ || e == "ttf"@ || e == "eot"@
        || e == "mp4"@ || e == "webm"@ || e == "mp3"@ || e == "wav"@ || e == "ogg"@ || e == "db"@
        || e == "sqlite"@ || e == "sqlite3"@
}

/// Whether the scanner skips a directory of this name.
pub fn is_ignored_dir(name: &str) -> (b: bool)
    ensures
        b == spec_ignored_dir(name@),
{
    str_eq(name, "target") || str_eq(name, "node_modules") || str_eq(name, ".git") || str_eq(
        name,
        ".vscode",
    ) || str_eq(name, "dist") || str_eq(name, "build") || str_eq(name, ".gemini")
}

/// Whether the scanner skips a file of this extension.
pub fn is_ignored_ext(e: &str) -> (b: bool)
    ensures
        b == spec_ignored_ext(e@),
{
    str_eq(e, "lock") || str_eq(e, "log") || str_eq(e, "png") || str_eq(e, "jpg") || str_eq(
        e,
        "jpeg",
    ) || str_eq(e, "gif") || str_eq(e, "ico") || str_eq(e, "svg") || str_eq(e, "woff") || str_eq(
        e,
        "woff2",
    ) || str_eq(e, "ttf") || str_eq(e, "eot") || str_eq(e, "mp4") || str_eq(e, "webm") || str_eq(
        e,
        "mp3",
    ) || str_eq(e, "wav") || str_eq(e, "ogg") || str_eq(e, "db") || str_eq(e, "sqlite") || str_eq(
        e,
        "sqlite3",
    )
}

} // verus!
