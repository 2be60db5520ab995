use vstd::prelude::*;
use crate::json::{string_from_chars, str_chars, str_eq};
use crate::text::{spec_lower_seq, lower_vec, spec_contains, contains_pat};

verus! {

broadcast use vstd::seq::group_seq_axioms, vstd::std_specs::vec::group_vec_axioms, vstd::string::group_string_axioms;

/// One indexed file of a repository.
#[derive(Debug, Clone)]
pub struct FileInfo {
    pub path: String,
    pub relative_path: String,
    pub extension: Option<String>,
    pub size: u64,
    pub is_text: bool,
}

/// The index of a repository's files.
#[derive(Debug)]
pub struct RepoIndex {
    pub root_path: String,
    pub files: Vec<FileInfo>,
    pub total_files: usize,
    pub total_size: u64,
}

/// An extension (already lower-cased) the indexer treats as text.
pub open spec fn spec_text_extension(e: Seq<char>) -> bool {
    e == "rs"@ || e == "toml"@ || e == "json"@ || e == "md"@ || e == "txt"@ || e == "js"@ || e
        == "ts"@ || e == "tsx"@ || e == "jsx"@ || e == "py"@ || e == "go"@ || e == "java"@ || e
        == "c"@ || e == "cpp"@ || e == "h"@ || e == "hpp"@ || e == "cs"@ || e == "rb"@ || e
        == "php"@ || e == "html"@ || e == "css"@ || e == "scss"@ || e == "yaml"@ || e == "yml"@
        || e == "xml"@ || e == "sh"@ || e == "bash"@ || e == "zsh"@ || e == "fish"@ || e == "ps1"@
        || e == "bat"@ || e == "cmd"@ || e == "sql"@ || e == "proto"@ || e == "graphql"@ || e
        == "vue"@ || e == "svelte"@ || e == "astro"@ || e == "env"@ || e == "gitignore"@ || e
        == "dockerignore"@ || e == "editorconfig"@ || e == "conf"@ || e == "cfg"@ || e == "ini"@
        || e == "properties"@ || e == "gradle"@ || e == "lock"@ || e == "log"@ || e == "svg"@
        || e == "csv"@ || e == "tsv"@
}

/// Whether a file is likely text: nothing over two megabytes; a known
/// text extension; a file without an extension is assumed text.
pub open spec fn spec_likely_text(extension: Option<Seq<char>>, size: u64) -> bool {
    if size > 2000000 {
        false
    } else {
        match extension {
            Some(e) => spec_text_extension(spec_lower_seq(e)),
            None => true,
        }
    }
}

/// The files among the first `n` whose lower-cased relative path holds
/// the lower-cased query, in their index order.
pub open spec fn spec_matching_files(files: Seq<FileInfo>, qlow: Seq<char>, n: int) -> Seq<FileInfo>
    decreases n,
{
    if n <= 0 {
        Seq::<FileInfo>::empty()
    } else {
        spec_matching_files(files, qlow, n - 1) + (if spec_contains(
            spec_lower_seq(files[n - 1].relative_path@),
            qlow,
        ) {
            seq![files[n - 1]]
        } else {
            Seq::<FileInfo>::empty()
        })
    }
}

impl RepoIndex {
    /// A fresh, empty index rooted at a path.
    pub fn new(root_path: String) -> (r: RepoIndex)
        ensures
            r.root_path == root_path,
            r.files@.len() == 0,
            r.total_files == 0,
            r.total_size == 0,
    {
        RepoIndex { root_path, files: Vec::new(), total_files: 0, total_size: 0 }
    }

    /// Record one walked file: the caller hands in what it read from the
    /// directory entry, the index classifies and accumulates it.
    pub fn add_file(&mut self, path: String, relative_path: String, extension: Option<String>, size: u64)
        ensures
            final(self).files@.len() == old(self).files@.len() + 1,
            final(self).files@.last().is_text == spec_likely_text(
                match extension {
                    Some(e) => Some(e@),
                    None => None,
                },
                size,
            ),
            final(self).files@.last().size == size,
            final(self).total_files == final(self).files@.len(),
            final(self).total_size as int == (if old(self).total_size + size <= u64::MAX as int {
                old(self).total_size + size
            } else {
                u64::MAX as int
            }),
            final(self).files@.subrange(0, old(self).files@.len() as int) == old(self).files@,
    {
        let is_text = RepoIndex::is_likely_text_file(&extension, size);
        self.files.push(FileInfo { path, relative_path, extension, size, is_text });
        self.total_files = self.files.len();
        if size <= u64::MAX - self.total_size {
            self.total_size = self.total_size + size;
        } else {
            self.total_size = u64::MAX;
        }
        proof {
            assert(self.files@.subrange(0, old(self).files@.len() as int) =~= old(self).files@);
        }
    }

    /// Whether a file is likely text, from its extension and size.
    pub fn is_likely_text_file(extension: &Option<String>, size: u64) -> (b: bool)
        ensures
            b == spec_likely_text(
                match extension {
                    Some(e) => Some(e@),
                    None => None,
                },
                size,
            ),
    {
        if size > 2000000 {
            return false;
        }
        match extension {
            Some(ext) => {
                let lo = string_from_chars(&lower_vec(&str_chars(ext.as_str())));
                let e = lo.as_str();
                str_eq(e, "rs") || str_eq(e, "toml") || str_eq(e, "json") || str_eq(e, "md")
                    || str_eq(e, "txt") || str_eq(e, "js") || str_eq(e, "ts") || str_eq(e, "tsx")
                    || str_eq(e, "jsx") || str_eq(e, "py") || str_eq(e, "go") || str_eq(e, "java")
                    || str_eq(e, "c") || str_eq(e, "cpp") || str_eq(e, "h") || str_eq(e, "hpp")
                    || str_eq(e, "cs") || str_eq(e, "rb") || str_eq(e, "php") || str_eq(e, "html")
                    || str_eq(e, "css") || str_eq(e, "scss") || str_eq(e, "yaml") || str_eq(
                    e,
                    "yml",
                ) || str_eq(e, "xml") || str_eq(e, "sh") || str_eq(e, "bash") || str_eq(e, "zsh")
                    || str_eq(e, "fish") || str_eq(e, "ps1") || str_eq(e, "bat") || str_eq(
                    e,
                    "cmd",
                ) || str_eq(e, "sql") || str_eq(e, "proto") || str_eq(e, "graphql") || str_eq(
                    e,
                    "vue",
                ) || str_eq(e, "svelte") || str_eq(e, "astro") || str_eq(e, "env") || str_eq(
                    e,
                    "gitignore",
                ) || str_eq(e, "dockerignore") || str_eq(e, "editorconfig") || str_eq(e, "conf")
                    || str_eq(e, "cfg") || str_eq(e, "ini") || str_eq(e, "properties") || str_eq(
                    e,
                    "gradle",
                ) || str_eq(e, "lock") || str_eq(e, "log") || str_eq(e, "svg") || str_eq(e, "csv")
                    || str_eq(e, "tsv")
            }
            None => true,
        }
    }

    /// The files whose relative path contains the query, matched without
    /// regard to case, in their index order.
    pub fn search_files(&self, query: &str) -> (r: Vec<FileInfo>)
        ensures
            r@ == spec_matching_files(self.files@, spec_lower_seq(query@), self.files@.len() as int),
    {
        let q = lower_vec(&str_chars(query));
        let n = self.files.len();
        let mut r: Vec<FileInfo> = Vec::new();
        let mut i: usize = 0;
        while i < n
            invariant
                i <= n,
                n == self.files@.len(),
                q@ == spec_lower_seq(query@),
                r@ == spec_matching_files(self.files@, spec_lower_seq(query@), i as int),
            decreases n - i,
        {
            let ghost before = spec_matching_files(self.files@, spec_lower_seq(query@), i as int);
            let ghost after = spec_matching_files(
                self.files@,
                spec_lower_seq(query@),
                i as int + 1,
            );
            let p = lower_vec(&str_chars(self.files[i].relative_path.as_str()));
            if contains_pat(&p, &q) {
                let f = &self.files[i];
                let copied = FileInfo {
                    path: f.path.clone(),
                    relative_path: f.relative_path.clone(),
                    extension: match &f.extension {
                        Some(e) => Some(e.clone()),
                        None => None,
                    },
                    size: f.size,
                    is_text: f.is_text,
                };
                proof {
                    assert(copied == self.files@[i as int]);
                    assert(after =~= before.push(self.files@[i as int]));
                }
                r.push(copied);
            } else {
                proof {
                    assert(after =~= before);
                }
            }
            i = i + 1;
        }
        r
    }
}

} // verus!
