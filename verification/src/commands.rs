use vstd::prelude::*;

verus! {

/// What the indexing command reports back to the shell.
#[derive(Debug, Clone)]
pub struct IndexProgress {
    pub total_files: usize,
    pub total_size: u64,
    pub indexed: bool,
}

} // verus!
