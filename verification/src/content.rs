use vstd::prelude::*;

verus! {

/// One node of the knowledge-base content tree.
#[derive(Debug)]
pub struct ContentItem {
    pub name: String,
    pub path: String,
    pub item_type: String,
    pub children: Option<Vec<ContentItem>>,
}

/// One hit of a knowledge-base content search.
#[derive(Debug, Clone)]
pub struct SearchResult {
    pub path: String,
    pub title: String,
    pub snippet: String,
    pub matches: usize,
}

/// One message of the plain chat endpoint.
#[derive(Debug, Clone)]
pub struct ChatMessage {
    pub role: String,
    pub content: String,
}

} // verus!
