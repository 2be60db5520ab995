//! A knowledge-companion agent core: the conversational tool-calling loop,
//! the multi-format tool-call extractor, the dispatch policy with its
//! write-scope rules, and the weighted memory-admission scorer, each with a
//! verified contract. The network, clock and filesystem stay outside; an
//! embedding application performs them and feeds the results back through
//! the step methods.

use vstd::prelude::*;

pub mod json;
pub mod text;
pub mod tkg;
pub mod extract;
pub mod agent;
pub mod registry;
pub mod provider;
pub mod repo_index;
pub mod scanner;
pub mod session;
pub mod commands;
pub mod deep_research;
pub mod orchestrate;
pub mod embed;
pub mod content;
pub mod tools;
pub mod xml_tool_parser;
pub mod stream;
pub mod knowledge;
pub mod web_search;

verus! {

} // verus!
