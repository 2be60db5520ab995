use vstd::prelude::*;
use crate::json::{JsonValue, string_from_chars, str_chars};

verus! {

broadcast use vstd::seq::group_seq_axioms, vstd::std_specs::vec::group_vec_axioms, vstd::string::group_string_axioms;

/// The tool that reads one knowledge-base file; the read itself is the
/// embedding application's.
#[derive(Debug, Clone, Copy)]
pub struct ReadFileTool;

/// The tool that searches knowledge-base content; the search itself is
/// the embedding application's.
#[derive(Debug, Clone, Copy)]
pub struct SearchFilesTool;

impl ReadFileTool {
    pub fn name(&self) -> (r: &'static str)
        ensures
            r@ == "read_file"@,
    {
        "read_file"
    }

    pub fn description(&self) -> (r: &'static str)
        ensures
            r@ == "Read the contents of a markdown file from the knowledge base"@,
    {
        "Read the contents of a markdown file from the knowledge base"
    }

    /// The JSON schema of the tool's arguments.
    pub fn parameters(&self) -> JsonValue {
        one_string_schema("path", "The file path to read (e.g., 'research/AI/agents.md')")
    }
}

impl SearchFilesTool {
    pub fn name(&self) -> (r: &'static str)
        ensures
            r@ == "search_files"@,
    {
        "search_files"
    }

    pub fn description(&self) -> (r: &'static str)
        ensures
            r@ == "Search for content in markdown files"@,
    {
        "Search for content in markdown files"
    }

    /// The JSON schema of the tool's arguments.
    pub fn parameters(&self) -> JsonValue {
        one_string_schema("query", "The search query")
    }
}

fn lit(s: &str) -> (r: String)
    ensures
        r@ == s@,
{
    string_from_chars(&str_chars(s))
}

fn one_string_schema(name: &str, desc: &str) -> JsonValue {
    let mut prop_fields: Vec<(String, JsonValue)> = Vec::new();
    prop_fields.push((lit("type"), JsonValue::Str(lit("string"))));
    prop_fields.push((lit("description"), JsonValue::Str(lit(desc))));
    let mut props: Vec<(String, JsonValue)> = Vec::new();
    props.push((lit(name), JsonValue::Obj(prop_fields)));
    let mut req: Vec<JsonValue> = Vec::new();
    req.push(JsonValue::Str(lit(name)));
    let mut fields: Vec<(String, JsonValue)> = Vec::new();
    fields.push((lit("type"), JsonValue::Str(lit("object"))));
    fields.push((lit("properties"), JsonValue::Obj(props)));
    fields.push((lit("required"), JsonValue::Arr(req)));
    JsonValue::Obj(fields)
}

} // verus!
