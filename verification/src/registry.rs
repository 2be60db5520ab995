use vstd::prelude::*;
use crate::json::{JsonValue, string_from_chars, str_chars};
use crate::agent::{Tool, ToolFunction};

verus! {

broadcast use vstd::seq::group_seq_axioms, vstd::std_specs::vec::group_vec_axioms, vstd::string::group_string_axioms;

/// The names carried by a tool catalog, in order.
pub open spec fn spec_tool_names(tools: Seq<Tool>) -> Seq<Seq<char>> {
    Seq::new(tools.len(), |i: int| tools[i].function.name@)
}

/// The names of the static catalog, in registration order.
pub open spec fn spec_registry_names() -> Seq<Seq<char>> {
    seq![
        "canvas_update"@,
        "calculate"@,
        "scan_codebase"@,
        "read_file"@,
        "search_knowledge"@,
        "create_study_guide"@,
        "list_markdown_files"@,
        "web_search"@,
        "deep_research"@,
        "write_file"@,
        "display_media"@,
        "harvest_wiki"@,
        "harvest_wiki_category"@,
        "brainstorm_with_grok"@,
        "tkg_search"@,
        "tkg_store"@,
        "claim_legacy_data"@,
        "start_debate"@,
        "write_file_batch"@,
        "run_terminal_command"@,
        "list_registered_agents"@,
        "invoke_agent"@,
        "consult_agent"@,
    ]
}

fn lit(s: &str) -> (r: String)
    ensures
        r@ == s@,
{
    string_from_chars(&str_chars(s))
}

/// A JSON-schema object with string-typed properties; the property names
/// listed in `required` are mandatory.
fn schema(props: Vec<(String, JsonValue)>, required: Vec<String>) -> (r: JsonValue)
    ensures
        r.model() is Obj,
{
    let mut req_items: Vec<JsonValue> = Vec::new();
    let n = required.len();
    let mut i: usize = 0;
    while i < n
        invariant
            i <= n,
            n == required@.len(),
        decreases n - i,
    {
        req_items.push(JsonValue::Str(required[i].clone()));
        i = i + 1;
    }
    let mut fields: Vec<(String, JsonValue)> = Vec::new();
    fields.push((lit("type"), JsonValue::Str(lit("object"))));
    fields.push((lit("properties"), JsonValue::Obj(props)));
    fields.push((lit("required"), JsonValue::Arr(req_items)));
    JsonValue::Obj(fields)
}

/// A string-typed schema property with a description.
fn prop(name: &str, desc: &str) -> (String, JsonValue) {
    let mut fields: Vec<(String, JsonValue)> = Vec::new();
    fields.push((lit("type"), JsonValue::Str(lit("string"))));
    fields.push((lit("description"), JsonValue::Str(lit(desc))));
    (lit(name), JsonValue::Obj(fields))
}

fn mk_tool(name: &str, description: &str, parameters: JsonValue) -> (t: Tool)
    ensures
        t.function.name@ == name@,
        t.function.description@ == description@,
        t.tool_type@ == "function"@,
        t.function.parameters.model() == parameters.model(),
{
    Tool {
        tool_type: lit("function"),
        function: ToolFunction { name: lit(name), description: lit(description), parameters },
    }
}

fn one_arg(name: &str, desc: &str) -> (r: JsonValue)
    ensures
        r.model() is Obj,
{
    let mut props: Vec<(String, JsonValue)> = Vec::new();
    let p = prop(name, desc);
    props.push(p);
    let mut req: Vec<String> = Vec::new();
    req.push(lit(name));
    schema(props, req)
}

fn no_args() -> (r: JsonValue)
    ensures
        r.model() is Obj,
{
    let props: Vec<(String, JsonValue)> = Vec::new();
    let req: Vec<String> = Vec::new();
    schema(props, req)
}

/// The static tool catalog described to the completion service.
pub fn register_tools() -> (r: Vec<Tool>)
    ensures
        spec_tool_names(r@) == spec_registry_names(),
        forall|i: int| 0 <= i < r@.len() ==> (#[trigger] r@[i]).tool_type@ == "function"@
            && r@[i].function.parameters.model() is Obj,
{
    let mut r: Vec<Tool> = Vec::new();
    r.push(mk_tool(
        "canvas_update",
        "Update the dashboard canvas: show previews, add content blocks, or clear it.",
        one_arg("action", "The action to perform: preview, add_block or clear"),
    ));
    r.push(mk_tool(
        "calculate",
        "Evaluate a plain arithmetic expression.",
        one_arg("expression", "The arithmetic expression to evaluate, e.g. (2+3)*4"),
    ));
    r.push(mk_tool(
        "scan_codebase",
        "Scan the project tree and report its files.",
        no_args(),
    ));
    r.push(mk_tool(
        "read_file",
        "Read a markdown file from the knowledge base.",
        one_arg("path", "The file path to read, e.g. research/AI/agents.md"),
    ));
    r.push(mk_tool(
        "search_knowledge",
        "Search the knowledge base for content.",
        one_arg("query", "The search query"),
    ));
    r.push(mk_tool(
        "create_study_guide",
        "Generate a study guide on a topic and save it.",
        one_arg("topic", "The topic of the study guide"),
    ));
    r.push(mk_tool(
        "list_markdown_files",
        "List the markdown files of the knowledge base.",
        no_args(),
    ));
    r.push(mk_tool(
        "web_search",
        "Search the web and return ranked snippets.",
        one_arg("query", "The search query"),
    ));
    r.push(mk_tool(
        "deep_research",
        "Delegate a topic to research sub-agents and synthesize their reports.",
        one_arg("topic", "The topic to research"),
    ));
    r.push(mk_tool(
        "write_file",
        "Write one file inside the allowed directories.",
        one_arg("path", "The relative path of the file to write"),
    ));
    r.push(mk_tool(
        "display_media",
        "Show a media item on the canvas.",
        one_arg("url", "The URL of the media to display"),
    ));
    r.push(mk_tool(
        "harvest_wiki",
        "Fetch one wiki page into the knowledge base.",
        one_arg("query", "The page to fetch"),
    ));
    r.push(mk_tool(
        "harvest_wiki_category",
        "Fetch a whole wiki category into the knowledge base.",
        one_arg("category", "The category to fetch"),
    ));
    r.push(mk_tool(
        "brainstorm_with_grok",
        "Ask the brainstorming model for ideas on a prompt.",
        one_arg("prompt", "The prompt to brainstorm on"),
    ));
    r.push(mk_tool(
        "tkg_search",
        "Search the long-term memory store.",
        one_arg("query", "The search query"),
    ));
    r.push(mk_tool(
        "tkg_store",
        "Store content in the long-term memory store, subject to the admission filter.",
        one_arg("content", "The content to store"),
    ));
    r.push(mk_tool(
        "claim_legacy_data",
        "Claim unowned stored memories for the current user.",
        no_args(),
    ));
    r.push(mk_tool(
        "start_debate",
        "Run a multi-agent debate on a topic.",
        one_arg("topic", "The topic to debate"),
    ));
    r.push(mk_tool(
        "write_file_batch",
        "Write several files in one call, inside the allowed directories.",
        one_arg("files", "The list of files to write"),
    ));
    r.push(mk_tool(
        "run_terminal_command",
        "Run a terminal command in the project directory.",
        one_arg("command", "The command to run"),
    ));
    r.push(mk_tool(
        "list_registered_agents",
        "List the registered specialist agents.",
        no_args(),
    ));
    r.push(mk_tool(
        "invoke_agent",
        "Invoke a registered specialist agent on a task.",
        one_arg("agent_id", "The identifier of the agent to invoke"),
    ));
    r.push(mk_tool(
        "consult_agent",
        "Consult a registered specialist agent and show its answer.",
        one_arg("agent_id", "The identifier of the agent to consult"),
    ));
    proof {
        assert(spec_tool_names(r@) =~= spec_registry_names());
    }
    r
}

} // verus!
