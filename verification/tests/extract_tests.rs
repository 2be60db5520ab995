use knowledge_companion::agent::MinimaxAgent;
use knowledge_companion::extract::{parse_text_tool_calls, parse_grok_xml_tools};
use knowledge_companion::xml_tool_parser::parse_tool_calls_from_xml;

#[test]
fn test_parse_legacy_tool_call() {
    let text = "Some text\n[TOOL]tool => \"calculate\"\nargs => {\n  \"expression\": \"1+1\"\n}[/TOOL]";
    let calls = MinimaxAgent::parse_text_tool_calls(text, 0);
    assert_eq!(calls.len(), 1);
    assert_eq!(calls[0].function.name, "calculate");
    assert_eq!(calls[0].function.arguments, "{\"expression\":\"1+1\"}");
}

#[test]
fn test_parse_json_tool_call() {
    let text = "Some text\n[TOOL]{\"tool\": \"calculate\", \"args\": {\"expression\": \"2+2\"}}[/TOOL]";
    let calls = MinimaxAgent::parse_text_tool_calls(text, 0);
    assert_eq!(calls.len(), 1);
    assert_eq!(calls[0].function.name, "calculate");
    assert_eq!(calls[0].function.arguments, "{\"expression\":\"2+2\"}");
}

#[test]
fn test_parse_multiple_tool_calls_array() {
    let text = "Here are the tools:\n[TOOL][{\"tool\": \"calculate\", \"args\": {\"expression\": \"1+1\"}}, {\"tool\": \"read_file\", \"args\": {\"path\": \"test.md\"}}][/TOOL]";
    let calls = MinimaxAgent::parse_text_tool_calls(text, 0);
    assert_eq!(calls.len(), 2, "Should parse 2 calls from JSON array");
    assert_eq!(calls[0].function.name, "calculate");
    assert_eq!(calls[1].function.name, "read_file");
}

#[test]
fn test_parse_concatenated_json_objects() {
    let text = "[TOOL]{\"tool\": \"a\", \"args\": {}} {\"tool\": \"b\", \"args\": {}}[/TOOL]";
    let calls = MinimaxAgent::parse_text_tool_calls(text, 0);
    assert_eq!(calls.len(), 2, "Should parse 2 calls from concatenated objects");
}

#[test]
fn test_parse_raw_json_tool_call_no_tags() {
    let text = "Sure, I can calculate that.\n\n{\n  \"tool\": \"calculate\",\n  \"arguments\": {\n    \"expression\": \"25 * 4\"\n  }\n}";
    let calls = MinimaxAgent::parse_text_tool_calls(text, 0);
    assert_eq!(calls.len(), 1, "Should parse raw JSON tool call without tags");
    assert_eq!(calls[0].function.name, "calculate");
}

#[test]
fn test_single_bracket_block_yields_one_call() {
    let text = "[TOOL]{\"tool\":\"calculate\",\"args\":{\"expression\":\"1+1\"}}[/TOOL]";
    let calls = parse_text_tool_calls(text, 0);
    assert_eq!(calls.len(), 1);
    assert_eq!(calls[0].function.name, "calculate");
    assert_eq!(calls[0].function.arguments, "{\"expression\":\"1+1\"}");
    assert_eq!(calls[0].id, "call_0");
    assert_eq!(calls[0].tool_type, "function");
}

#[test]
fn test_call_ids_follow_base_index() {
    let text = "[TOOL][{\"tool\":\"a\",\"args\":{}},{\"tool\":\"b\",\"args\":{}}][/TOOL]";
    let calls = parse_text_tool_calls(text, 5);
    assert_eq!(calls.len(), 2);
    assert_eq!(calls[0].id, "call_5");
    assert_eq!(calls[1].id, "call_6");
}

#[test]
fn test_tool_call_tags_case_insensitive() {
    let text = "[tool_call]{\"tool\":\"calculate\",\"args\":{\"expression\":\"3*3\"}}[/TOOL_CALL]";
    let calls = parse_text_tool_calls(text, 0);
    assert_eq!(calls.len(), 1);
    assert_eq!(calls[0].function.arguments, "{\"expression\":\"3*3\"}");
}

#[test]
fn test_unparseable_block_is_skipped() {
    let text = "[TOOL]this is not json and has no tool arrow[/TOOL]";
    let calls = parse_text_tool_calls(text, 0);
    assert_eq!(calls.len(), 0);
}

#[test]
fn test_string_args_kept_verbatim() {
    let text = "[TOOL]{\"tool\":\"web_search\",\"args\":\"plain query\"}[/TOOL]";
    let calls = parse_text_tool_calls(text, 0);
    assert_eq!(calls.len(), 1);
    assert_eq!(calls[0].function.arguments, "plain query");
}

#[test]
fn test_grok_xml_block() {
    let text = "before <tool_code>{\"name\":\"web_search\",\"arguments\":{\"query\":\"rust\"}}</tool_code> after";
    let calls = parse_grok_xml_tools(text, 2);
    assert_eq!(calls.len(), 1);
    assert_eq!(calls[0].function.name, "web_search");
    assert_eq!(calls[0].function.arguments, "{\"query\":\"rust\"}");
    assert_eq!(calls[0].id, "call_2_0");
}

#[test]
fn test_grok_xml_array_block() {
    let text = "<tool_code>[{\"name\":\"a\",\"args\":{}},{\"tool_name\":\"b\",\"parameters\":{\"x\":\"1\"}}]</tool_code>";
    let calls = parse_grok_xml_tools(text, 0);
    assert_eq!(calls.len(), 2);
    assert_eq!(calls[0].function.name, "a");
    assert_eq!(calls[1].function.name, "b");
    assert_eq!(calls[1].function.arguments, "{\"x\":\"1\"}");
}

#[test]
fn test_minimax_xml_invocations() {
    let text = "<minimax:tool_call><invoke name=\"calculate\"><parameter name=\"expression\">1+1</parameter><parameter name=\"n\">5</parameter></invoke></minimax:tool_call>";
    let calls = parse_tool_calls_from_xml(text);
    assert_eq!(calls.len(), 1);
    assert_eq!(calls[0].name, "calculate");
    assert_eq!(calls[0].arguments, "{\"expression\":\"1+1\",\"n\":5}");
}

#[test]
fn test_plain_text_yields_no_calls() {
    assert_eq!(parse_text_tool_calls("just a normal sentence", 0).len(), 0);
    assert_eq!(parse_text_tool_calls("", 0).len(), 0);
}
