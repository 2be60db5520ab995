use knowledge_companion::agent::{
    AppMode, AIProvider, MinimaxAgent, CompletionStep, PendingStep, ToolDispatch,
    repeated_call_notice, clean_content,
};
use knowledge_companion::extract::{ToolCall, FunctionCall};

fn mk_call(name: &str, args: &str) -> ToolCall {
    ToolCall {
        id: "srv_1".to_string(),
        tool_type: "function".to_string(),
        function: FunctionCall { name: name.to_string(), arguments: args.to_string() },
    }
}

fn dev_agent() -> MinimaxAgent {
    MinimaxAgent::new("key".to_string(), None, None, None, AppMode::Developer)
}

fn student_agent() -> MinimaxAgent {
    MinimaxAgent::new("key".to_string(), None, None, None, AppMode::Student)
}

#[test]
fn test_chat_turn_tool_then_answer() {
    // One tool call answered by the service, then a final answer: two
    // iterations, one tool call made.
    let mut agent = dev_agent();
    agent.add_user_message("What is (2+3)*4?".to_string());
    let mut turn = agent.begin_turn(30, false);

    let step = agent.on_completion(
        &mut turn,
        "".to_string(),
        vec![mk_call("calculate", "{\"expression\":\"(2+3)*4\"}")],
        None,
    );
    assert!(matches!(step, CompletionStep::RunTools));
    let pending = turn.next_pending();
    let call = match pending {
        PendingStep::Run(c) => c,
        _ => panic!("expected a call to run"),
    };
    assert_eq!(call.function.name, "calculate");
    assert!(matches!(turn.next_pending(), PendingStep::NoneLeft));
    agent.on_tool_result(call.id, "{\"success\":true,\"result\":20}".to_string(), None);
    assert!(turn.continue_allowed());

    let step2 = agent.on_completion(&mut turn, "The answer is 20.".to_string(), vec![], None);
    let resp = match step2 {
        CompletionStep::Finished(r) => r,
        _ => panic!("expected the turn to finish"),
    };
    assert_eq!(resp.content, "The answer is 20.");
    assert_eq!(resp.tool_calls_made, 1);
    assert_eq!(resp.iterations, 2);

    // The history holds user, assistant, tool, assistant, in order.
    let h = agent.get_conversation_history();
    assert_eq!(h.len(), 4);
    assert_eq!(h[0].role, "user");
    assert_eq!(h[1].role, "assistant");
    assert_eq!(h[2].role, "tool");
    assert_eq!(h[3].role, "assistant");
}

#[test]
fn test_streaming_repeat_aborts_before_cap() {
    // The service repeats the identical call; the loop detector stops the
    // turn at two consecutive repeats, far below the iteration cap.
    let mut agent = dev_agent();
    agent.add_user_message("loop".to_string());
    let mut turn = agent.begin_turn(10, true);

    for round in 0..3 {
        let step = agent.on_completion(
            &mut turn,
            "".to_string(),
            vec![mk_call("web_search", "{\"query\":\"same\"}")],
            None,
        );
        assert!(matches!(step, CompletionStep::RunTools));
        match turn.next_pending() {
            PendingStep::Run(c) => {
                assert!(round < 2, "third identical call must abort");
                agent.on_tool_result(c.id, "{\"success\":true}".to_string(), None);
            }
            PendingStep::RepeatAbort => {
                assert_eq!(round, 2, "abort comes at the second repeat");
                assert!(turn.iterations < turn.max_iterations);
                assert_eq!(repeated_call_notice(), "stopped: repeated call");
                return;
            }
            PendingStep::NoneLeft => panic!("a call was queued"),
        }
    }
    panic!("the loop detector never fired");
}

#[test]
fn test_iteration_cap_reached_exactly() {
    // With a cap of three and a never-repeating tool request, the budget
    // is exhausted exactly at the third iteration.
    let mut agent = dev_agent();
    agent.add_user_message("busy".to_string());
    let mut turn = agent.begin_turn(3, true);

    for round in 0..3 {
        assert!(turn.continue_allowed(), "budget must allow iteration {}", round + 1);
        let args = format!("{{\"query\":\"q{}\"}}", round);
        let step = agent.on_completion(
            &mut turn,
            "".to_string(),
            vec![mk_call("web_search", &args)],
            None,
        );
        assert!(matches!(step, CompletionStep::RunTools));
        match turn.next_pending() {
            PendingStep::Run(c) => {
                agent.on_tool_result(c.id, "{\"success\":true}".to_string(), None);
            }
            _ => panic!("distinct calls never abort"),
        }
    }
    assert_eq!(turn.iterations, 3);
    assert!(!turn.continue_allowed());
    assert_eq!(
        turn.budget_error(),
        "Maximum iterations (3) reached. The task may be too complex."
    );
}

#[test]
fn test_text_calls_extracted_when_no_structured() {
    let mut agent = dev_agent();
    agent.add_user_message("go".to_string());
    let mut turn = agent.begin_turn(5, false);
    let step = agent.on_completion(
        &mut turn,
        "[TOOL]{\"tool\":\"calculate\",\"args\":{\"expression\":\"1+1\"}}[/TOOL]".to_string(),
        vec![],
        None,
    );
    assert!(matches!(step, CompletionStep::RunTools));
    match turn.next_pending() {
        PendingStep::Run(c) => {
            assert_eq!(c.function.name, "calculate");
            assert_eq!(c.function.arguments, "{\"expression\":\"1+1\"}");
        }
        _ => panic!("expected the extracted call"),
    }
}

#[test]
fn test_calculate_dispatch_and_envelope() {
    let agent = dev_agent();
    match agent.execute_tool("calculate", "{\"expression\":\"1+1\"}") {
        ToolDispatch::Computed(s) => {
            assert_eq!(s, "{\"expression\":\"1+1\",\"result\":2.0,\"success\":true}");
        }
        _ => panic!("calculate is computed in the library"),
    }
    match agent.execute_tool("calculate", "{\"expression\":\"2^3\"}") {
        ToolDispatch::Computed(s) => {
            assert_eq!(s, "{\"error\":\"Expression contains invalid characters\",\"success\":false}");
        }
        _ => panic!("calculate is computed in the library"),
    }
    match agent.execute_tool("calculate", "{}") {
        ToolDispatch::Computed(s) => {
            assert_eq!(s, "{\"error\":\"Missing 'expression' argument\",\"success\":false}");
        }
        _ => panic!("calculate is computed in the library"),
    }
}

#[test]
fn test_mode_lock_rejects_terminal_in_student_mode() {
    let agent = student_agent();
    match agent.execute_tool("run_terminal_command", "{}") {
        ToolDispatch::Rejected(s) => {
            assert_eq!(
                s,
                "{\"error\":\"Tool 'run_terminal_command' is not available in student mode\",\"success\":false}"
            );
        }
        _ => panic!("the mode lock must fire first"),
    }
    // The developer profile passes the same tool through to the shell.
    let dev = dev_agent();
    assert!(matches!(
        dev.execute_tool("run_terminal_command", "{}"),
        ToolDispatch::External(_, _)
    ));
}

#[test]
fn test_session_toggle_rejects_disabled_tool() {
    let agent = dev_agent().with_enabled_tools(vec![("web_search".to_string(), false)]);
    match agent.execute_tool("web_search", "{}") {
        ToolDispatch::Rejected(s) => {
            assert!(s.contains("disabled in this session"));
        }
        _ => panic!("the session toggle must reject"),
    }
    // Unlisted tools stay enabled.
    assert!(matches!(agent.execute_tool("read_file", "{}"), ToolDispatch::External(_, _)));
}

#[test]
fn test_write_scope_rejects_traversal_and_outside_paths() {
    let agent = dev_agent();
    assert!(agent.validate_write_scope("../etc/passwd").is_err());
    assert!(agent.validate_write_scope("src/../../x").is_err());
    assert!(agent.validate_write_scope("src\\..\\x").is_err());
    assert!(agent.validate_write_scope("/etc/passwd").is_err());
    assert!(agent.validate_write_scope("notes.md").is_err());
    assert!(agent.validate_write_scope("docs/notes.md").is_ok());
    assert!(agent.validate_write_scope("README.md").is_ok());
    assert!(agent.validate_write_scope("generated-guides/a.md").is_ok());
}

#[test]
fn test_student_write_gate_narrows_prefixes() {
    let student = student_agent();
    assert!(student.write_file_gate("generated-guides/a.md").is_ok());
    assert!(student.write_file_gate("src/main.rs").is_err());
    assert!(student.is_allowed_write_path("research/notes.md"));
    assert!(student.is_allowed_write_path("./research/notes.md"));
    assert!(!student.is_allowed_write_path("researchx/notes.md"));
    let dev = dev_agent();
    assert!(dev.write_file_gate("src/main.rs").is_ok());
}

#[test]
fn test_clean_content_strips_think_blocks() {
    assert_eq!(clean_content("Hello <think>hidden</think>world"), "Hello world");
    assert_eq!(clean_content("no markers at all"), "no markers at all");
    // A block spanning lines is left alone, as the single-line pattern
    // does not match it.
    assert_eq!(
        clean_content("<think>a\nb</think> kept"),
        "<think>a\nb</think> kept"
    );
}

#[test]
fn test_prune_history_keeps_floor() {
    let mut agent = dev_agent();
    let big = "x".repeat(40000);
    for _ in 0..12 {
        agent.add_user_message(big.clone());
    }
    agent.prune_history();
    assert_eq!(agent.get_conversation_history().len(), 10);
}

#[test]
fn test_request_messages_annotate_timestamps() {
    let mut agent = dev_agent();
    agent.add_user_message_at("hi".to_string(), Some("2024-01-01".to_string()));
    let msgs = agent.build_request_messages(true);
    assert_eq!(msgs.len(), 2);
    assert_eq!(msgs[0].role, "system");
    assert_eq!(
        msgs[1].content,
        "[2024-01-01] hi\n\n\n(Please consider the timestamp above when responding)"
    );
    let plain = agent.build_request_messages(false);
    assert_eq!(plain[1].content, "hi");
}

#[test]
fn test_provider_endpoints() {
    assert_eq!(AIProvider::Minimax.base_url(), "https://api.minimax.io/v1");
    assert_eq!(AIProvider::Grok.model_name(), "grok-4-1-fast");
    assert_eq!(AIProvider::Gemini.display_name(), "Gemini 1.5 Flash");
}

#[test]
fn test_enabled_tools_filter() {
    let dev = dev_agent();
    assert_eq!(dev.get_enabled_tools().len(), 23);

    let student = student_agent();
    let offered = student.get_enabled_tools();
    assert_eq!(offered.len(), 21);
    assert!(offered.iter().all(|t| t.function.name != "run_terminal_command"));
    assert!(offered.iter().all(|t| t.function.name != "write_file_batch"));

    let toggled = dev_agent().with_enabled_tools(vec![("calculate".to_string(), false)]);
    let offered = toggled.get_enabled_tools();
    assert_eq!(offered.len(), 22);
    assert!(offered.iter().all(|t| t.function.name != "calculate"));
}
