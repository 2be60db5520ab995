use knowledge_companion::agent::{clean_reply, MinimaxAgent, AppMode, ToolDispatch, ChatTurn};
use knowledge_companion::deep_research::{compose_reports, sub_report, synthesis_input, source_context_line};
use knowledge_companion::json::json_to_string;
use knowledge_companion::knowledge::{score_file, snippet_range};
use knowledge_companion::orchestrate::debate_next;
use knowledge_companion::tkg::{build_upsert_payload, NodeType, SaveDecision};
use knowledge_companion::web_search::{format_search_results, web_search_payload};

#[test]
fn test_calculator_rejects_blank_expression() {
    // A blank expression is an ordinary calculation error, not an abort.
    let agent = MinimaxAgent::new("k".to_string(), None, None, None, AppMode::Developer);
    match agent.execute_tool("calculate", "{\"expression\":\" \"}") {
        ToolDispatch::Computed(s) => {
            assert_eq!(s, "{\"error\":\"Calculation error\",\"success\":false}");
        }
        _ => panic!("calculate is computed in the library"),
    }
    match agent.execute_tool("calculate", "{\"expression\":\"\"}") {
        ToolDispatch::Computed(s) => {
            assert_eq!(s, "{\"error\":\"Calculation error\",\"success\":false}");
        }
        _ => panic!("calculate is computed in the library"),
    }
}

#[test]
fn test_safe_mode_gates_in_dispatch() {
    let agent = MinimaxAgent::new("k".to_string(), None, None, None, AppMode::Developer)
        .with_safe_mode(true);
    match agent.execute_tool("write_file", "{}") {
        ToolDispatch::Rejected(s) => {
            assert_eq!(s, "{\"error\":\"Safe Mode is enabled. File writing is disabled.\",\"success\":false}");
        }
        _ => panic!("safe mode must reject the write"),
    }
    match agent.execute_tool("run_terminal_command", "{}") {
        ToolDispatch::Rejected(s) => {
            assert!(s.contains("Terminal commands are disabled"));
        }
        _ => panic!("safe mode must reject the terminal"),
    }
    // Reading stays allowed under safe mode.
    assert!(matches!(agent.execute_tool("read_file", "{}"), ToolDispatch::External(_, _)));
}

#[test]
fn test_turn_stop_flag() {
    let agent = MinimaxAgent::new("k".to_string(), None, None, None, AppMode::Developer);
    let mut turn: ChatTurn = agent.begin_turn(5, true);
    assert!(!turn.should_stop());
    turn.request_stop();
    assert!(turn.should_stop());
}

#[test]
fn test_knowledge_scoring() {
    // Exact phrase in content (+10), in filename (+20), one token
    // matching both (+1 content, +2 filename).
    let (score, matched) = score_file("rust agents", "rust agents.md", "notes on rust agents");
    assert_eq!(score, 10 + 20 + 2 * (1 + 2));
    assert_eq!(matched, 2);

    let (score2, matched2) = score_file("rust", "other.md", "all about Rust here");
    assert_eq!(score2, 10 + 1);
    assert_eq!(matched2, 1);

    let (score3, matched3) = score_file("zzz", "a.md", "nothing relevant");
    assert_eq!(score3, 0);
    assert_eq!(matched3, 0);
}

#[test]
fn test_knowledge_snippet_window() {
    let content = "x".repeat(300) + "needle" + &"y".repeat(300);
    let (start, end) = snippet_range("needle", &content);
    assert_eq!(start, 300 - 50);
    assert_eq!(end, 300 + 150);
    // No match anchors at the start.
    let (s2, e2) = snippet_range("absent", "short text");
    assert_eq!(s2, 0);
    assert_eq!(e2, "short text".len());
}

#[test]
fn test_web_search_payload_caps_results() {
    let p = json_to_string(&web_search_payload("rust", 50, "k"));
    assert_eq!(
        p,
        "{\"api_key\":\"k\",\"query\":\"rust\",\"max_results\":10,\"include_answer\":true,\"include_images\":false,\"include_raw_content\":false}"
    );
}

#[test]
fn test_web_search_formatting() {
    let body = "{\"answer\":\"42\",\"results\":[{\"title\":\"T\",\"url\":\"U\",\"content\":\"C\"},{\"title\":\"only\"}]}";
    let out = format_search_results("q", body);
    assert_eq!(
        out,
        "{\"answer\":\"42\",\"count\":1,\"query\":\"q\",\"results\":[\"{\\\"published_date\\\":null,\\\"snippet\\\":\\\"C\\\",\\\"title\\\":\\\"T\\\",\\\"url\\\":\\\"U\\\"}\"],\"success\":true}"
    );
    assert_eq!(
        format_search_results("q", "not json"),
        "{\"error\":\"Failed to parse search results\",\"success\":false}"
    );
}

#[test]
fn test_debate_steps() {
    let (s0, p0) = debate_next(0, 3, "caching", "");
    assert_eq!(s0, "Architect");
    assert_eq!(p0, "Please propose a solution for: caching");
    let (s1, p1) = debate_next(1, 3, "caching", "use a cache");
    assert_eq!(s1, "Critic");
    assert_eq!(p1, "The Architect proposed:\nuse a cache\n\nCritique this design.");
    let (s2, p2) = debate_next(2, 3, "caching", "cache invalidation is hard");
    assert_eq!(s2, "Architect");
    assert_eq!(
        p2,
        "The Critic raised these points:\ncache invalidation is hard\n\nRefine your design."
    );
    let (s6, p6) = debate_next(6, 3, "caching", "final worry");
    assert_eq!(s6, "Architect (Final)");
    assert_eq!(
        p6,
        "Considering the Critic's feedback:\nfinal worry\n\nProvide the FINAL, polished solution."
    );
}

#[test]
fn test_clean_reply_strips_multiline_blocks() {
    assert_eq!(clean_reply("<think>a\nb</think> kept"), "kept");
    assert_eq!(clean_reply("  plain  "), "plain");
}

#[test]
fn test_research_composition() {
    let ok = sub_report("topic a", &Ok("data".to_string()));
    assert_eq!(ok, "# Research Data on topic a\n\ndata");
    let err = sub_report("topic b", &Err("timeout".to_string()));
    assert_eq!(err, "# Research Data on topic b\n\nFAILED: timeout");
    let joined = compose_reports(&vec![ok.clone(), err.clone()]);
    assert_eq!(joined, format!("{}\n\n---\n\n{}", ok, err));
    assert!(synthesis_input("t", &joined).starts_with("Here is the raw research data for the topic 't':\n\n"));
    assert_eq!(
        source_context_line("T", "U", "C"),
        "Source: T\nURL: U\nContent: C\n\n"
    );
}

#[test]
fn test_upsert_payload_shape() {
    let vector = vec!["0.25".to_string(), "0.5".to_string()];
    let p = json_to_string(&build_upsert_payload(
        "id-1",
        &vector,
        "remember this",
        NodeType::Memory,
        "0.5",
        "2024-01-01T00:00:00Z",
        SaveDecision::PrioritySave,
        "0.7",
        "user_a",
    ));
    assert_eq!(
        p,
        "{\"points\":[{\"id\":\"id-1\",\"vector\":[0.25,0.5],\"payload\":{\"content\":\"remember this\",\"node_type\":\"MEMORY\",\"importance\":0.5,\"timestamp\":\"2024-01-01T00:00:00Z\",\"wama_decision\":\"PrioritySave\",\"wama_score\":0.7,\"user_id\":\"user_a\"}}]}"
    );
}
