use knowledge_companion::stream::StreamAccumulator;

#[test]
fn test_stream_accumulates_content_and_fragments() {
    let mut acc = StreamAccumulator::new();
    acc.feed_line("data: {\"choices\":[{\"delta\":{\"content\":\"Hel\"}}]}");
    acc.feed_line(
        "data: {\"choices\":[{\"delta\":{\"content\":\"lo\",\"tool_calls\":[{\"index\":0,\"id\":\"c1\",\"function\":{\"name\":\"calculate\",\"arguments\":\"{\\\"ex\"}}]}}]}",
    );
    acc.feed_line(
        "data: {\"choices\":[{\"delta\":{\"tool_calls\":[{\"index\":0,\"function\":{\"arguments\":\"pr\\\": \\\"1\\\"}\"}}]}}]}",
    );
    assert_eq!(acc.content, "Hello");
    assert_eq!(acc.tool_calls.len(), 1);
    assert_eq!(acc.tool_calls[0].id, "c1");
    assert_eq!(acc.tool_calls[0].function.name, "calculate");
    assert_eq!(acc.tool_calls[0].function.arguments, "{\"expr\": \"1\"}");
    assert!(!acc.done);
}

#[test]
fn test_stream_done_and_ignored_lines() {
    let mut acc = StreamAccumulator::new();
    acc.feed_line("event: noise");
    acc.feed_line("data: not json at all");
    acc.feed_line("data: {\"choices\":[{\"delta\":{\"content\":\"x\"}}]}");
    acc.feed_line("data: [DONE]");
    acc.feed_line("data: {\"choices\":[{\"delta\":{\"content\":\"late\"}}]}");
    assert!(acc.done);
    assert_eq!(acc.content, "x");
}

#[test]
fn test_stream_fragments_by_index() {
    let mut acc = StreamAccumulator::new();
    acc.feed_line(
        "data: {\"choices\":[{\"delta\":{\"tool_calls\":[{\"index\":1,\"function\":{\"name\":\"b\"}}]}}]}",
    );
    assert_eq!(acc.tool_calls.len(), 2);
    assert_eq!(acc.tool_calls[0].function.name, "");
    assert_eq!(acc.tool_calls[1].function.name, "b");
}
