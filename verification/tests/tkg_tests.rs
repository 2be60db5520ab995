use knowledge_companion::tkg::{
    NodeId, NodeType, SaveDecision, evaluate_with_wama, should_store, build_search_payload,
};
use knowledge_companion::json::JsonValue;

#[test]
fn test_node_id_creation() {
    let id = NodeId("test-id".to_string());
    assert_eq!(id.0, "test-id");
}

#[test]
fn test_node_type_variants() {
    let types = vec![
        NodeType::Fact,
        NodeType::Concept,
        NodeType::Memory,
        NodeType::Learning,
        NodeType::Insight,
    ];
    assert_eq!(types.len(), 5);
}

#[test]
fn test_search_payload_filters_by_user_id() {
    let embedding: Vec<String> = vec!["0.0".to_string(); 3];

    let payload_a = build_search_payload(&embedding, 5, "user_a");
    let payload_b = build_search_payload(&embedding, 5, "user_b");

    let entry_a = match payload_a.get("filter").unwrap().get("must").unwrap() {
        JsonValue::Arr(items) => &items[0],
        _ => panic!("must should be an array"),
    };
    assert_eq!(entry_a.get("key").unwrap().as_str().unwrap(), "user_id");
    assert_eq!(
        entry_a.get("match").unwrap().get("value").unwrap().as_str().unwrap(),
        "user_a"
    );
    let entry_b = match payload_b.get("filter").unwrap().get("must").unwrap() {
        JsonValue::Arr(items) => &items[0],
        _ => panic!("must should be an array"),
    };
    assert_eq!(
        entry_b.get("match").unwrap().get("value").unwrap().as_str().unwrap(),
        "user_b"
    );
}

#[test]
fn test_wama_zero_match_scores_zero() {
    let (decision, score) = evaluate_with_wama("zzz qqq www!");
    assert_eq!(decision, SaveDecision::LetFade);
    assert_eq!(score.num, 0);
    assert!(score.den > 0);
}

#[test]
fn test_wama_reminder_scores_immediate() {
    let (decision, score) = evaluate_with_wama("remind me to water the ferns");
    assert_eq!(decision, SaveDecision::ImmediateCascade);
    assert_eq!(score.num, 95);
    assert_eq!(score.den, 100);
}

#[test]
fn test_wama_score_clamped_to_one() {
    let content = "IMPORTANT! remind me that my goal is learning the new config setup because \
                   I prefer to use this critical command every day without fail, always!";
    let (decision, score) = evaluate_with_wama(content);
    assert!(score.num <= score.den);
    assert_eq!(score.num, score.den);
    assert_eq!(decision, SaveDecision::ImmediateCascade);
}

#[test]
fn test_wama_average_of_matched_only() {
    // Matches the preference criterion (0.9) alone; with the possessive
    // boost (+0.1) the score reaches exactly 1.0.
    let (_decision, score) = evaluate_with_wama("my favorite juice: i like mango");
    assert_eq!(score.den, 100);
    assert_eq!(score.num, 100);
}

#[test]
fn test_should_store_gates_let_fade() {
    assert!(!should_store("zzz"));
    assert!(should_store("remind me to water the ferns"));
}

#[test]
fn test_wama_empty_content() {
    let (decision, score) = evaluate_with_wama("");
    assert_eq!(decision, SaveDecision::LetFade);
    assert_eq!(score.num, 0);
    assert_eq!(score.den, 100);
}
