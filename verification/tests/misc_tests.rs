use knowledge_companion::provider::{AIProvider, select_relevant_files};
use knowledge_companion::repo_index::{RepoIndex, FileInfo};
use knowledge_companion::registry::register_tools;
use knowledge_companion::tkg::NodeType;
use knowledge_companion::scanner::{is_ignored_dir, is_ignored_ext};
use knowledge_companion::orchestrate::make_chain_id;
use knowledge_companion::embed::generate_point_id;
use knowledge_companion::tools::{ReadFileTool, SearchFilesTool};

#[test]
fn test_provider_config() {
    let grok = AIProvider::Grok;
    assert_eq!(grok.api_key_env_var(), "XAI_API_KEY");
    assert!(grok.model_name().contains("grok"));

    let minimax = AIProvider::Minimax;
    assert_eq!(minimax.api_key_env_var(), "MINIMAX_API_KEY");
}

#[test]
fn test_is_likely_text_file() {
    assert!(RepoIndex::is_likely_text_file(&Some("rs".to_string()), 1000));
    assert!(RepoIndex::is_likely_text_file(&Some("json".to_string()), 1000));
    assert!(RepoIndex::is_likely_text_file(&Some("env".to_string()), 1000));
    assert!(RepoIndex::is_likely_text_file(&None, 1000));

    assert!(!RepoIndex::is_likely_text_file(&Some("exe".to_string()), 1000));
    assert!(!RepoIndex::is_likely_text_file(&Some("rs".to_string()), 3_000_000));
}

#[test]
fn test_index_and_search_files() {
    let mut index = RepoIndex::new("/repo".to_string());
    index.add_file(
        "/repo/research/agents.md".to_string(),
        "research/agents.md".to_string(),
        Some("md".to_string()),
        100,
    );
    index.add_file(
        "/repo/app.bin".to_string(),
        "app.bin".to_string(),
        Some("bin".to_string()),
        100,
    );
    assert_eq!(index.total_files, 2);
    assert_eq!(index.total_size, 200);
    let hits = index.search_files("AGENTS");
    assert_eq!(hits.len(), 1);
    assert_eq!(hits[0].relative_path, "research/agents.md");
}

#[test]
fn test_select_relevant_files_counts_text_files() {
    let files = vec![
        FileInfo {
            path: "/r/a.rs".to_string(),
            relative_path: "a.rs".to_string(),
            extension: Some("rs".to_string()),
            size: 10,
            is_text: true,
        },
        FileInfo {
            path: "/r/b.bin".to_string(),
            relative_path: "b.bin".to_string(),
            extension: Some("bin".to_string()),
            size: 10,
            is_text: false,
        },
        FileInfo {
            path: "/r/parser.rs".to_string(),
            relative_path: "parser.rs".to_string(),
            extension: Some("rs".to_string()),
            size: 10,
            is_text: true,
        },
    ];
    let picked = select_relevant_files("where is the parser code", &files, 5);
    assert_eq!(picked.len(), 2);
    assert_eq!(picked[0], "parser.rs");
}

#[test]
fn test_registry_names_and_count() {
    let tools = register_tools();
    assert_eq!(tools.len(), 23);
    assert_eq!(tools[0].function.name, "canvas_update");
    assert_eq!(tools[1].function.name, "calculate");
    assert!(tools.iter().any(|t| t.function.name == "run_terminal_command"));
    assert!(tools.iter().all(|t| t.tool_type == "function"));
}

#[test]
fn test_node_type_tags() {
    assert_eq!(NodeType::Fact.tag(), "FACT");
    assert_eq!(NodeType::UserInput.tag(), "USER_INPUT");
}

#[test]
fn test_scanner_ignore_lists() {
    assert!(is_ignored_dir("node_modules"));
    assert!(!is_ignored_dir("src"));
    assert!(is_ignored_ext("png"));
    assert!(!is_ignored_ext("rs"));
}

#[test]
fn test_make_chain_id() {
    assert_eq!(make_chain_id("My Chain", 123), "chain-my-chain-123-v1");
}

#[test]
fn test_generate_point_id_deterministic() {
    let a = generate_point_id("notes.md", 0);
    let b = generate_point_id("notes.md", 0);
    let c = generate_point_id("notes.md", 1);
    assert_eq!(a, b);
    assert_ne!(a, c);
}

#[test]
fn test_builtin_tool_descriptors() {
    assert_eq!(ReadFileTool.name(), "read_file");
    assert_eq!(SearchFilesTool.name(), "search_files");
    assert!(ReadFileTool.description().contains("markdown"));
}
