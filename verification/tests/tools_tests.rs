use neko::clock::Civil;
use neko::context::{build_instructions, memory_section, recall_entry, render_memory_tree};
use neko::gateway::{plan_message, reset_confirmation, GatewayPlan};
use neko::tools::{
    check_memory_filename, command_allowed, default_mime, domain_allowed, guess_mime,
    memory_replace_apply, outside_workspace_error, path_within_workspace, ToolResult,
};

#[test]
fn workspace_escape_is_refused() {
    // `read_file({"path":"../etc/passwd"})` canonicalises outside the root.
    assert!(!path_within_workspace("/etc/passwd", "/tmp/w"));
    assert_eq!(outside_workspace_error(), "Path is outside workspace boundary");

    assert!(path_within_workspace("/tmp/w", "/tmp/w"));
    assert!(path_within_workspace("/tmp/w/notes.md", "/tmp/w"));
    // A sibling with the same prefix is not inside the workspace.
    assert!(!path_within_workspace("/tmp/workspace2/x", "/tmp/w"));
}

#[test]
fn memory_filenames_reject_traversal() {
    assert!(check_memory_filename("MEMORY.md"));
    assert!(check_memory_filename("2024-05-01.md"));
    assert!(!check_memory_filename("../etc/passwd"));
    assert!(!check_memory_filename("a/b.md"));
    assert!(!check_memory_filename("a\\b.md"));
    assert!(!check_memory_filename("a..b"));
}

#[test]
fn memory_replace_replaces_first_occurrence_only() {
    let out = memory_replace_apply("a cat and a cat", "cat", "dog").unwrap();
    assert_eq!(out, "a dog and a cat");
    let gone = memory_replace_apply("keep this fact", " fact", "").unwrap();
    assert_eq!(gone, "keep this");
    assert!(memory_replace_apply("nothing here", "absent", "x").is_none());
}

#[test]
fn exec_allowlist_checks_the_first_word() {
    let allow = vec!["ls".to_string(), "git".to_string()];
    assert!(command_allowed(&allow, "ls -la /tmp"));
    assert!(command_allowed(&allow, "  git status"));
    assert!(!command_allowed(&allow, "rm -rf /"));
    assert!(command_allowed(&Vec::new(), "anything goes"));
}

#[test]
fn http_domains_match_by_suffix() {
    let allow = vec!["example.com".to_string()];
    assert!(domain_allowed(&allow, "example.com"));
    assert!(domain_allowed(&allow, "api.example.com"));
    assert!(!domain_allowed(&allow, "example.org"));
    assert!(domain_allowed(&Vec::new(), "anywhere.net"));
}

#[test]
fn mime_types_follow_the_extension() {
    assert_eq!(guess_mime("png"), Some("image/png"));
    assert_eq!(guess_mime("jpeg"), Some("image/jpeg"));
    assert_eq!(guess_mime("docx"), Some(
        "application/vnd.openxmlformats-officedocument.wordprocessingml.document",
    ));
    assert_eq!(guess_mime("xyz"), None);
    assert_eq!(default_mime(), "application/octet-stream");
}

#[test]
fn tool_results_carry_the_error_flag() {
    let ok = ToolResult::success("fine".to_string());
    assert!(!ok.is_error);
    let bad = ToolResult::error("nope".to_string());
    assert!(bad.is_error);
}

#[test]
fn reset_commands_are_intercepted() {
    assert_eq!(plan_message("/new"), GatewayPlan::ResetCommand);
    assert_eq!(plan_message("/reset"), GatewayPlan::ResetCommand);
    assert_eq!(plan_message("hello"), GatewayPlan::RunTurn);
    assert_eq!(plan_message("/resetting"), GatewayPlan::RunTurn);
    assert_eq!(reset_confirmation(), "Session reset. Starting fresh.");
}

#[test]
fn memory_warning_appears_only_over_the_limit() {
    let at_limit = "x".repeat(2000);
    let section = memory_section(&at_limit);
    assert!(!section.contains("Compact it"));

    let over = "x".repeat(2001);
    let warned = memory_section(&over);
    assert!(warned.contains("\u{26a0}"));
    assert!(warned.contains("2001/2000"));
    assert!(warned.contains("Compact it"));

    let big = "x".repeat(2500);
    let warned2 = memory_section(&big);
    assert!(warned2.contains("2500/2000"));
}

#[test]
fn instructions_compose_all_sections() {
    let memory = "# Important\n\nRemember this.".to_string();
    let tree = render_memory_tree(&vec![("memory/MEMORY.md".to_string(), 27usize)]).unwrap();
    assert!(tree.contains("## Memory Files"));
    assert!(tree.contains("memory/MEMORY.md (27 chars)"));

    let text = build_instructions(None, Some(&tree), Some(&memory), None, None, &Vec::new());
    assert!(text.contains("Neko"));
    assert!(text.contains("memory_search"));
    assert!(text.contains("memory_replace"));
    assert!(text.contains("Remember this"));
    assert!(text.contains("Persistent Memory"));
    assert!(text.contains("chars)"));
    assert!(!text.contains("Compact it"));
}

#[test]
fn recall_entries_cut_long_replies() {
    let time = Civil { year: 2024, month: 5, day: 1, hour: 9, minute: 3, second: 7 };
    let long = "y".repeat(600);
    let entry = recall_entry(&time, "hello", &long);
    assert!(entry.starts_with("### 09:03:07\n**User:** hello\n**Assistant:** "));
    assert!(entry.contains(&"y".repeat(500)));
    assert!(!entry.contains(&"y".repeat(501)));
    assert!(entry.ends_with("...\n\n"));
}

#[test]
fn search_lines_folds_case_and_caps_results() {
    let lines: Vec<String> = vec![
        "Say Hello There".to_string(),
        "nothing here".to_string(),
        "HELLO again".to_string(),
    ];
    // The query is folded through the same routine the search uses; a fold
    // that handed its argument back unchanged would find no line.
    let folded = neko::tools::to_lowercase("HeLLo");
    let hits = neko::tools::search_lines(&lines, &folded, 10);
    assert_eq!(hits.len(), 2);
    assert_eq!(hits[0].0, 0);
    assert_eq!(hits[0].1, "Say Hello There");
    assert_eq!(hits[1].0, 2);
    assert_eq!(hits[1].1, "HELLO again");

    let capped = neko::tools::search_lines(&lines, &folded, 1);
    assert_eq!(capped.len(), 1);
    assert_eq!(capped[0].0, 0);

    let none = neko::tools::search_lines(&lines, &"absent".to_string(), 10);
    assert!(none.is_empty());
}
