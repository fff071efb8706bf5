use gamecode_agent::context::{ContextManager, Role};
use gamecode_agent::manager::ToolResult;

#[test]
fn context_starts_empty() {
    let store = ContextManager::new();
    assert_eq!(store.turn_count(), 0);
    assert_eq!(store.get_context(), "");
    assert_eq!(store.context_length(), 0);
}

#[test]
fn context_reflects_adds_in_call_order() {
    let mut store = ContextManager::new();
    store.add_user_message("first question");
    store.add_assistant_message("first answer");
    store.add_user_message("second question");
    let results = vec![ToolResult {
        tool_name: "read_file".to_string(),
        result: "file contents".to_string(),
        tool_call_id: Some("tc-1".to_string()),
    }];
    store.add_tool_results(&results);

    assert_eq!(store.turn_count(), 4);
    assert_eq!(
        store.get_context(),
        "user: first question\nassistant: first answer\nuser: second question\ntool: file contents\n"
    );
}

#[test]
fn get_context_is_idempotent() {
    let mut store = ContextManager::new();
    store.add_user_message("hello");
    store.add_assistant_message("hi");
    let first = store.get_context();
    let second = store.get_context();
    assert_eq!(first, second);
}

#[test]
fn context_length_counts_rendered_characters() {
    let mut store = ContextManager::new();
    store.add_user_message("abc");
    // "user: abc\n" is ten characters.
    assert_eq!(store.context_length(), 10);
    store.add_assistant_message("de");
    // plus "assistant: de\n", fourteen more.
    assert_eq!(store.context_length(), 24);
}

#[test]
fn context_length_is_monotone_under_adds() {
    let mut store = ContextManager::new();
    let mut last = store.context_length();
    store.add_user_message("one");
    assert!(store.context_length() >= last);
    last = store.context_length();
    store.add_assistant_message("two");
    assert!(store.context_length() >= last);
    last = store.context_length();
    store.add_user_message("");
    assert!(store.context_length() >= last);
}

#[test]
fn tool_result_turns_keep_order_and_metadata() {
    let mut store = ContextManager::new();
    let results = vec![
        ToolResult {
            tool_name: "alpha".to_string(),
            result: "one".to_string(),
            tool_call_id: Some("id-a".to_string()),
        },
        ToolResult {
            tool_name: "beta".to_string(),
            result: "two".to_string(),
            tool_call_id: None,
        },
    ];
    store.add_tool_results(&results);

    assert_eq!(store.turn_count(), 2);
    let first = store.turn(0);
    assert!(first.role == Role::Tool);
    assert_eq!(first.content, "one");
    assert_eq!(first.tool_name.as_deref(), Some("alpha"));
    assert_eq!(first.tool_call_id.as_deref(), Some("id-a"));
    let second = store.turn(1);
    assert!(second.role == Role::Tool);
    assert_eq!(second.content, "two");
    assert_eq!(second.tool_name.as_deref(), Some("beta"));
    assert_eq!(second.tool_call_id, None);
}

#[test]
fn replace_with_summary_leaves_one_turn() {
    let mut store = ContextManager::new();
    store.add_user_message("a");
    store.add_assistant_message("b");
    store.add_user_message("c");
    assert_eq!(store.turn_count(), 3);

    store.replace_with_summary("the conversation so far");

    assert_eq!(store.turn_count(), 1);
    let turn = store.turn(0);
    assert!(turn.role == Role::Assistant);
    assert_eq!(turn.content, "the conversation so far");
    assert_eq!(store.get_context(), "assistant: the conversation so far\n");
}
