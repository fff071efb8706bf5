use std::cell::RefCell;

use gamecode_agent::backends::{BackendResponse, BedrockModel, ToolUse, init};
use gamecode_agent::manager::{
    AgentConfig, AgentError, AgentManager, ToolCall, extract_tool_calls, parse_args, split_arg,
};
use gamecode_agent::tools::{ToolAdapter, ToolArg, ToolSchema};

#[test]
fn split_arg_splits_at_first_equals() {
    assert_eq!(
        split_arg("path=a.txt"),
        Some(("path".to_string(), "a.txt".to_string()))
    );
    assert_eq!(split_arg("k=a=b"), Some(("k".to_string(), "a=b".to_string())));
    assert_eq!(split_arg("=value"), Some(("".to_string(), "value".to_string())));
    assert_eq!(split_arg("trailing="), Some(("trailing".to_string(), "".to_string())));
    assert_eq!(split_arg("no separator"), None);
    assert_eq!(split_arg(""), None);
}

#[test]
fn parse_args_keeps_pairs_and_skips_malformed() {
    let args = vec!["k=v".to_string(), "malformed".to_string(), "x=1".to_string()];
    let parsed = parse_args(&args);
    assert_eq!(parsed.len(), 2);
    assert_eq!(parsed[0].name, "k");
    assert_eq!(parsed[0].value, "v");
    assert_eq!(parsed[1].name, "x");
    assert_eq!(parsed[1].value, "1");
}

#[test]
fn extract_tool_calls_preserves_everything() {
    let response = BackendResponse {
        content: "text".to_string(),
        model: "m".to_string(),
        tokens_used: None,
        tool_calls: vec![
            ToolUse {
                name: "read_file".to_string(),
                args: vec![ToolArg { name: "path".to_string(), value: "\"a.txt\"".to_string() }],
                id: Some("toolu_0123".to_string()),
            },
            ToolUse { name: "bare".to_string(), args: vec![], id: None },
        ],
    };

    let calls = extract_tool_calls(&response);

    assert_eq!(calls.len(), 2);
    assert_eq!(calls[0].name, "read_file");
    assert_eq!(calls[0].id.as_deref(), Some("toolu_0123"));
    assert_eq!(calls[0].args, vec!["path=\"a.txt\"".to_string()]);
    let structured = calls[0].args_json.as_ref().unwrap();
    assert_eq!(structured.len(), 1);
    assert_eq!(structured[0].name, "path");
    assert_eq!(structured[0].value, "\"a.txt\"");
    assert_eq!(calls[1].name, "bare");
    assert_eq!(calls[1].id, None);
    assert!(calls[1].args.is_empty());
}

/// An adapter that records what it was handed and always succeeds.
struct RecordingAdapter {
    invocations: RefCell<Vec<(String, Vec<(String, String)>)>>,
}

impl ToolAdapter for RecordingAdapter {
    fn list_tool_schemas(&self) -> Vec<ToolSchema> {
        Vec::new()
    }

    fn execute(&self, name: &str, arguments: &Vec<ToolArg>) -> Result<String, String> {
        let args = arguments.iter().map(|a| (a.name.clone(), a.value.clone())).collect();
        self.invocations.borrow_mut().push((name.to_string(), args));
        Ok("done".to_string())
    }
}

#[test]
fn execute_tool_calls_parses_string_args_when_structured_are_absent() {
    let manager = AgentManager::new("session-1".to_string());
    let adapter = RecordingAdapter { invocations: RefCell::new(Vec::new()) };
    let calls = vec![ToolCall {
        name: "write_file".to_string(),
        args: vec!["path=b.txt".to_string(), "ignored".to_string()],
        args_json: None,
        id: Some("tc-9".to_string()),
    }];

    let results = manager.execute_tool_calls(&adapter, &calls).unwrap();

    assert_eq!(results.len(), 1);
    assert_eq!(results[0].tool_name, "write_file");
    assert_eq!(results[0].result, "done");
    assert_eq!(results[0].tool_call_id.as_deref(), Some("tc-9"));
    let invocations = adapter.invocations.borrow();
    assert_eq!(invocations[0].0, "write_file");
    assert_eq!(invocations[0].1, vec![("path".to_string(), "b.txt".to_string())]);
}

#[test]
fn execute_tool_calls_with_no_calls_succeeds() {
    let manager = AgentManager::new("session-1".to_string());
    let adapter = RecordingAdapter { invocations: RefCell::new(Vec::new()) };

    let results = manager.execute_tool_calls(&adapter, &Vec::new()).unwrap();

    assert!(results.is_empty());
    assert!(adapter.invocations.borrow().is_empty());
}

#[test]
fn agent_config_default_values() {
    let config = AgentConfig::default();
    assert!(config.use_fast_model_for_context);
    assert_eq!(config.max_context_length, 32000);
    assert!(config.auto_compress_context);
    assert_eq!(config.aws_region, "us-east-1");
    assert_eq!(config.aws_profile, None);
}

#[test]
fn agent_error_messages() {
    assert_eq!(
        AgentError::NotInitialized.message(),
        "Backend not initialized. Call init() first."
    );
    assert_eq!(
        AgentError::BackendError("down".to_string()).message(),
        "Backend error: down"
    );
    assert_eq!(
        AgentError::ToolExecutionError("bad".to_string()).message(),
        "Tool execution error: bad"
    );
    assert_eq!(
        AgentError::CompressionError("nope".to_string()).message(),
        "Context compression error: nope"
    );
}

#[test]
fn backend_registry_and_models_exist() {
    init();
    let fast = BedrockModel::Claude35Haiku;
    let strong = BedrockModel::Claude37Sonnet;
    assert!(matches!(fast, BedrockModel::Claude35Haiku));
    assert!(matches!(strong, BedrockModel::Claude37Sonnet));
}
