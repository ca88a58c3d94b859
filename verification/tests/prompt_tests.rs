use rust_agent::errors::AgentError;
use rust_agent::prompt_template::PromptRenderer;
use rust_agent::types::{AgentState, Message, Role, ToolCall};

#[test]
fn test_prompt_renderer() {
    let renderer = PromptRenderer::new();
    let result = renderer.render("test tool list", "test OS", "test files");

    assert!(result.contains("test tool list"));
    assert!(result.contains("test OS"));
    assert!(result.contains("test files"));
}

#[test]
fn prompt_mentions_the_wire_tags() {
    let renderer = PromptRenderer::default();
    let result = renderer.render("-", "-", "-");
    for tag in ["<thought>", "<action>", "<final_answer>", "<observation>"] {
        assert!(result.contains(tag), "{} missing from the prompt", tag);
    }
}

#[test]
fn error_messages_name_their_kind() {
    let cases = [
        (AgentError::ApiError("x".to_string()), "API call failed: x"),
        (AgentError::JsonError("x".to_string()), "JSON error: x"),
        (
            AgentError::EnvVarError("OPENROUTER_API_KEY".to_string()),
            "environment variable not set: OPENROUTER_API_KEY",
        ),
        (
            AgentError::ToolExecutionError("x".to_string()),
            "tool execution error: x",
        ),
        (AgentError::ParseError("x".to_string()), "parse error: x"),
        (AgentError::RuntimeError("x".to_string()), "runtime error: x"),
        (AgentError::IoError("x".to_string()), "I/O error: x"),
        (
            AgentError::CommandExecutionError("x".to_string()),
            "command execution error: x",
        ),
    ];
    for (e, want) in cases {
        assert_eq!(e.message(), want);
    }
}

#[test]
fn agent_state_starts_empty() {
    let s = AgentState::default();
    assert!(s.messages.is_empty());
    assert!(s.current_step.is_none());
}

#[test]
fn plain_types_carry_their_fields() {
    let call = ToolCall {
        name: "read_file".to_string(),
        arguments: vec!["a.txt".to_string()],
    };
    assert_eq!(call.name, "read_file");
    assert_eq!(call.arguments.len(), 1);
    let m = Message {
        role: Role::User,
        content: "hi".to_string(),
    };
    assert!(matches!(m.role, Role::User));
    assert_eq!(m.content, "hi");
}
