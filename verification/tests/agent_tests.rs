use rust_agent::agent::{
    confirm_answer_is_yes, get_operating_system_name, ConversationLoop, LoopStep,
};
use rust_agent::errors::AgentError;
use rust_agent::tools::{create_default_tools, ToolRequest};
use rust_agent::types::Role;

fn fresh_loop() -> ConversationLoop {
    ConversationLoop::new(create_default_tools("/proj".to_string()))
}

#[test]
fn retry_ceiling_is_hit_on_the_fifth_attempt() {
    let mut agent = fresh_loop();
    let step = agent.start_task("system prompt", "do something");
    assert!(matches!(step, LoopStep::CallModel));

    // four malformed responses still ask for another model call
    for i in 0..4 {
        let step = agent.on_model_response("no directive in here");
        assert!(matches!(step, LoopStep::CallModel), "attempt {} should retry", i + 1);
    }
    // the fifth malformed response is fatal
    let step = agent.on_model_response("still no directive");
    match step {
        LoopStep::Failed {
            error: AgentError::RuntimeError(m),
        } => assert!(m.contains("retry limit of 5")),
        other => panic!("expected the retry-limit failure, got {:?}", other),
    }
}

#[test]
fn unparsable_action_also_takes_the_retry_path() {
    let mut agent = fresh_loop();
    agent.start_task("sys", "task");
    let step = agent.on_model_response("<action>not a call shape</action>");
    assert!(matches!(step, LoopStep::CallModel));
}

#[test]
fn end_to_end_task_with_one_tool_call() {
    let mut agent = fresh_loop();
    let step = agent.start_task("system prompt", "list files");
    assert!(matches!(step, LoopStep::CallModel));

    let step =
        agent.on_model_response("<thought>I should read it</thought><action>read_file(\"notes.txt\")</action>");
    match step {
        LoopStep::ExecuteTool {
            request: ToolRequest::ReadFile { path },
        } => assert_eq!(path, "/proj/notes.txt"),
        other => panic!("expected a read request, got {:?}", other),
    }

    let step = agent.on_observation("these are the file contents");
    assert!(matches!(step, LoopStep::CallModel));

    let step = agent.on_model_response("<final_answer>Done</final_answer>");
    match step {
        LoopStep::Finished { answer } => assert_eq!(answer, "Done"),
        other => panic!("expected the final answer, got {:?}", other),
    }

    // the persisted history: question, assistant, observation, assistant
    assert_eq!(agent.get_conversation_length(), 4);
    let msgs = agent.messages();
    assert_eq!(msgs.len(), 5);
    assert!(matches!(msgs[0].role, Role::System));
    assert!(matches!(msgs[1].role, Role::User));
    assert_eq!(msgs[1].content, "<question>list files</question>");
    assert!(matches!(msgs[2].role, Role::Assistant));
    assert!(matches!(msgs[3].role, Role::User));
    assert_eq!(
        msgs[3].content,
        "<observation>these are the file contents</observation>"
    );
    assert!(matches!(msgs[4].role, Role::Assistant));
}

#[test]
fn final_answer_wins_over_a_complete_action() {
    let mut agent = fresh_loop();
    agent.start_task("sys", "task");
    let step = agent
        .on_model_response("<action>read_file(\"x\")</action><final_answer>all done</final_answer>");
    match step {
        LoopStep::Finished { answer } => assert_eq!(answer, "all done"),
        other => panic!("the final answer should win, got {:?}", other),
    }
}

#[test]
fn shell_commands_need_confirmation_and_can_be_cancelled() {
    let mut agent = fresh_loop();
    agent.start_task("sys", "task");
    let step = agent.on_model_response("<action>run_terminal_command(\"ls -la\")</action>");
    match step {
        LoopStep::ConfirmCommand { name, args } => {
            assert_eq!(name, "run_terminal_command");
            assert_eq!(args, vec!["ls -la".to_string()]);
        }
        other => panic!("expected a confirmation request, got {:?}", other),
    }
    let step = agent.on_confirmation(false);
    match step {
        LoopStep::Cancelled { message } => {
            assert_eq!(message, "operation cancelled by the operator")
        }
        other => panic!("expected cancellation, got {:?}", other),
    }
}

#[test]
fn confirmed_shell_commands_are_dispatched() {
    let mut agent = fresh_loop();
    agent.start_task("sys", "task");
    agent.on_model_response("<action>run_terminal_command(\"echo hi\")</action>");
    let step = agent.on_confirmation(true);
    match step {
        LoopStep::ExecuteTool {
            request: ToolRequest::RunCommand { command },
        } => assert_eq!(command, "echo hi"),
        other => panic!("expected a command request, got {:?}", other),
    }
}

#[test]
fn unknown_tools_become_observations_not_errors() {
    let mut agent = fresh_loop();
    agent.start_task("sys", "task");
    let step = agent.on_model_response("<action>bogus(1)</action>");
    assert!(matches!(step, LoopStep::CallModel));
    let msgs = agent.messages();
    let last = &msgs[msgs.len() - 1];
    assert!(matches!(last.role, Role::User));
    assert_eq!(
        last.content,
        "<observation>tool 'bogus' does not exist</observation>"
    );
}

#[test]
fn confinement_violations_fail_the_task() {
    let mut agent = fresh_loop();
    agent.start_task("sys", "task");
    let step = agent.on_model_response("<action>read_file(\"../../etc/passwd\")</action>");
    match step {
        LoopStep::Failed {
            error: AgentError::RuntimeError(m),
        } => assert!(m.contains("operation denied")),
        other => panic!("expected the confinement failure, got {:?}", other),
    }
}

#[test]
fn history_survives_tasks_and_can_be_cleared() {
    let mut agent = fresh_loop();
    assert_eq!(agent.get_conversation_length(), 0);
    agent.start_task("sys", "first question");
    agent.on_model_response("<final_answer>one</final_answer>");
    assert_eq!(agent.get_conversation_length(), 2);

    // the next task replays the history under a fresh system prompt
    agent.start_task("sys", "second question");
    assert_eq!(agent.messages().len(), 4);
    agent.on_model_response("<final_answer>two</final_answer>");
    assert_eq!(agent.get_conversation_length(), 4);

    agent.clear_conversation_history();
    assert_eq!(agent.get_conversation_length(), 0);
}

#[test]
fn operating_system_display_names() {
    assert_eq!(get_operating_system_name("macos"), "macOS");
    assert_eq!(get_operating_system_name("windows"), "Windows");
    assert_eq!(get_operating_system_name("linux"), "Linux");
    assert_eq!(get_operating_system_name("freebsd"), "Unknown");
    assert_eq!(get_operating_system_name(""), "Unknown");
}

#[test]
fn confirmation_accepts_exactly_y() {
    assert!(confirm_answer_is_yes("y"));
    assert!(confirm_answer_is_yes("Y"));
    assert!(confirm_answer_is_yes("  y\n"));
    assert!(!confirm_answer_is_yes("yes"));
    assert!(!confirm_answer_is_yes("n"));
    assert!(!confirm_answer_is_yes(""));
}
