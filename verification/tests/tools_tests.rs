use rust_agent::errors::AgentError;
use rust_agent::tools::{
    create_default_tools, not_found_observation, AnyTool, CreateDirectoryTool, CreateFileTool,
    ReadFileTool, RunTerminalCommandTool, ToolRegistry, ToolRequest, WriteFileTool,
};

#[test]
fn test_tool_registry() {
    let mut registry = ToolRegistry::new();
    registry.register(AnyTool::ReadFile(ReadFileTool::new("/tmp".to_string())));
    registry.register(AnyTool::WriteFile(WriteFileTool::new("/tmp".to_string())));

    assert_eq!(registry.len(), 2);
    assert!(registry.get_tool("read_file").is_some());
    assert!(registry.get_tool("write_to_file").is_some());
    assert!(registry.get_tool("nonexistent").is_none());
}

#[test]
fn test_tool_list_generation() {
    let mut registry = ToolRegistry::new();
    registry.register(AnyTool::ReadFile(ReadFileTool::new("/tmp".to_string())));
    registry.register(AnyTool::WriteFile(WriteFileTool::new("/tmp".to_string())));

    let tool_list = registry.get_tool_list();
    assert!(tool_list.contains("read_file"));
    assert!(tool_list.contains("write_to_file"));
}

#[test]
fn tool_list_is_one_line_per_tool() {
    let mut registry = ToolRegistry::new();
    registry.register(AnyTool::RunTerminalCommand(RunTerminalCommandTool));
    assert_eq!(registry.get_tool_list(), "- run_terminal_command: runs a terminal command");

    registry.register(AnyTool::ReadFile(ReadFileTool::new("/p".to_string())));
    let listing = registry.get_tool_list();
    assert_eq!(listing.lines().count(), 2);
    assert!(listing.starts_with("- run_terminal_command: "));
}

#[test]
fn default_registry_holds_the_five_tools() {
    let registry = create_default_tools("/proj".to_string());
    assert_eq!(registry.len(), 5);
    for name in [
        "read_file",
        "write_to_file",
        "run_terminal_command",
        "create_directory",
        "create_file",
    ] {
        assert!(registry.get_tool(name).is_some(), "{} missing", name);
    }
}

#[test]
fn registering_the_same_name_replaces() {
    let mut registry = ToolRegistry::new();
    registry.register(AnyTool::ReadFile(ReadFileTool::new("/a".to_string())));
    registry.register(AnyTool::ReadFile(ReadFileTool::new("/b".to_string())));
    assert_eq!(registry.len(), 1);
    let tool = registry.get_tool("read_file").unwrap();
    match tool.plan(&vec!["x.txt".to_string()]).unwrap() {
        ToolRequest::ReadFile { path } => assert_eq!(path, "/b/x.txt"),
        other => panic!("unexpected request {:?}", other),
    }
}

#[test]
fn read_file_plan_validates_and_resolves() {
    let tool = ReadFileTool::new("/proj".to_string());
    match tool.plan(&vec!["notes.txt".to_string()]).unwrap() {
        ToolRequest::ReadFile { path } => assert_eq!(path, "/proj/notes.txt"),
        other => panic!("unexpected request {:?}", other),
    }
    // wrong arity
    let r = tool.plan(&vec![]);
    match r {
        Err(AgentError::RuntimeError(m)) => {
            assert_eq!(m, "read_file requires exactly one file path argument")
        }
        other => panic!("expected a runtime error, got {:?}", other),
    }
    // escape from the project root: rejected before any file operation
    assert!(tool.plan(&vec!["../secret".to_string()]).is_err());
}

#[test]
fn write_file_plan_keeps_content() {
    let tool = WriteFileTool::new("/proj".to_string());
    match tool
        .plan(&vec!["a.txt".to_string(), "hello".to_string()])
        .unwrap()
    {
        ToolRequest::WriteFile { path, content } => {
            assert_eq!(path, "/proj/a.txt");
            assert_eq!(content, "hello");
        }
        other => panic!("unexpected request {:?}", other),
    }
    assert!(tool.plan(&vec!["only-one".to_string()]).is_err());
    assert!(tool.plan(&vec!["../up".to_string(), "x".to_string()]).is_err());
}

#[test]
fn run_command_plan_takes_first_argument() {
    let tool = RunTerminalCommandTool;
    match tool.plan(&vec!["ls -la".to_string()]).unwrap() {
        ToolRequest::RunCommand { command } => assert_eq!(command, "ls -la"),
        other => panic!("unexpected request {:?}", other),
    }
    assert!(tool.plan(&vec![]).is_err());
}

#[test]
fn create_tools_plan_validates_and_resolves() {
    let d = CreateDirectoryTool::new("/proj".to_string());
    match d.plan(&vec!["sub/dir".to_string()]).unwrap() {
        ToolRequest::CreateDirectory { path } => assert_eq!(path, "/proj/sub/dir"),
        other => panic!("unexpected request {:?}", other),
    }
    assert!(d.plan(&vec![]).is_err());
    assert!(d.plan(&vec!["../../up".to_string()]).is_err());

    let f = CreateFileTool::new("/proj".to_string());
    match f.plan(&vec!["new.txt".to_string()]).unwrap() {
        ToolRequest::CreateFile { path } => assert_eq!(path, "/proj/new.txt"),
        other => panic!("unexpected request {:?}", other),
    }
    assert!(f.plan(&vec![]).is_err());
}

#[test]
fn unknown_tool_observation_names_the_tool() {
    assert_eq!(not_found_observation("bogus"), "tool 'bogus' does not exist");
}
