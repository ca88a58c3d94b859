//! The tool registry and the built-in tools' contracts.
//!
//! Each tool validates its argument list and resolves file paths against
//! the project directory; what comes out is a [`ToolRequest`], a plain
//! description of the file-system or process work to perform. The
//! surrounding program carries the request out and hands the resulting
//! observation text back to the conversation loop.
use vstd::prelude::*;

use crate::errors::{AgentError, ErrV};
use crate::paths::{confinement_error_msg, safe_resolve_path, spec_resolved, spec_within};
use crate::text::{join_strings, spec_join, str_eq, str_string};

verus! {

/// Which built-in capability a tool is.
#[derive(Debug, Clone, Copy, PartialEq, Eq, Structural)]
pub enum ToolKind {
    ReadFile,
    WriteToFile,
    RunTerminalCommand,
    CreateDirectory,
    CreateFile,
}

/// The work a planned tool invocation asks the surrounding program to
/// perform. Paths have already been resolved and confined to the project
/// directory.
#[derive(Debug)]
pub enum ToolRequest {
    ReadFile { path: String },
    WriteFile { path: String, content: String },
    RunCommand { command: String },
    CreateDirectory { path: String },
    CreateFile { path: String },
}

/// The mathematical shadow of a [`ToolRequest`].
pub ghost enum ToolRequestV {
    ReadFile { path: Seq<char> },
    WriteFile { path: Seq<char>, content: Seq<char> },
    RunCommand { command: Seq<char> },
    CreateDirectory { path: Seq<char> },
    CreateFile { path: Seq<char> },
}

impl View for ToolRequest {
    type V = ToolRequestV;

    open spec fn view(&self) -> ToolRequestV {
        match self {
            ToolRequest::ReadFile { path } => ToolRequestV::ReadFile { path: path@ },
            ToolRequest::WriteFile { path, content } => ToolRequestV::WriteFile {
                path: path@,
                content: content@,
            },
            ToolRequest::RunCommand { command } => ToolRequestV::RunCommand { command: command@ },
            ToolRequest::CreateDirectory { path } => ToolRequestV::CreateDirectory { path: path@ },
            ToolRequest::CreateFile { path } => ToolRequestV::CreateFile { path: path@ },
        }
    }
}

/// What a registry entry looks like to a contract: the tool's name, its
/// description, its kind, and the project directory it is bound to.
pub ghost struct ToolV {
    pub name: Seq<char>,
    pub description: Seq<char>,
    pub kind: ToolKind,
    pub project: Seq<char>,
}

pub open spec fn read_file_name() -> Seq<char> {
    "read_file"@
}

pub open spec fn write_to_file_name() -> Seq<char> {
    "write_to_file"@
}

pub open spec fn run_terminal_command_name() -> Seq<char> {
    "run_terminal_command"@
}

pub open spec fn create_directory_name() -> Seq<char> {
    "create_directory"@
}

pub open spec fn create_file_name() -> Seq<char> {
    "create_file"@
}

pub open spec fn read_file_description() -> Seq<char> {
    "reads the content of the given file; relative paths are resolved under the project directory"@
}

pub open spec fn write_to_file_description() -> Seq<char> {
    "writes the given content to the given file; relative paths are resolved under the project directory"@
}

pub open spec fn run_terminal_command_description() -> Seq<char> {
    "runs a terminal command"@
}

pub open spec fn create_directory_description() -> Seq<char> {
    "creates a directory, asking before a missing parent directory is created"@
}

pub open spec fn create_file_description() -> Seq<char> {
    "creates an empty file, asking before an existing file is overwritten; content is then written with write_to_file"@
}

pub open spec fn read_args_error() -> Seq<char> {
    "read_file requires exactly one file path argument"@
}

pub open spec fn write_args_error() -> Seq<char> {
    "write_to_file requires two arguments, a file path and the content"@
}

pub open spec fn run_args_error() -> Seq<char> {
    "run_terminal_command requires a command argument"@
}

pub open spec fn create_directory_args_error() -> Seq<char> {
    "create_directory requires exactly one directory path argument"@
}

pub open spec fn create_file_args_error() -> Seq<char> {
    "create_file requires exactly one file path argument"@
}

/// Resolving one path argument against the project directory: the
/// resolved path when it stays within, the confinement error when not.
pub open spec fn spec_resolve_arg(project: Seq<char>, user: Seq<char>) -> Result<
    Seq<char>,
    ErrV,
> {
    let resolved = spec_resolved(project, user);
    if spec_within(project, resolved) {
        Ok(resolved)
    } else {
        Err(ErrV::Runtime(confinement_error_msg(resolved, project)))
    }
}

/// What planning an invocation of tool `t` on `args` yields: the argument
/// count is checked first, then every path argument is resolved and
/// confined; the result is the request to perform, or the error that
/// rejects the invocation.
pub open spec fn spec_plan(t: ToolV, args: Seq<Seq<char>>) -> Result<ToolRequestV, ErrV> {
    match t.kind {
        ToolKind::ReadFile => {
            if args.len() != 1 {
                Err(ErrV::Runtime(read_args_error()))
            } else {
                match spec_resolve_arg(t.project, args[0]) {
                    Ok(p) => Ok(ToolRequestV::ReadFile { path: p }),
                    Err(e) => Err(e),
                }
            }
        },
        ToolKind::WriteToFile => {
            if args.len() != 2 {
                Err(ErrV::Runtime(write_args_error()))
            } else {
                match spec_resolve_arg(t.project, args[0]) {
                    Ok(p) => Ok(ToolRequestV::WriteFile { path: p, content: args[1] }),
                    Err(e) => Err(e),
                }
            }
        },
        ToolKind::RunTerminalCommand => {
            if args.len() == 0 {
                Err(ErrV::Runtime(run_args_error()))
            } else {
                Ok(ToolRequestV::RunCommand { command: args[0] })
            }
        },
        ToolKind::CreateDirectory => {
            if args.len() != 1 {
                Err(ErrV::Runtime(create_directory_args_error()))
            } else {
                match spec_resolve_arg(t.project, args[0]) {
                    Ok(p) => Ok(ToolRequestV::CreateDirectory { path: p }),
                    Err(e) => Err(e),
                }
            }
        },
        ToolKind::CreateFile => {
            if args.len() != 1 {
                Err(ErrV::Runtime(create_file_args_error()))
            } else {
                match spec_resolve_arg(t.project, args[0]) {
                    Ok(p) => Ok(ToolRequestV::CreateFile { path: p }),
                    Err(e) => Err(e),
                }
            }
        },
    }
}

/// The tool that reads a file inside the project directory.
#[derive(Debug)]
pub struct ReadFileTool {
    project_directory: String,
}

impl View for ReadFileTool {
    type V = ToolV;

    closed spec fn view(&self) -> ToolV {
        ToolV {
            name: read_file_name(),
            description: read_file_description(),
            kind: ToolKind::ReadFile,
            project: self.project_directory@,
        }
    }
}

impl ReadFileTool {
    pub fn new(project_directory: String) -> (r: Self)
        ensures
            r@ == (ToolV {
                name: read_file_name(),
                description: read_file_description(),
                kind: ToolKind::ReadFile,
                project: project_directory@,
            }),
    {
        ReadFileTool { project_directory }
    }

    pub fn name(&self) -> (r: &str)
        ensures
            r@ == self@.name,
    {
        "read_file"
    }

    pub fn description(&self) -> (r: &str)
        ensures
            r@ == self@.description,
    {
        "reads the content of the given file; relative paths are resolved under the project directory"
    }

    /// Validates the argument list and resolves the path.
    pub fn plan(&self, args: &Vec<String>) -> (r: Result<ToolRequest, AgentError>)
        ensures
            match r {
                Ok(req) => spec_plan(self@, args.deep_view()) == Ok::<ToolRequestV, ErrV>(req@),
                Err(e) => spec_plan(self@, args.deep_view()) == Err::<ToolRequestV, ErrV>(e@),
            },
    {
        if args.len() != 1 {
            return Err(
                AgentError::RuntimeError(
                    str_string("read_file requires exactly one file path argument"),
                ),
            );
        }
        let a0: &String = &args[0];
        proof {
            assert(args.deep_view()[0] == args@[0]@);
        }
        match safe_resolve_path(self.project_directory.as_str(), a0.as_str()) {
            Ok(p) => Ok(ToolRequest::ReadFile { path: p }),
            Err(e) => Err(e),
        }
    }
}

/// The tool that writes content to a file inside the project directory.
#[derive(Debug)]
pub struct WriteFileTool {
    project_directory: String,
}

impl View for WriteFileTool {
    type V = ToolV;

    closed spec fn view(&self) -> ToolV {
        ToolV {
            name: write_to_file_name(),
            description: write_to_file_description(),
            kind: ToolKind::WriteToFile,
            project: self.project_directory@,
        }
    }
}

impl WriteFileTool {
    pub fn new(project_directory: String) -> (r: Self)
        ensures
            r@ == (ToolV {
                name: write_to_file_name(),
                description: write_to_file_description(),
                kind: ToolKind::WriteToFile,
                project: project_directory@,
            }),
    {
        WriteFileTool { project_directory }
    }

    pub fn name(&self) -> (r: &str)
        ensures
            r@ == self@.name,
    {
        "write_to_file"
    }

    pub fn description(&self) -> (r: &str)
        ensures
            r@ == self@.description,
    {
        "writes the given content to the given file; relative paths are resolved under the project directory"
    }

    /// Validates the argument list and resolves the path; the second
    /// argument is the content to write.
    pub fn plan(&self, args: &Vec<String>) -> (r: Result<ToolRequest, AgentError>)
        ensures
            match r {
                Ok(req) => spec_plan(self@, args.deep_view()) == Ok::<ToolRequestV, ErrV>(req@),
                Err(e) => spec_plan(self@, args.deep_view()) == Err::<ToolRequestV, ErrV>(e@),
            },
    {
        if args.len() != 2 {
            return Err(
                AgentError::RuntimeError(
                    str_string("write_to_file requires two arguments, a file path and the content"),
                ),
            );
        }
        let a0: &String = &args[0];
        let a1: &String = &args[1];
        proof {
            assert(args.deep_view()[0] == args@[0]@);
            assert(args.deep_view()[1] == args@[1]@);
        }
        match safe_resolve_path(self.project_directory.as_str(), a0.as_str()) {
            Ok(p) => Ok(ToolRequest::WriteFile { path: p, content: a1.clone() }),
            Err(e) => Err(e),
        }
    }
}

/// The tool that runs a shell command; the conversation loop asks the
/// operator for confirmation before this tool is invoked.
#[derive(Debug)]
pub struct RunTerminalCommandTool;

impl View for RunTerminalCommandTool {
    type V = ToolV;

    open spec fn view(&self) -> ToolV {
        ToolV {
            name: run_terminal_command_name(),
            description: run_terminal_command_description(),
            kind: ToolKind::RunTerminalCommand,
            project: Seq::empty(),
        }
    }
}

impl RunTerminalCommandTool {
    pub fn name(&self) -> (r: &str)
        ensures
            r@ == self@.name,
    {
        "run_terminal_command"
    }

    pub fn description(&self) -> (r: &str)
        ensures
            r@ == self@.description,
    {
        "runs a terminal command"
    }

    /// Validates that a command was given; the first argument is the
    /// command line.
    pub fn plan(&self, args: &Vec<String>) -> (r: Result<ToolRequest, AgentError>)
        ensures
            match r {
                Ok(req) => spec_plan(self@, args.deep_view()) == Ok::<ToolRequestV, ErrV>(req@),
                Err(e) => spec_plan(self@, args.deep_view()) == Err::<ToolRequestV, ErrV>(e@),
            },
    {
        if args.len() == 0 {
            return Err(
                AgentError::RuntimeError(str_string("run_terminal_command requires a command argument")),
            );
        }
        let a0: &String = &args[0];
        proof {
            assert(args.deep_view()[0] == args@[0]@);
        }
        Ok(ToolRequest::RunCommand { command: a0.clone() })
    }
}

/// The tool that creates a directory inside the project directory.
#[derive(Debug)]
pub struct CreateDirectoryTool {
    project_directory: String,
}

impl View for CreateDirectoryTool {
    type V = ToolV;

    closed spec fn view(&self) -> ToolV {
        ToolV {
            name: create_directory_name(),
            description: create_directory_description(),
            kind: ToolKind::CreateDirectory,
            project: self.project_directory@,
        }
    }
}

impl CreateDirectoryTool {
    pub fn new(project_directory: String) -> (r: Self)
        ensures
            r@ == (ToolV {
                name: create_directory_name(),
                description: create_directory_description(),
                kind: ToolKind::CreateDirectory,
                project: project_directory@,
            }),
    {
        CreateDirectoryTool { project_directory }
    }

    pub fn name(&self) -> (r: &str)
        ensures
            r@ == self@.name,
    {
        "create_directory"
    }

    pub fn description(&self) -> (r: &str)
        ensures
            r@ == self@.description,
    {
        "creates a directory, asking before a missing parent directory is created"
    }

    /// Validates the argument list and resolves the path.
    pub fn plan(&self, args: &Vec<String>) -> (r: Result<ToolRequest, AgentError>)
        ensures
            match r {
                Ok(req) => spec_plan(self@, args.deep_view()) == Ok::<ToolRequestV, ErrV>(req@),
                Err(e) => spec_plan(self@, args.deep_view()) == Err::<ToolRequestV, ErrV>(e@),
            },
    {
        if args.len() != 1 {
            return Err(
                AgentError::RuntimeError(
                    str_string("create_directory requires exactly one directory path argument"),
                ),
            );
        }
        let a0: &String = &args[0];
        proof {
            assert(args.deep_view()[0] == args@[0]@);
        }
        match safe_resolve_path(self.project_directory.as_str(), a0.as_str()) {
            Ok(p) => Ok(ToolRequest::CreateDirectory { path: p }),
            Err(e) => Err(e),
        }
    }
}

/// The tool that creates an empty file inside the project directory.
#[derive(Debug)]
pub struct CreateFileTool {
    project_directory: String,
}

impl View for CreateFileTool {
    type V = ToolV;

    closed spec fn view(&self) -> ToolV {
        ToolV {
            name: create_file_name(),
            description: create_file_description(),
            kind: ToolKind::CreateFile,
            project: self.project_directory@,
        }
    }
}

impl CreateFileTool {
    pub fn new(project_directory: String) -> (r: Self)
        ensures
            r@ == (ToolV {
                name: create_file_name(),
                description: create_file_description(),
                kind: ToolKind::CreateFile,
                project: project_directory@,
            }),
    {
        CreateFileTool { project_directory }
    }

    pub fn name(&self) -> (r: &str)
        ensures
            r@ == self@.name,
    {
        "create_file"
    }

    pub fn description(&self) -> (r: &str)
        ensures
            r@ == self@.description,
    {
        "creates an empty file, asking before an existing file is overwritten; content is then written with write_to_file"
    }

    /// Validates the argument list and resolves the path.
    pub fn plan(&self, args: &Vec<String>) -> (r: Result<ToolRequest, AgentError>)
        ensures
            match r {
                Ok(req) => spec_plan(self@, args.deep_view()) == Ok::<ToolRequestV, ErrV>(req@),
                Err(e) => spec_plan(self@, args.deep_view()) == Err::<ToolRequestV, ErrV>(e@),
            },
    {
        if args.len() != 1 {
            return Err(
                AgentError::RuntimeError(
                    str_string("create_file requires exactly one file path argument"),
                ),
            );
        }
        let a0: &String = &args[0];
        proof {
            assert(args.deep_view()[0] == args@[0]@);
        }
        match safe_resolve_path(self.project_directory.as_str(), a0.as_str()) {
            Ok(p) => Ok(ToolRequest::CreateFile { path: p }),
            Err(e) => Err(e),
        }
    }
}

/// One registered tool: the closed set of built-in capabilities.
#[derive(Debug)]
pub enum AnyTool {
    ReadFile(ReadFileTool),
    WriteFile(WriteFileTool),
    RunTerminalCommand(RunTerminalCommandTool),
    CreateDirectory(CreateDirectoryTool),
    CreateFile(CreateFileTool),
}

impl View for AnyTool {
    type V = ToolV;

    open spec fn view(&self) -> ToolV {
        match self {
            AnyTool::ReadFile(t) => t@,
            AnyTool::WriteFile(t) => t@,
            AnyTool::RunTerminalCommand(t) => t@,
            AnyTool::CreateDirectory(t) => t@,
            AnyTool::CreateFile(t) => t@,
        }
    }
}

impl AnyTool {
    pub fn name(&self) -> (r: &str)
        ensures
            r@ == self@.name,
    {
        match self {
            AnyTool::ReadFile(t) => t.name(),
            AnyTool::WriteFile(t) => t.name(),
            AnyTool::RunTerminalCommand(t) => t.name(),
            AnyTool::CreateDirectory(t) => t.name(),
            AnyTool::CreateFile(t) => t.name(),
        }
    }

    pub fn description(&self) -> (r: &str)
        ensures
            r@ == self@.description,
    {
        match self {
            AnyTool::ReadFile(t) => t.description(),
            AnyTool::WriteFile(t) => t.description(),
            AnyTool::RunTerminalCommand(t) => t.description(),
            AnyTool::CreateDirectory(t) => t.description(),
            AnyTool::CreateFile(t) => t.description(),
        }
    }

    /// Validates the argument list for this tool and resolves its path
    /// arguments against the project directory it is bound to.
    pub fn plan(&self, args: &Vec<String>) -> (r: Result<ToolRequest, AgentError>)
        ensures
            match r {
                Ok(req) => spec_plan(self@, args.deep_view()) == Ok::<ToolRequestV, ErrV>(req@),
                Err(e) => spec_plan(self@, args.deep_view()) == Err::<ToolRequestV, ErrV>(e@),
            },
    {
        match self {
            AnyTool::ReadFile(t) => t.plan(args),
            AnyTool::WriteFile(t) => t.plan(args),
            AnyTool::RunTerminalCommand(t) => t.plan(args),
            AnyTool::CreateDirectory(t) => t.plan(args),
            AnyTool::CreateFile(t) => t.plan(args),
        }
    }
}

/// The first registered tool of the given name, if any.
pub open spec fn spec_lookup(ts: Seq<ToolV>, name: Seq<char>) -> Option<ToolV>
    decreases ts.len(),
{
    if ts.len() == 0 {
        None
    } else if ts[0].name == name {
        Some(ts[0])
    } else {
        spec_lookup(ts.drop_first(), name)
    }
}

/// Registration replaces the first tool of the same name, or appends at
/// the end.
pub open spec fn spec_register(ts: Seq<ToolV>, t: ToolV) -> Seq<ToolV>
    decreases ts.len(),
{
    if ts.len() == 0 {
        seq![t]
    } else if ts[0].name == t.name {
        seq![t] + ts.drop_first()
    } else {
        seq![ts[0]] + spec_register(ts.drop_first(), t)
    }
}

proof fn lemma_lookup_at(ts: Seq<ToolV>, name: Seq<char>, i: int)
    requires
        0 <= i < ts.len(),
        ts[i].name == name,
        forall|j: int| 0 <= j < i ==> ts[j].name != name,
    ensures
        spec_lookup(ts, name) == Some(ts[i]),
    decreases i,
{
    if i > 0 {
        lemma_lookup_at(ts.drop_first(), name, i - 1);
    }
}

proof fn lemma_lookup_none(ts: Seq<ToolV>, name: Seq<char>)
    requires
        forall|j: int| 0 <= j < ts.len() ==> ts[j].name != name,
    ensures
        spec_lookup(ts, name) is None,
    decreases ts.len(),
{
    if ts.len() > 0 {
        lemma_lookup_none(ts.drop_first(), name);
    }
}

proof fn lemma_register_found(ts: Seq<ToolV>, t: ToolV, i: int)
    requires
        0 <= i < ts.len(),
        ts[i].name == t.name,
        forall|j: int| 0 <= j < i ==> ts[j].name != t.name,
    ensures
        spec_register(ts, t) == ts.update(i, t),
    decreases i,
{
    if i == 0 {
        assert(seq![t] + ts.drop_first() =~= ts.update(0, t));
    } else {
        lemma_register_found(ts.drop_first(), t, i - 1);
        assert(seq![ts[0]] + ts.drop_first().update(i - 1, t) =~= ts.update(i, t));
    }
}

proof fn lemma_register_absent(ts: Seq<ToolV>, t: ToolV)
    requires
        forall|j: int| 0 <= j < ts.len() ==> ts[j].name != t.name,
    ensures
        spec_register(ts, t) == ts.push(t),
    decreases ts.len(),
{
    if ts.len() == 0 {
        assert(seq![t] =~= ts.push(t));
    } else {
        lemma_register_absent(ts.drop_first(), t);
        assert(seq![ts[0]] + ts.drop_first().push(t) =~= ts.push(t));
    }
}

/// The line the system prompt shows for one tool.
pub open spec fn tool_line(t: ToolV) -> Seq<char> {
    "- "@ + t.name + ": "@ + t.description
}

/// The rendered tool list: one line per registered tool, in registration
/// order.
pub open spec fn spec_tool_list(ts: Seq<ToolV>) -> Seq<char> {
    spec_join(ts.map_values(|t: ToolV| tool_line(t)), "\n"@)
}

/// The observation handed back to the model when it names an unknown
/// tool.
pub open spec fn not_found_msg(name: Seq<char>) -> Seq<char> {
    "tool '"@ + name + "' does not exist"@
}

/// Renders the observation for an unknown tool name.
pub fn not_found_observation(name: &str) -> (r: String)
    ensures
        r@ == not_found_msg(name@),
{
    let mut r = String::new();
    crate::text::append_str(&mut r, "tool '");
    crate::text::append_str(&mut r, name);
    crate::text::append_str(&mut r, "' does not exist");
    assert(r@ =~= not_found_msg(name@));
    r
}

/// The mapping from tool names to tools, built once at startup and only
/// changed through explicit registration.
#[derive(Debug)]
pub struct ToolRegistry {
    tools: Vec<AnyTool>,
}

impl View for ToolRegistry {
    type V = Seq<ToolV>;

    closed spec fn view(&self) -> Seq<ToolV> {
        self.tools@.map_values(|t: AnyTool| t@)
    }
}

impl ToolRegistry {
    /// An empty registry.
    pub fn new() -> (r: Self)
        ensures
            r@ == Seq::<ToolV>::empty(),
    {
        let r = ToolRegistry { tools: Vec::new() };
        assert(r@ =~= Seq::<ToolV>::empty());
        r
    }

    /// The number of registered tools.
    pub fn len(&self) -> (r: usize)
        ensures
            r == self@.len(),
    {
        self.tools.len()
    }

    /// Registers a tool under its name: a tool of the same name is
    /// replaced, a new name is appended.
    pub fn register(&mut self, tool: AnyTool)
        ensures
            final(self)@ == spec_register(old(self)@, tool@),
    {
        let n: usize = self.tools.len();
        let mut found: Option<usize> = None;
        let mut i: usize = 0;
        while i < n
            invariant
                i <= n,
                n == self.tools@.len(),
                self@.len() == self.tools@.len(),
                self == old(self),
                match found {
                    None => forall|j: int| 0 <= j < i ==> self@[j].name != tool@.name,
                    Some(k) => k < i && self@[k as int].name == tool@.name && forall|j: int|
                        0 <= j < k ==> self@[j].name != tool@.name,
                },
            decreases n - i,
        {
            if found.is_none() {
                let t: &AnyTool = &self.tools[i];
                proof {
                    assert(t@ == self@[i as int]);
                }
                if str_eq(t.name(), tool.name()) {
                    found = Some(i);
                }
            }
            i = i + 1;
        }
        match found {
            Some(k) => {
                proof {
                    lemma_register_found(old(self)@, tool@, k as int);
                }
                self.tools.remove(k);
                self.tools.insert(k, tool);
                proof {
                    assert(self.tools@ =~= old(self).tools@.update(k as int, tool));
                    assert(self@ =~= old(self)@.update(k as int, tool@));
                }
            },
            None => {
                proof {
                    lemma_register_absent(old(self)@, tool@);
                }
                self.tools.push(tool);
                proof {
                    assert(self@ =~= old(self)@.push(tool@));
                }
            },
        }
    }

    /// The first registered tool of the given name, if any.
    pub fn get_tool(&self, name: &str) -> (r: Option<&AnyTool>)
        ensures
            match r {
                Some(t) => spec_lookup(self@, name@) == Some(t@),
                None => spec_lookup(self@, name@) is None,
            },
    {
        let n: usize = self.tools.len();
        let mut i: usize = 0;
        while i < n
            invariant
                i <= n,
                n == self.tools@.len(),
                self@.len() == self.tools@.len(),
                forall|j: int| 0 <= j < i ==> self@[j].name != name@,
            decreases n - i,
        {
            let t: &AnyTool = &self.tools[i];
            proof {
                assert(t@ == self@[i as int]);
            }
            if str_eq(t.name(), name) {
                proof {
                    lemma_lookup_at(self@, name@, i as int);
                }
                return Some(t);
            }
            i = i + 1;
        }
        proof {
            lemma_lookup_none(self@, name@);
        }
        None
    }

    /// The human-readable tool list for the system prompt: one
    /// `- name: description` line per tool.
    pub fn get_tool_list(&self) -> (r: String)
        ensures
            r@ == spec_tool_list(self@),
    {
        let n: usize = self.tools.len();
        let mut lines: Vec<String> = Vec::new();
        let mut i: usize = 0;
        proof {
            assert(lines.deep_view() =~= self@.take(0).map_values(|t: ToolV| tool_line(t)));
        }
        while i < n
            invariant
                i <= n,
                n == self.tools@.len(),
                self@.len() == self.tools@.len(),
                lines.deep_view() == self@.take(i as int).map_values(|t: ToolV| tool_line(t)),
            decreases n - i,
        {
            let t: &AnyTool = &self.tools[i];
            proof {
                assert(t@ == self@[i as int]);
            }
            let mut line = String::new();
            crate::text::append_str(&mut line, "- ");
            crate::text::append_str(&mut line, t.name());
            crate::text::append_str(&mut line, ": ");
            crate::text::append_str(&mut line, t.description());
            assert(line@ =~= tool_line(self@[i as int]));
            lines.push(line);
            proof {
                let f = |t: ToolV| tool_line(t);
                assert(lines.deep_view() =~= self@.take(i + 1).map_values(f)) by {
                    assert(self@.take(i + 1).map_values(f).len() == i + 1);
                    assert forall|k: int| 0 <= k < i + 1 implies lines.deep_view()[k] == self@.take(
                        i + 1,
                    ).map_values(f)[k] by {
                        if k < i {
                            assert(lines.deep_view()[k] == self@.take(i as int).map_values(f)[k]);
                        }
                    }
                }
            }
            i = i + 1;
        }
        proof {
            assert(self@.take(n as int) =~= self@);
        }
        join_strings(&lines, "\n")
    }

    /// The registered tools, in registration order.
    pub fn list_tools(&self) -> (r: &Vec<AnyTool>)
        ensures
            r@.len() == self@.len(),
            forall|i: int| 0 <= i < r@.len() ==> r@[i]@ == self@[i],
    {
        &self.tools
    }
}

impl Default for ToolRegistry {
    /// An empty registry.
    fn default() -> (r: Self)
        ensures
            r@ == Seq::<ToolV>::empty(),
    {
        ToolRegistry::new()
    }
}

/// Builds the registry the agent starts with: the five built-in tools,
/// bound to the given project directory, each registered under its own
/// name.
pub fn create_default_tools(project_directory: String) -> (r: ToolRegistry)
    ensures
        r@.len() == 5,
        r@[0] == (ToolV {
            name: read_file_name(),
            description: read_file_description(),
            kind: ToolKind::ReadFile,
            project: project_directory@,
        }),
        r@[1] == (ToolV {
            name: write_to_file_name(),
            description: write_to_file_description(),
            kind: ToolKind::WriteToFile,
            project: project_directory@,
        }),
        r@[2] == (ToolV {
            name: run_terminal_command_name(),
            description: run_terminal_command_description(),
            kind: ToolKind::RunTerminalCommand,
            project: Seq::<char>::empty(),
        }),
        r@[3] == (ToolV {
            name: create_directory_name(),
            description: create_directory_description(),
            kind: ToolKind::CreateDirectory,
            project: project_directory@,
        }),
        r@[4] == (ToolV {
            name: create_file_name(),
            description: create_file_description(),
            kind: ToolKind::CreateFile,
            project: project_directory@,
        }),
{
    proof {
        lemma_tool_names_distinct();
    }
    let mut registry = ToolRegistry::new();
    let t1 = ReadFileTool::new(project_directory.clone());
    let ghost v1 = t1@;
    registry.register(AnyTool::ReadFile(t1));
    proof {
        assert(registry@ =~= seq![v1]);
    }
    let t2 = WriteFileTool::new(project_directory.clone());
    let ghost v2 = t2@;
    registry.register(AnyTool::WriteFile(t2));
    proof {
        lemma_register_absent(seq![v1], v2);
        assert(registry@ =~= seq![v1, v2]);
    }
    let t3 = RunTerminalCommandTool;
    let ghost v3 = t3@;
    registry.register(AnyTool::RunTerminalCommand(t3));
    proof {
        lemma_register_absent(seq![v1, v2], v3);
        assert(registry@ =~= seq![v1, v2, v3]);
    }
    let t4 = CreateDirectoryTool::new(project_directory.clone());
    let ghost v4 = t4@;
    registry.register(AnyTool::CreateDirectory(t4));
    proof {
        lemma_register_absent(seq![v1, v2, v3], v4);
        assert(registry@ =~= seq![v1, v2, v3, v4]);
    }
    let t5 = CreateFileTool::new(project_directory);
    let ghost v5 = t5@;
    registry.register(AnyTool::CreateFile(t5));
    proof {
        lemma_register_absent(seq![v1, v2, v3, v4], v5);
        assert(registry@ =~= seq![v1, v2, v3, v4, v5]);
    }
    registry
}

/// The five built-in tool names differ pairwise (their lengths already
/// differ).
pub proof fn lemma_tool_names_distinct()
    ensures
        read_file_name().len() == 9,
        write_to_file_name().len() == 13,
        run_terminal_command_name().len() == 20,
        create_directory_name().len() == 16,
        create_file_name().len() == 11,
{
    reveal_strlit("read_file");
    reveal_strlit("write_to_file");
    reveal_strlit("run_terminal_command");
    reveal_strlit("create_directory");
    reveal_strlit("create_file");
}

} // verus!
