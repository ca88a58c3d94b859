//! The error kinds that the agent's core distinguishes, and their
//! one-line renderings.
use vstd::prelude::*;

use crate::text::append_str;

verus! {

/// One error of the agent. Configuration errors (`EnvVar`) are fatal at
/// startup; transport errors (`Api`) abort the current task; parse errors
/// are recovered by the conversation loop's retry path; tool-execution,
/// I/O and runtime errors end the current task.
#[derive(Debug, Clone)]
pub enum AgentError {
    ApiError(String),
    JsonError(String),
    EnvVarError(String),
    ToolExecutionError(String),
    ParseError(String),
    RuntimeError(String),
    IoError(String),
    CommandExecutionError(String),
}

/// The mathematical shadow of [`AgentError`]: the same variants over
/// character sequences.
pub ghost enum ErrV {
    Api(Seq<char>),
    Json(Seq<char>),
    EnvVar(Seq<char>),
    ToolExecution(Seq<char>),
    Parse(Seq<char>),
    Runtime(Seq<char>),
    Io(Seq<char>),
    CommandExecution(Seq<char>),
}

impl View for AgentError {
    type V = ErrV;

    open spec fn view(&self) -> ErrV {
        match self {
            AgentError::ApiError(m) => ErrV::Api(m@),
            AgentError::JsonError(m) => ErrV::Json(m@),
            AgentError::EnvVarError(m) => ErrV::EnvVar(m@),
            AgentError::ToolExecutionError(m) => ErrV::ToolExecution(m@),
            AgentError::ParseError(m) => ErrV::Parse(m@),
            AgentError::RuntimeError(m) => ErrV::Runtime(m@),
            AgentError::IoError(m) => ErrV::Io(m@),
            AgentError::CommandExecutionError(m) => ErrV::CommandExecution(m@),
        }
    }
}

/// The one-line rendering of an error: a fixed prefix naming the kind,
/// then the carried detail.
pub open spec fn spec_message(e: ErrV) -> Seq<char> {
    match e {
        ErrV::Api(m) => "API call failed: "@ + m,
        ErrV::Json(m) => "JSON error: "@ + m,
        ErrV::EnvVar(m) => "environment variable not set: "@ + m,
        ErrV::ToolExecution(m) => "tool execution error: "@ + m,
        ErrV::Parse(m) => "parse error: "@ + m,
        ErrV::Runtime(m) => "runtime error: "@ + m,
        ErrV::Io(m) => "I/O error: "@ + m,
        ErrV::CommandExecution(m) => "command execution error: "@ + m,
    }
}

impl AgentError {
    /// The one-line rendering of this error.
    pub fn message(&self) -> (r: String)
        ensures
            r@ == spec_message(self@),
    {
        let (prefix, detail): (&str, &String) = match self {
            AgentError::ApiError(m) => ("API call failed: ", m),
            AgentError::JsonError(m) => ("JSON error: ", m),
            AgentError::EnvVarError(m) => ("environment variable not set: ", m),
            AgentError::ToolExecutionError(m) => ("tool execution error: ", m),
            AgentError::ParseError(m) => ("parse error: ", m),
            AgentError::RuntimeError(m) => ("runtime error: ", m),
            AgentError::IoError(m) => ("I/O error: ", m),
            AgentError::CommandExecutionError(m) => ("command execution error: ", m),
        };
        let mut r = String::new();
        append_str(&mut r, prefix);
        append_str(&mut r, detail.as_str());
        assert(r@ =~= spec_message(self@));
        r
    }
}

pub type AgentResult<T> = Result<T, AgentError>;

} // verus!
