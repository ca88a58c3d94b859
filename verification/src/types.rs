//! The agent's own data types: conversation messages and the steps a task
//! passes through.
use vstd::prelude::*;

verus! {

/// The role of one conversation message.
#[derive(Debug, Clone, Copy, PartialEq, Eq, Structural)]
pub enum Role {
    System,
    User,
    Assistant,
}

/// One turn of the conversation: a role and its text content.
#[derive(Debug, Clone)]
pub struct Message {
    pub role: Role,
    pub content: String,
}

/// The mathematical shadow of a [`Message`].
pub ghost struct MessageV {
    pub role: Role,
    pub content: Seq<char>,
}

impl View for Message {
    type V = MessageV;

    open spec fn view(&self) -> MessageV {
        MessageV { role: self.role, content: self.content@ }
    }
}

/// A parsed tool invocation: the tool's name and its decoded arguments, in
/// order.
#[derive(Debug, Clone)]
pub struct ToolCall {
    pub name: String,
    pub arguments: Vec<String>,
}

/// A reasoning note surfaced by the model.
#[derive(Debug, Clone)]
pub struct Thought {
    pub content: String,
}

/// A tool invocation requested by the model.
#[derive(Debug, Clone)]
pub struct Action {
    pub tool_call: ToolCall,
}

/// The text result of executing a tool, fed back to the model.
#[derive(Debug, Clone)]
pub struct Observation {
    pub content: String,
}

/// The model's final answer, ending the task.
#[derive(Debug, Clone)]
pub struct FinalAnswer {
    pub content: String,
}

/// One step of a running task.
#[derive(Debug, Clone)]
pub enum AgentStep {
    Thought(Thought),
    Action(Action),
    Observation(Observation),
    FinalAnswer(FinalAnswer),
}

/// A snapshot of a task: the message list so far and the step being taken.
#[derive(Debug, Clone)]
pub struct AgentState {
    pub messages: Vec<Message>,
    pub current_step: Option<AgentStep>,
}

impl Default for AgentState {
    /// The state before a task starts: no messages, no current step.
    fn default() -> (r: Self)
        ensures
            r.messages@.len() == 0,
            r.current_step is None,
    {
        AgentState { messages: Vec::new(), current_step: None }
    }
}

} // verus!
