#![verifier::loop_isolation(false)]
//! A verified core for a ReAct-style command-line agent.
//!
//! The library covers the parts of the agent that decide and compute: scanning
//! model output for delimited `<thought>`, `<action>` and `<final_answer>`
//! segments, parsing call expressions of the form `name(arg, ...)`, confining
//! file-system paths to a project root, the tool registry, the system-prompt
//! renderer, and the conversation loop's state machine. The surrounding
//! program (model transport, file I/O, console prompts) lives outside the
//! library and drives the state machine with plain values.
pub mod agent;
pub mod errors;
pub mod parser;
pub mod paths;
pub mod prompt_template;
pub mod tags;
pub mod text;
pub mod tools;
pub mod types;
