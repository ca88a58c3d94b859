//! The system-prompt renderer: a fixed template around three computed
//! inputs — the tool list, the operating-system display name, and the
//! entries of the project root directory.
use vstd::prelude::*;

use crate::text::append_str;

verus! {

pub open spec fn prompt_part_head() -> Seq<char> {
    "You are an agent that solves the operator's task step by step, by thinking, acting and observing in turns. In every reply, first reason inside <thought>...</thought>. Then either call exactly one tool inside <action>...</action>, written as tool_name(arg1, arg2), or finish the task with the answer inside <final_answer>...</final_answer>. String arguments may be quoted with double or single quotes. After an action, wait for the <observation>...</observation> reply before taking the next step.\n\nAvailable tools:\n"@
}

pub open spec fn prompt_part_os() -> Seq<char> {
    "\n\nOperating system: "@
}

pub open spec fn prompt_part_files() -> Seq<char> {
    "\nEntries in the project root directory: "@
}

pub open spec fn prompt_part_tail() -> Seq<char> {
    "\n"@
}

/// The rendered system prompt: the fixed template around the three
/// computed inputs.
pub open spec fn spec_prompt(tools: Seq<char>, os: Seq<char>, files: Seq<char>) -> Seq<char> {
    prompt_part_head() + tools + prompt_part_os() + os + prompt_part_files() + files
        + prompt_part_tail()
}

/// Renders the system prompt from the three computed inputs.
#[derive(Debug)]
pub struct PromptRenderer;

impl PromptRenderer {
    pub fn new() -> (r: Self) {
        PromptRenderer
    }

    /// The rendered prompt holds the tool list, the operating-system name
    /// and the file list, each in its place in the fixed template.
    pub fn render(&self, tool_list: &str, operating_system: &str, file_list: &str) -> (r: String)
        ensures
            r@ == spec_prompt(tool_list@, operating_system@, file_list@),
    {
        let mut r = String::new();
        append_str(
            &mut r,
            "You are an agent that solves the operator's task step by step, by thinking, acting and observing in turns. In every reply, first reason inside <thought>...</thought>. Then either call exactly one tool inside <action>...</action>, written as tool_name(arg1, arg2), or finish the task with the answer inside <final_answer>...</final_answer>. String arguments may be quoted with double or single quotes. After an action, wait for the <observation>...</observation> reply before taking the next step.\n\nAvailable tools:\n",
        );
        append_str(&mut r, tool_list);
        append_str(&mut r, "\n\nOperating system: ");
        append_str(&mut r, operating_system);
        append_str(&mut r, "\nEntries in the project root directory: ");
        append_str(&mut r, file_list);
        append_str(&mut r, "\n");
        assert(r@ =~= spec_prompt(tool_list@, operating_system@, file_list@));
        r
    }
}

impl Default for PromptRenderer {
    fn default() -> (r: Self) {
        PromptRenderer::new()
    }
}

} // verus!
