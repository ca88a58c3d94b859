//! The tag extractor: recognises the three delimited segments that the model
//! may embed in free-form prose — `<thought>…</thought>`,
//! `<action>…</action>` and `<final_answer>…</final_answer>`.
//!
//! Extraction is non-greedy and takes one segment per tag type: the content
//! between the first opening delimiter anywhere in the text and the first
//! matching closing delimiter after it, trimmed of surrounding white space.
use vstd::prelude::*;

use crate::text::{find_from, spec_find_from, spec_trim, str_chars, trim_chars, chars_string};
use crate::text::copy_range;

verus! {

pub open spec fn thought_open() -> Seq<char> {
    "<thought>"@
}

pub open spec fn thought_close() -> Seq<char> {
    "</thought>"@
}

pub open spec fn action_open() -> Seq<char> {
    "<action>"@
}

pub open spec fn action_close() -> Seq<char> {
    "</action>"@
}

pub open spec fn final_answer_open() -> Seq<char> {
    "<final_answer>"@
}

pub open spec fn final_answer_close() -> Seq<char> {
    "</final_answer>"@
}

/// What extracting a delimited segment yields: the trimmed content between
/// the first occurrence of `open` and the first occurrence of `close` after
/// it, or nothing when either delimiter of the pair is missing.
pub open spec fn spec_extract(s: Seq<char>, open: Seq<char>, close: Seq<char>) -> Option<
    Seq<char>,
> {
    match spec_find_from(s, open, 0) {
        None => None,
        Some(i) => match spec_find_from(s, close, i + open.len()) {
            None => None,
            Some(j) => Some(spec_trim(s.subrange(i + open.len(), j))),
        },
    }
}

/// A complete pair in the sense of the buffering check: both delimiters
/// occur, and the first closing delimiter stands after the first opening
/// one.
pub open spec fn spec_has_pair(s: Seq<char>, open: Seq<char>, close: Seq<char>) -> bool {
    match (spec_find_from(s, open, 0), spec_find_from(s, close, 0)) {
        (Some(i), Some(j)) => j > i,
        _ => false,
    }
}

/// Both delimiters of the pair occur somewhere in `s`, in any order.
pub open spec fn spec_has_both(s: Seq<char>, open: Seq<char>, close: Seq<char>) -> bool {
    spec_find_from(s, open, 0) is Some && spec_find_from(s, close, 0) is Some
}

/// Extracts the first complete `open … close` segment of `content`.
fn extract_between(content: &Vec<char>, open: &Vec<char>, close: &Vec<char>) -> (r: Option<
    Vec<char>,
>)
    ensures
        match r {
            Some(c) => spec_extract(content@, open@, close@) == Some(c@),
            None => spec_extract(content@, open@, close@) is None,
        },
{
    let n: usize = content.len();
    match find_from(content, open, 0) {
        None => None,
        Some(i) => {
            proof {
                crate::text::lemma_find_from_bounds(content@, open@, 0);
            }
            assert(i + open@.len() <= n);
            let start: usize = i + open.len();
            match find_from(content, close, start) {
                None => None,
                Some(j) => {
                    let inner = copy_range(content, start, j);
                    Some(trim_chars(&inner))
                },
            }
        },
    }
}

/// Extracts the content of the first complete `<thought>…</thought>`
/// segment, trimmed.
pub fn extract_thought(content: &str) -> (r: Option<String>)
    ensures
        match r {
            Some(t) => spec_extract(content@, thought_open(), thought_close()) == Some(t@),
            None => spec_extract(content@, thought_open(), thought_close()) is None,
        },
{
    let cs = str_chars(content);
    match extract_between(&cs, &str_chars("<thought>"), &str_chars("</thought>")) {
        Some(v) => Some(chars_string(&v)),
        None => None,
    }
}

/// Extracts the content of the first complete
/// `<final_answer>…</final_answer>` segment, trimmed.
pub fn extract_final_answer(content: &str) -> (r: Option<String>)
    ensures
        match r {
            Some(t) => spec_extract(content@, final_answer_open(), final_answer_close()) == Some(
                t@,
            ),
            None => spec_extract(content@, final_answer_open(), final_answer_close()) is None,
        },
{
    let cs = str_chars(content);
    match extract_between(&cs, &str_chars("<final_answer>"), &str_chars("</final_answer>")) {
        Some(v) => Some(chars_string(&v)),
        None => None,
    }
}

/// Extracts the content of the first complete `<action>…</action>` segment,
/// trimmed. For any text that holds such a segment this returns its trimmed
/// content; for text missing either delimiter it returns nothing.
pub fn extract_action(content: &str) -> (r: Option<String>)
    ensures
        match r {
            Some(t) => spec_extract(content@, action_open(), action_close()) == Some(t@),
            None => spec_extract(content@, action_open(), action_close()) is None,
        },
{
    let cs = str_chars(content);
    match extract_between(&cs, &str_chars("<action>"), &str_chars("</action>")) {
        Some(v) => Some(chars_string(&v)),
        None => None,
    }
}

/// Whether `content` holds a complete action pair: both delimiters occur
/// and the first `</action>` stands after the first `<action>`.
pub fn has_complete_action(content: &str) -> (r: bool)
    ensures
        r == spec_has_pair(content@, action_open(), action_close()),
{
    let cs = str_chars(content);
    let open = str_chars("<action>");
    let close = str_chars("</action>");
    match (find_from(&cs, &open, 0), find_from(&cs, &close, 0)) {
        (Some(i), Some(j)) => j > i,
        _ => false,
    }
}

/// Whether a streamed buffer is worth processing: it holds both delimiters
/// of at least one of the three recognised tag pairs, in any order.
pub fn should_process_buffer(buffer: &str) -> (r: bool)
    ensures
        r == {
            ||| spec_has_both(buffer@, thought_open(), thought_close())
            ||| spec_has_both(buffer@, action_open(), action_close())
            ||| spec_has_both(buffer@, final_answer_open(), final_answer_close())
        },
{
    let cs = str_chars(buffer);
    let th = has_both(&cs, &str_chars("<thought>"), &str_chars("</thought>"));
    let ac = has_both(&cs, &str_chars("<action>"), &str_chars("</action>"));
    let fa = has_both(&cs, &str_chars("<final_answer>"), &str_chars("</final_answer>"));
    th || ac || fa
}

fn has_both(cs: &Vec<char>, open: &Vec<char>, close: &Vec<char>) -> (r: bool)
    ensures
        r == spec_has_both(cs@, open@, close@),
{
    let a = find_from(cs, open, 0);
    let b = find_from(cs, close, 0);
    a.is_some() && b.is_some()
}

} // verus!
