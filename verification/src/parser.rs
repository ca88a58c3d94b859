//! The call-expression parser: turns a string of the shape
//! `name(arg, arg, ...)` into the tool name and its decoded arguments.
//!
//! Argument splitting is one left-to-right character scan with three pieces
//! of state: whether the cursor is inside a quoted string, which quote
//! character opened it, and a parenthesis-nesting depth used only outside of
//! quotes. A comma splits only at nesting depth zero outside any string. A
//! quote closes a string only when not immediately preceded by a backslash
//! (a plain look-back, so a doubled backslash before a quote still closes —
//! a deliberate, preserved quirk). Quoted arguments are unwrapped and six
//! fixed escape sequences are substituted, each in one pass, in a fixed
//! order; unquoted arguments are kept as written.
use vstd::prelude::*;

use crate::errors::{AgentError, ErrV};
use crate::text::{
    chars_string, copy_range, replace_all, spec_replace, spec_trim, str_chars, trim_chars,
};

verus! {

/// A word character: an ASCII letter, an ASCII digit, or an underscore.
pub open spec fn is_word_char(c: char) -> bool {
    ||| ('a' as u32) <= (c as u32) && (c as u32) <= ('z' as u32)
    ||| ('A' as u32) <= (c as u32) && (c as u32) <= ('Z' as u32)
    ||| ('0' as u32) <= (c as u32) && (c as u32) <= ('9' as u32)
    ||| c == '_'
}

/// Executable test for [`is_word_char`].
pub fn word_char(c: char) -> (r: bool)
    ensures
        r == is_word_char(c),
{
    ((c as u32) >= ('a' as u32) && (c as u32) <= ('z' as u32)) || ((c as u32) >= ('A' as u32) && (c
        as u32) <= ('Z' as u32)) || ((c as u32) >= ('0' as u32) && (c as u32) <= ('9' as u32)) || c
        == '_'
}

/// The length of the run of word characters in `s` starting at `i`.
pub open spec fn word_run_len(s: Seq<char>, i: int) -> int
    decreases s.len() - i,
{
    if 0 <= i < s.len() && is_word_char(s[i]) {
        1 + word_run_len(s, i + 1)
    } else {
        0
    }
}

proof fn lemma_word_run(s: Seq<char>, i: int, k: int)
    requires
        0 <= i <= k <= s.len(),
        forall|j: int| i <= j < k ==> is_word_char(s[j]),
        k == s.len() || !is_word_char(s[k]),
    ensures
        word_run_len(s, i) == k - i,
    decreases k - i,
{
    if i < k {
        lemma_word_run(s, i + 1, k);
    }
}

/// The position of the last occurrence of `c` in `s`, if any.
pub open spec fn spec_last_index_of(s: Seq<char>, c: char) -> Option<int>
    decreases s.len(),
{
    if s.len() == 0 {
        None
    } else if s.last() == c {
        Some(s.len() - 1)
    } else {
        spec_last_index_of(s.drop_last(), c)
    }
}

proof fn lemma_last_index_of(s: Seq<char>, c: char)
    ensures
        match spec_last_index_of(s, c) {
            Some(j) => 0 <= j < s.len() && s[j] == c && forall|k: int|
                j < k < s.len() ==> s[k] != c,
            None => forall|k: int| 0 <= k < s.len() ==> s[k] != c,
        },
    decreases s.len(),
{
    if s.len() > 0 && s.last() != c {
        lemma_last_index_of(s.drop_last(), c);
        let d = s.drop_last();
        assert(forall|k: int| 0 <= k < d.len() ==> d[k] == s[k]);
        match spec_last_index_of(d, c) {
            Some(j) => {
                assert(s[j] == d[j]);
                assert forall|k: int| j < k < s.len() implies s[k] != c by {
                    if k < s.len() - 1 {
                        assert(d[k] != c);
                    }
                }
            },
            None => {
                assert forall|k: int| 0 <= k < s.len() implies s[k] != c by {
                    if k < s.len() - 1 {
                        assert(d[k] != c);
                    }
                }
            },
        }
    }
}

/// The raw comma-separated chunks of `s[i..]`, scanning with the given
/// state: inside a string opened by `q` (or not), at parenthesis depth
/// `depth`. The first chunk of the result is the one the scan is in the
/// middle of; a top-level comma starts a new chunk.
pub open spec fn chunks_from(s: Seq<char>, i: int, in_str: bool, q: char, depth: int) -> Seq<
    Seq<char>,
>
    decreases s.len() - i,
{
    if i < 0 || i >= s.len() {
        seq![Seq::<char>::empty()]
    } else {
        let c = s[i];
        if in_str {
            let closes = c == q && (i == 0 || s[i - 1] != '\\');
            let rest = chunks_from(s, i + 1, !closes, q, depth);
            rest.update(0, seq![c] + rest[0])
        } else if c == ',' && depth == 0 {
            seq![Seq::<char>::empty()] + chunks_from(s, i + 1, false, q, depth)
        } else if c == '"' || c == '\'' {
            let rest = chunks_from(s, i + 1, true, c, depth);
            rest.update(0, seq![c] + rest[0])
        } else if c == '(' {
            let rest = chunks_from(s, i + 1, false, q, depth + 1);
            rest.update(0, seq![c] + rest[0])
        } else if c == ')' {
            let rest = chunks_from(s, i + 1, false, q, depth - 1);
            rest.update(0, seq![c] + rest[0])
        } else {
            let rest = chunks_from(s, i + 1, false, q, depth);
            rest.update(0, seq![c] + rest[0])
        }
    }
}

proof fn lemma_chunks_nonempty(s: Seq<char>, i: int, in_str: bool, q: char, depth: int)
    ensures
        chunks_from(s, i, in_str, q, depth).len() >= 1,
    decreases s.len() - i,
{
    if 0 <= i < s.len() {
        let c = s[i];
        if in_str {
            let closes = c == q && (i == 0 || s[i - 1] != '\\');
            lemma_chunks_nonempty(s, i + 1, !closes, q, depth);
        } else if c == ',' && depth == 0 {
            lemma_chunks_nonempty(s, i + 1, false, q, depth);
        } else if c == '"' || c == '\'' {
            lemma_chunks_nonempty(s, i + 1, true, c, depth);
        } else if c == '(' {
            lemma_chunks_nonempty(s, i + 1, false, q, depth + 1);
        } else if c == ')' {
            lemma_chunks_nonempty(s, i + 1, false, q, depth - 1);
        } else {
            lemma_chunks_nonempty(s, i + 1, false, q, depth);
        }
    }
}

/// The six escape substitutions applied to the interior of a quoted
/// argument, each once, in this fixed order: `\"`, `\'`, `\n`, `\t`, `\r`,
/// `\\`.
pub open spec fn spec_decode_escapes(s: Seq<char>) -> Seq<char> {
    spec_replace(
        spec_replace(
            spec_replace(
                spec_replace(
                    spec_replace(spec_replace(s, seq!['\\', '"'], seq!['"']), seq!['\\', '\''], seq!['\'']),
                    seq!['\\', 'n'],
                    seq!['\n'],
                ),
                seq!['\\', 't'],
                seq!['\t'],
            ),
            seq!['\\', 'r'],
            seq!['\r'],
        ),
        seq!['\\', '\\'],
        seq!['\\'],
    )
}

/// What decoding one argument yields: the argument is trimmed; if the
/// result is wrapped in one matching pair of `"` or `'`, the wrapping
/// quotes are stripped and the interior's escapes substituted (a lone
/// quote character decodes to the empty string); anything else is kept as
/// written.
pub open spec fn spec_decode_arg(a: Seq<char>) -> Seq<char> {
    let t = spec_trim(a);
    if t.len() >= 1 && ((t[0] == '"' && t.last() == '"') || (t[0] == '\'' && t.last() == '\'')) {
        if t.len() >= 2 {
            spec_decode_escapes(t.subrange(1, t.len() - 1))
        } else {
            Seq::<char>::empty()
        }
    } else {
        t
    }
}

/// What splitting and decoding a whole argument list yields: the raw
/// chunks between top-level commas, each decoded; the final chunk is kept
/// only when it is not blank.
pub open spec fn spec_parse_args(s: Seq<char>) -> Seq<Seq<char>> {
    let chunks = chunks_from(s, 0, false, '"', 0);
    let kept = if spec_trim(chunks.last()).len() == 0 {
        chunks.drop_last()
    } else {
        chunks
    };
    kept.map_values(|c: Seq<char>| spec_decode_arg(c))
}

/// What parsing a call expression yields: the leading word-character run
/// as the name, which must be followed directly by `(`; the argument list
/// is the text between that `(` and the last `)` of the string, trimmed,
/// then split and decoded. Anything else is a malformed call shape.
pub open spec fn spec_parse_action(s: Seq<char>) -> Option<(Seq<char>, Seq<Seq<char>>)> {
    let k = word_run_len(s, 0);
    if k == 0 || k >= s.len() || s[k] != '(' {
        None
    } else {
        let lj = spec_last_index_of(s, ')');
        if lj is Some && lj->0 > k {
            Some(
                (
                    s.subrange(0, k),
                    spec_parse_args(spec_trim(s.subrange(k + 1, lj->0))),
                ),
            )
        } else {
            None
        }
    }
}

/// The diagnostic carried by the parse error for a malformed call shape.
pub open spec fn parse_error_msg(s: Seq<char>) -> Seq<char> {
    "invalid function call syntax: "@ + s
}

fn one_char(a: char) -> (r: Vec<char>)
    ensures
        r@ == seq![a],
{
    let mut r: Vec<char> = Vec::new();
    r.push(a);
    assert(r@ =~= seq![a]);
    r
}

fn two_chars(a: char, b: char) -> (r: Vec<char>)
    ensures
        r@ == seq![a, b],
{
    let mut r: Vec<char> = Vec::new();
    r.push(a);
    r.push(b);
    assert(r@ =~= seq![a, b]);
    r
}

/// Substitutes the six escape sequences, each in one pass, in the fixed
/// order.
fn decode_escapes(v: &Vec<char>) -> (r: Vec<char>)
    ensures
        r@ == spec_decode_escapes(v@),
{
    let v1 = replace_all(v, &two_chars('\\', '"'), &one_char('"'));
    let v2 = replace_all(&v1, &two_chars('\\', '\''), &one_char('\''));
    let v3 = replace_all(&v2, &two_chars('\\', 'n'), &one_char('\n'));
    let v4 = replace_all(&v3, &two_chars('\\', 't'), &one_char('\t'));
    let v5 = replace_all(&v4, &two_chars('\\', 'r'), &one_char('\r'));
    let v6 = replace_all(&v5, &two_chars('\\', '\\'), &one_char('\\'));
    v6
}

/// Decodes one raw argument chunk.
fn decode_arg(v: &Vec<char>) -> (r: String)
    ensures
        r@ == spec_decode_arg(v@),
{
    let t = trim_chars(v);
    let n = t.len();
    if n >= 1 && ((t[0] == '"' && t[n - 1] == '"') || (t[0] == '\'' && t[n - 1] == '\'')) {
        if n >= 2 {
            let inner = copy_range(&t, 1, n - 1);
            let decoded = decode_escapes(&inner);
            chars_string(&decoded)
        } else {
            String::new()
        }
    } else {
        chars_string(&t)
    }
}

/// Decodes one argument given as a string: unwraps one matching pair of
/// quotes and substitutes the escape sequences, or returns the trimmed
/// text as written.
pub fn parse_single_arg(arg_str: &str) -> (r: String)
    ensures
        r@ == spec_decode_arg(arg_str@),
{
    let cs = str_chars(arg_str);
    decode_arg(&cs)
}

fn parse_args_chars(s: &Vec<char>) -> (args: Vec<String>)
    ensures
        args.deep_view() == spec_parse_args(s@),
{
    let n: usize = s.len();
    let mut args: Vec<String> = Vec::new();
    let mut cur: Vec<char> = Vec::new();
    let mut in_string: bool = false;
    let mut quote: char = '"';
    let mut depth: i128 = 0;
    let mut i: usize = 0;
    let ghost mut done: Seq<Seq<char>> = Seq::empty();
    proof {
        lemma_chunks_nonempty(s@, 0, false, '"', 0);
        let rest = chunks_from(s@, 0, false, '"', 0);
        assert(Seq::<Seq<char>>::empty().push(Seq::<char>::empty() + rest[0])
            + rest.drop_first() =~= rest);
    }
    while i < n
        invariant
            i <= n,
            n == s@.len(),
            -(i as int) <= depth as int <= i as int,
            args.deep_view() == done.map_values(|c: Seq<char>| spec_decode_arg(c)),
            ({
                let rest = chunks_from(s@, i as int, in_string, quote, depth as int);
                chunks_from(s@, 0, false, '"', 0) == done.push(cur@ + rest[0])
                    + rest.drop_first()
            }),
        decreases n - i,
    {
        let c = s[i];
        let ghost rest1 = chunks_from(s@, i as int, in_string, quote, depth as int);
        if in_string {
            let closes: bool = c == quote && (i == 0 || s[i - 1] != '\\');
            proof {
                let rest2 = chunks_from(s@, i + 1, !closes, quote, depth as int);
                lemma_chunks_nonempty(s@, i + 1, !closes, quote, depth as int);
                assert(rest1 == rest2.update(0, seq![c] + rest2[0]));
                assert(rest1.drop_first() =~= rest2.drop_first());
                assert(cur@ + rest1[0] =~= cur@.push(c) + rest2[0]);
            }
            cur.push(c);
            if closes {
                in_string = false;
            }
        } else if c == '"' || c == '\'' {
            proof {
                let rest2 = chunks_from(s@, i + 1, true, c, depth as int);
                lemma_chunks_nonempty(s@, i + 1, true, c, depth as int);
                assert(rest1 == rest2.update(0, seq![c] + rest2[0]));
                assert(rest1.drop_first() =~= rest2.drop_first());
                assert(cur@ + rest1[0] =~= cur@.push(c) + rest2[0]);
            }
            in_string = true;
            quote = c;
            cur.push(c);
        } else if c == '(' {
            proof {
                let rest2 = chunks_from(s@, i + 1, false, quote, depth as int + 1);
                lemma_chunks_nonempty(s@, i + 1, false, quote, depth as int + 1);
                assert(rest1 == rest2.update(0, seq![c] + rest2[0]));
                assert(rest1.drop_first() =~= rest2.drop_first());
                assert(cur@ + rest1[0] =~= cur@.push(c) + rest2[0]);
            }
            depth = depth + 1;
            cur.push(c);
        } else if c == ')' {
            proof {
                let rest2 = chunks_from(s@, i + 1, false, quote, depth as int - 1);
                lemma_chunks_nonempty(s@, i + 1, false, quote, depth as int - 1);
                assert(rest1 == rest2.update(0, seq![c] + rest2[0]));
                assert(rest1.drop_first() =~= rest2.drop_first());
                assert(cur@ + rest1[0] =~= cur@.push(c) + rest2[0]);
            }
            depth = depth - 1;
            cur.push(c);
        } else if c == ',' && depth == 0 {
            proof {
                let rest2 = chunks_from(s@, i + 1, false, quote, 0);
                lemma_chunks_nonempty(s@, i + 1, false, quote, 0);
                assert(rest1 == seq![Seq::<char>::empty()] + rest2);
                assert(rest1[0] =~= Seq::<char>::empty());
                assert(rest1.drop_first() =~= rest2);
                assert(cur@ + rest1[0] =~= cur@);
                assert(rest2 =~= seq![rest2[0]] + rest2.drop_first());
                assert(done.push(cur@ + rest1[0]) + rest1.drop_first() =~= done.push(cur@).push(
                    Seq::<char>::empty() + rest2[0],
                ) + rest2.drop_first());
            }
            let decoded = decode_arg(&cur);
            args.push(decoded);
            proof {
                let f = |c: Seq<char>| spec_decode_arg(c);
                assert(args.deep_view() =~= done.push(cur@).map_values(f)) by {
                    assert(args.deep_view().len() == done.push(cur@).map_values(f).len());
                    assert forall|k: int|
                        0 <= k < args.deep_view().len() implies args.deep_view()[k] == done.push(
                        cur@,
                    ).map_values(f)[k] by {
                        if k < done.len() {
                            assert(args.deep_view()[k] == done.map_values(f)[k]);
                        }
                    }
                }
                done = done.push(cur@);
            }
            cur = Vec::new();
        } else {
            proof {
                let rest2 = chunks_from(s@, i + 1, false, quote, depth as int);
                lemma_chunks_nonempty(s@, i + 1, false, quote, depth as int);
                assert(rest1 == rest2.update(0, seq![c] + rest2[0]));
                assert(rest1.drop_first() =~= rest2.drop_first());
                assert(cur@ + rest1[0] =~= cur@.push(c) + rest2[0]);
            }
            cur.push(c);
        }
        i = i + 1;
    }
    proof {
        let rest = chunks_from(s@, n as int, in_string, quote, depth as int);
        assert(rest =~= seq![Seq::<char>::empty()]);
        assert(cur@ + rest[0] =~= cur@);
        assert(rest.drop_first() =~= Seq::<Seq<char>>::empty());
        assert(chunks_from(s@, 0, false, '"', 0) =~= done.push(cur@));
    }
    let t = trim_chars(&cur);
    if t.len() > 0 {
        let decoded = decode_arg(&cur);
        args.push(decoded);
        proof {
            let f = |c: Seq<char>| spec_decode_arg(c);
            let chunks = chunks_from(s@, 0, false, '"', 0);
            assert(chunks.last() == cur@);
            assert(spec_trim(chunks.last()).len() != 0);
            assert(args.deep_view() =~= done.push(cur@).map_values(f)) by {
                assert forall|k: int|
                    0 <= k < args.deep_view().len() implies args.deep_view()[k] == done.push(
                    cur@,
                ).map_values(f)[k] by {
                    if k < done.len() {
                        assert(args.deep_view()[k] == done.map_values(f)[k]);
                    }
                }
            }
        }
    } else {
        proof {
            let chunks = chunks_from(s@, 0, false, '"', 0);
            assert(chunks.last() == cur@);
            assert(spec_trim(chunks.last()).len() == 0);
            assert(chunks.drop_last() =~= done);
        }
    }
    args
}

/// Splits an argument-list string at top-level commas and decodes each
/// argument. Commas inside quoted strings or inside nested parentheses do
/// not split; the final argument is kept only when it is not blank.
pub fn parse_arguments(args_str: &str) -> (args: Vec<String>)
    ensures
        args.deep_view() == spec_parse_args(args_str@),
{
    let cs = str_chars(args_str);
    parse_args_chars(&cs)
}

/// Parses a call expression `name(arg, ...)`: the leading word-character
/// run names the tool; the text between the following `(` and the last `)`
/// is split into decoded arguments. A string of any other shape is
/// rejected with a parse error carrying the offending string.
pub fn parse_action(action_str: &str) -> (r: Result<(String, Vec<String>), AgentError>)
    ensures
        ({
            let p = spec_parse_action(action_str@);
            match r {
                Ok(pair) => p == Some((pair.0@, pair.1.deep_view())),
                Err(e) => p is None && e@ == ErrV::Parse(parse_error_msg(action_str@)),
            }
        }),
{
    let cs = str_chars(action_str);
    let n: usize = cs.len();
    let mut k: usize = 0;
    while k < n && word_char(cs[k])
        invariant
            k <= n,
            n == cs@.len(),
            forall|j: int| 0 <= j < k ==> is_word_char(cs@[j]),
        decreases n - k,
    {
        k = k + 1;
    }
    proof {
        lemma_word_run(cs@, 0, k as int);
    }
    if k == 0 || k >= n || cs[k] != '(' {
        return Err(AgentError::ParseError(parse_error_string(action_str)));
    }
    let lj = find_last_char(&cs, ')');
    proof {
        lemma_last_index_of(cs@, ')');
    }
    match lj {
        Some(j) if j > k => {
            let name = chars_string(&copy_range(&cs, 0, k));
            let inner = copy_range(&cs, k + 1, j);
            let trimmed = trim_chars(&inner);
            let args = parse_args_chars(&trimmed);
            Ok((name, args))
        },
        _ => Err(AgentError::ParseError(parse_error_string(action_str))),
    }
}

/// The rendered diagnostic for a malformed call shape.
fn parse_error_string(s: &str) -> (r: String)
    ensures
        r@ == parse_error_msg(s@),
{
    let mut r = String::new();
    crate::text::append_str(&mut r, "invalid function call syntax: ");
    crate::text::append_str(&mut r, s);
    assert(r@ =~= parse_error_msg(s@));
    r
}

/// The position of the last occurrence of `c` in `s`, scanning from the
/// end.
fn find_last_char(s: &Vec<char>, c: char) -> (r: Option<usize>)
    ensures
        match r {
            Some(j) => j < s@.len() && spec_last_index_of(s@, c) == Some(j as int),
            None => spec_last_index_of(s@, c) is None,
        },
{
    proof {
        lemma_last_index_of(s@, c);
    }
    let mut i: usize = s.len();
    while i > 0
        invariant
            i <= s@.len(),
            forall|k: int| i <= k < s@.len() ==> s@[k] != c,
        decreases i,
    {
        i = i - 1;
        if s[i] == c {
            proof {
                match spec_last_index_of(s@, c) {
                    Some(j) => {
                        assert(j == i as int);
                    },
                    None => {
                        assert(false);
                    },
                }
            }
            return Some(i);
        }
    }
    proof {
        match spec_last_index_of(s@, c) {
            Some(j) => {
                assert(s@[j] != c);
                assert(false);
            },
            None => {},
        }
    }
    None
}

/// Canonical escaping of an argument's control characters: newline, tab
/// and carriage return become their two-character escape sequences;
/// every other character stands as itself.
pub open spec fn escape_ntr(s: Seq<char>) -> Seq<char>
    decreases s.len(),
{
    if s.len() == 0 {
        Seq::empty()
    } else {
        let c = s[0];
        let u = if c == '\n' {
            seq!['\\', 'n']
        } else if c == '\t' {
            seq!['\\', 't']
        } else if c == '\r' {
            seq!['\\', 'r']
        } else {
            seq![c]
        };
        u + escape_ntr(s.drop_first())
    }
}

/// As [`escape_ntr`], with the newline pass already undone: only tab and
/// carriage return stay escaped.
pub open spec fn escape_tr(s: Seq<char>) -> Seq<char>
    decreases s.len(),
{
    if s.len() == 0 {
        Seq::empty()
    } else {
        let c = s[0];
        let u = if c == '\t' {
            seq!['\\', 't']
        } else if c == '\r' {
            seq!['\\', 'r']
        } else {
            seq![c]
        };
        u + escape_tr(s.drop_first())
    }
}

/// As [`escape_ntr`], with only the carriage return still escaped.
pub open spec fn escape_r(s: Seq<char>) -> Seq<char>
    decreases s.len(),
{
    if s.len() == 0 {
        Seq::empty()
    } else {
        let c = s[0];
        let u = if c == '\r' {
            seq!['\\', 'r']
        } else {
            seq![c]
        };
        u + escape_r(s.drop_first())
    }
}

/// No backslash occurs in the sequence.
pub open spec fn backslash_free(s: Seq<char>) -> bool {
    forall|i: int| 0 <= i < s.len() ==> s[i] != '\\'
}

/// In an escaped backslash-free argument, a backslash is only ever
/// followed by `n`, `t` or `r`, so the quote-unescaping passes change
/// nothing.
proof fn lemma_quote_passes_noop(s: Seq<char>, q: char)
    requires
        backslash_free(s),
        q == '"' || q == '\'',
    ensures
        spec_replace(escape_ntr(s), seq!['\\', q], seq![q]) == escape_ntr(s),
    decreases s.len(),
{
    let e = escape_ntr(s);
    let p = seq!['\\', q];
    if s.len() == 0 {
        assert(e =~= Seq::<char>::empty());
    } else {
        let c = s[0];
        assert(backslash_free(s.drop_first()));
        lemma_quote_passes_noop(s.drop_first(), q);
        let rest = escape_ntr(s.drop_first());
        if c == '\n' || c == '\t' || c == '\r' {
            let x: char = if c == '\n' {
                'n'
            } else if c == '\t' {
                't'
            } else {
                'r'
            };
            assert(e =~= seq!['\\', x] + rest);
            assert(e.len() >= 2 && e.subrange(0, 2)[1] == x);
            assert(e.subrange(0, 2) != p);
            let e1 = e.drop_first();
            assert(e1 =~= seq![x] + rest);
            if e1.len() >= 2 {
                assert(e1.subrange(0, 2)[0] == x);
                assert(e1.subrange(0, 2) != p);
            }
            assert(e1.drop_first() =~= rest);
            assert(spec_replace(e1, p, seq![q]) =~= seq![x] + spec_replace(rest, p, seq![q]));
            assert(spec_replace(e, p, seq![q]) =~= seq!['\\'] + (seq![x] + rest));
            assert(seq!['\\'] + (seq![x] + rest) =~= e);
        } else {
            assert(e =~= seq![c] + rest);
            if e.len() >= 2 {
                assert(e.subrange(0, 2)[0] == c);
                assert(c != '\\');
                assert(e.subrange(0, 2) != p);
            }
            assert(e.drop_first() =~= rest);
            assert(spec_replace(e, p, seq![q]) =~= seq![c] + spec_replace(rest, p, seq![q]));
        }
    }
}

/// The newline pass turns every escaped newline back and touches nothing
/// else.
proof fn lemma_newline_pass(s: Seq<char>)
    requires
        backslash_free(s),
    ensures
        spec_replace(escape_ntr(s), seq!['\\', 'n'], seq!['\n']) == escape_tr(s),
    decreases s.len(),
{
    let e = escape_ntr(s);
    let p = seq!['\\', 'n'];
    if s.len() == 0 {
        assert(e =~= Seq::<char>::empty());
        assert(escape_tr(s) =~= Seq::<char>::empty());
    } else {
        let c = s[0];
        assert(backslash_free(s.drop_first()));
        lemma_newline_pass(s.drop_first());
        let rest = escape_ntr(s.drop_first());
        let rest_out = escape_tr(s.drop_first());
        if c == '\n' {
            assert(e =~= p + rest);
            assert(e.subrange(0, 2) =~= p);
            assert(e.skip(2) =~= rest);
            assert(spec_replace(e, p, seq!['\n']) =~= seq!['\n'] + rest_out);
            assert(escape_tr(s) =~= seq!['\n'] + rest_out);
        } else if c == '\t' || c == '\r' {
            let x: char = if c == '\t' {
                't'
            } else {
                'r'
            };
            assert(e =~= seq!['\\', x] + rest);
            assert(e.subrange(0, 2)[1] == x);
            assert(e.subrange(0, 2) != p);
            let e1 = e.drop_first();
            assert(e1 =~= seq![x] + rest);
            if e1.len() >= 2 {
                assert(e1.subrange(0, 2)[0] == x);
                assert(e1.subrange(0, 2) != p);
            }
            assert(e1.drop_first() =~= rest);
            assert(spec_replace(e1, p, seq!['\n']) =~= seq![x] + spec_replace(rest, p, seq!['\n']));
            assert(spec_replace(e, p, seq!['\n']) =~= seq!['\\'] + (seq![x] + rest_out));
            assert(seq!['\\'] + (seq![x] + rest_out) =~= seq!['\\', x] + rest_out);
            assert(escape_tr(s) =~= seq!['\\', x] + rest_out);
        } else {
            assert(e =~= seq![c] + rest);
            if e.len() >= 2 {
                assert(e.subrange(0, 2)[0] == c);
                assert(c != '\\');
                assert(e.subrange(0, 2) != p);
            }
            assert(e.drop_first() =~= rest);
            assert(spec_replace(e, p, seq!['\n']) =~= seq![c] + spec_replace(rest, p, seq!['\n']));
            assert(escape_tr(s) =~= seq![c] + rest_out);
        }
    }
}

/// The tab pass turns every escaped tab back and touches nothing else.
proof fn lemma_tab_pass(s: Seq<char>)
    requires
        backslash_free(s),
    ensures
        spec_replace(escape_tr(s), seq!['\\', 't'], seq!['\t']) == escape_r(s),
    decreases s.len(),
{
    let e = escape_tr(s);
    let p = seq!['\\', 't'];
    if s.len() == 0 {
        assert(e =~= Seq::<char>::empty());
        assert(escape_r(s) =~= Seq::<char>::empty());
    } else {
        let c = s[0];
        assert(backslash_free(s.drop_first()));
        lemma_tab_pass(s.drop_first());
        let rest = escape_tr(s.drop_first());
        let rest_out = escape_r(s.drop_first());
        if c == '\t' {
            assert(e =~= p + rest);
            assert(e.subrange(0, 2) =~= p);
            assert(e.skip(2) =~= rest);
            assert(spec_replace(e, p, seq!['\t']) =~= seq!['\t'] + rest_out);
            assert(escape_r(s) =~= seq!['\t'] + rest_out);
        } else if c == '\r' {
            assert(e =~= seq!['\\', 'r'] + rest);
            assert(e.subrange(0, 2)[1] == 'r');
            assert(e.subrange(0, 2) != p);
            let e1 = e.drop_first();
            assert(e1 =~= seq!['r'] + rest);
            if e1.len() >= 2 {
                assert(e1.subrange(0, 2)[0] == 'r');
                assert(e1.subrange(0, 2) != p);
            }
            assert(e1.drop_first() =~= rest);
            assert(spec_replace(e1, p, seq!['\t']) =~= seq!['r'] + spec_replace(rest, p, seq!['\t']));
            assert(spec_replace(e, p, seq!['\t']) =~= seq!['\\'] + (seq!['r'] + rest_out));
            assert(seq!['\\'] + (seq!['r'] + rest_out) =~= seq!['\\', 'r'] + rest_out);
            assert(escape_r(s) =~= seq!['\\', 'r'] + rest_out);
        } else {
            assert(e =~= seq![c] + rest);
            if e.len() >= 2 {
                assert(e.subrange(0, 2)[0] == c);
                assert(c != '\\');
                assert(e.subrange(0, 2) != p);
            }
            assert(e.drop_first() =~= rest);
            assert(spec_replace(e, p, seq!['\t']) =~= seq![c] + spec_replace(rest, p, seq!['\t']));
            assert(escape_r(s) =~= seq![c] + rest_out);
        }
    }
}

/// The carriage-return pass turns every escaped carriage return back and
/// restores the argument itself.
proof fn lemma_cr_pass(s: Seq<char>)
    requires
        backslash_free(s),
    ensures
        spec_replace(escape_r(s), seq!['\\', 'r'], seq!['\r']) == s,
    decreases s.len(),
{
    let e = escape_r(s);
    let p = seq!['\\', 'r'];
    if s.len() == 0 {
        assert(e =~= Seq::<char>::empty());
    } else {
        let c = s[0];
        assert(backslash_free(s.drop_first()));
        lemma_cr_pass(s.drop_first());
        let rest = escape_r(s.drop_first());
        if c == '\r' {
            assert(e =~= p + rest);
            assert(e.subrange(0, 2) =~= p);
            assert(e.skip(2) =~= rest);
            assert(spec_replace(e, p, seq!['\r']) =~= seq!['\r'] + s.drop_first());
            assert(seq!['\r'] + s.drop_first() =~= s);
        } else {
            assert(e =~= seq![c] + rest);
            if e.len() >= 2 {
                assert(e.subrange(0, 2)[0] == c);
                assert(c != '\\');
                assert(e.subrange(0, 2) != p);
            }
            assert(e.drop_first() =~= rest);
            assert(spec_replace(e, p, seq!['\r']) =~= seq![c] + spec_replace(rest, p, seq!['\r']));
            assert(seq![c] + s.drop_first() =~= s);
        }
    }
}

/// A backslash-free sequence passes the backslash pass unchanged.
proof fn lemma_backslash_pass_noop(s: Seq<char>)
    requires
        backslash_free(s),
    ensures
        spec_replace(s, seq!['\\', '\\'], seq!['\\']) == s,
    decreases s.len(),
{
    let p = seq!['\\', '\\'];
    if s.len() >= 1 {
        assert(backslash_free(s.drop_first()));
        lemma_backslash_pass_noop(s.drop_first());
        if s.len() >= 2 {
            assert(s.subrange(0, 2)[0] == s[0]);
            assert(s.subrange(0, 2) != p);
        }
        assert(spec_replace(s, p, seq!['\\']) =~= seq![s[0]] + s.drop_first());
        assert(seq![s[0]] + s.drop_first() =~= s);
    }
}

/// No double quote occurs in the sequence.
pub open spec fn quote_free(s: Seq<char>) -> bool {
    forall|i: int| 0 <= i < s.len() ==> s[i] != '"'
}

/// The canonical rendering of one argument: wrapped in double quotes,
/// with its control characters escaped.
pub open spec fn encode_arg(a: Seq<char>) -> Seq<char> {
    seq!['"'] + escape_ntr(a) + seq!['"']
}

/// The canonical rendering of an argument list: the encoded arguments
/// separated by a comma and a space.
pub open spec fn render_args(args: Seq<Seq<char>>) -> Seq<char>
    decreases args.len(),
{
    if args.len() == 0 {
        Seq::empty()
    } else if args.len() == 1 {
        encode_arg(args[0])
    } else {
        encode_arg(args[0]) + seq![',', ' '] + render_args(args.drop_first())
    }
}

/// The canonical rendering of a whole call expression.
pub open spec fn render_call(name: Seq<char>, args: Seq<Seq<char>>) -> Seq<char> {
    name + seq!['('] + render_args(args) + seq![')']
}

/// Law: decoding inverts canonical quoting, one argument at a time. Any
/// argument free of backslashes, wrapped in double quotes with its
/// newlines, tabs and carriage returns escaped, decodes back to exactly
/// itself. (An argument holding a backslash is out of scope: the
/// parser's one-character look-back lets an escaped trailing backslash
/// hold a quoted string open, a preserved quirk of the grammar.)
pub proof fn lemma_canonical_arg_round_trip(a: Seq<char>)
    requires
        backslash_free(a),
    ensures
        spec_decode_arg(encode_arg(a)) == a,
{
    let enc = seq!['"'] + escape_ntr(a) + seq!['"'];
    assert(encode_arg(a) == enc);
    assert(enc[0] == '"');
    assert(enc.last() == '"');
    assert(!crate::text::is_space_char('"'));
    assert(spec_trim(enc) == enc) by {
        assert(crate::text::spec_trim_front(enc) == enc);
        assert(crate::text::spec_trim_back(enc) == enc);
    }
    assert(enc.len() >= 2);
    let inner = enc.subrange(1, enc.len() - 1);
    assert(inner =~= escape_ntr(a));
    lemma_quote_passes_noop(a, '"');
    lemma_quote_passes_noop(a, '\'');
    lemma_newline_pass(a);
    lemma_tab_pass(a);
    lemma_cr_pass(a);
    lemma_backslash_pass_noop(a);
}

/// The escaped form of a clean argument holds no double quote, and never
/// ends in a backslash.
proof fn lemma_escape_chars(a: Seq<char>)
    requires
        backslash_free(a),
        quote_free(a),
    ensures
        quote_free(escape_ntr(a)),
        escape_ntr(a).len() > 0 ==> escape_ntr(a).last() != '\\',
    decreases a.len(),
{
    if a.len() > 0 {
        assert(backslash_free(a.drop_first()));
        assert(quote_free(a.drop_first()));
        lemma_escape_chars(a.drop_first());
        let c = a[0];
        let u: Seq<char> = if c == '\n' {
            seq!['\\', 'n']
        } else if c == '\t' {
            seq!['\\', 't']
        } else if c == '\r' {
            seq!['\\', 'r']
        } else {
            seq![c]
        };
        let rest = escape_ntr(a.drop_first());
        assert(escape_ntr(a) == u + rest);
        assert forall|i: int| 0 <= i < escape_ntr(a).len() implies escape_ntr(a)[i] != '"' by {
            if i < u.len() {
                assert(escape_ntr(a)[i] == u[i]);
            } else {
                assert(escape_ntr(a)[i] == rest[i - u.len()]);
            }
        }
        if rest.len() > 0 {
            assert(escape_ntr(a).last() == rest.last());
        } else {
            assert(escape_ntr(a).last() == u.last());
        }
    }
}

/// Scanning inside a double-quoted string: the quote-free remainder `t`
/// and the closing quote are consumed into the current chunk, and the
/// scan continues outside the string.
proof fn lemma_scan_in_string(s: Seq<char>, j: int, t: Seq<char>, d: int)
    requires
        1 <= j,
        j + t.len() < s.len(),
        forall|k: int| 0 <= k < t.len() ==> s[j + k] == t[k],
        quote_free(t),
        t.len() > 0 ==> t.last() != '\\',
        t.len() == 0 ==> s[j - 1] != '\\',
        s[j + t.len()] == '"',
    ensures
        ({
            let after = chunks_from(s, j + t.len() + 1, false, '"', d);
            chunks_from(s, j, true, '"', d) == after.update(0, (t + seq!['"']) + after[0])
        }),
    decreases t.len(),
{
    let after = chunks_from(s, j + t.len() + 1, false, '"', d);
    lemma_chunks_nonempty(s, j + t.len() + 1, false, '"', d);
    if t.len() == 0 {
        assert(s[j] == '"');
        assert(chunks_from(s, j, true, '"', d) == after.update(0, seq!['"'] + after[0]));
        assert((t + seq!['"']) + after[0] =~= seq!['"'] + after[0]);
    } else {
        let c = s[j];
        assert(c == t[0]);
        assert(c != '"');
        let rest = chunks_from(s, j + 1, true, '"', d);
        assert(chunks_from(s, j, true, '"', d) == rest.update(0, seq![c] + rest[0]));
        let t2 = t.drop_first();
        assert(forall|k: int| 0 <= k < t2.len() ==> s[j + 1 + k] == t2[k]);
        assert(quote_free(t2));
        if t2.len() > 0 {
            assert(t2.last() == t.last());
        } else {
            assert(s[j + 1 - 1] == t[0]);
            assert(t.last() == t[0]);
        }
        lemma_scan_in_string(s, j + 1, t2, d);
        assert(rest == after.update(0, (t2 + seq!['"']) + after[0]));
        lemma_chunks_nonempty(s, j + 1, true, '"', d);
        assert(rest[0] == (t2 + seq!['"']) + after[0]);
        assert(seq![c] + ((t2 + seq!['"']) + after[0]) =~= (t + seq!['"']) + after[0]);
        assert(rest.update(0, seq![c] + rest[0]) =~= after.update(0, (t + seq!['"']) + after[0]));
    }
}

/// Scanning one canonically encoded argument from outside any string:
/// the whole encoded argument lands in the current chunk and the scan
/// continues after it, outside any string, at the same depth.
proof fn lemma_scan_encoded_arg(s: Seq<char>, i: int, a: Seq<char>, q0: char, d: int)
    requires
        0 <= i,
        i + encode_arg(a).len() <= s.len(),
        forall|k: int| 0 <= k < encode_arg(a).len() ==> s[i + k] == encode_arg(a)[k],
        backslash_free(a),
        quote_free(a),
    ensures
        ({
            let after = chunks_from(s, i + encode_arg(a).len(), false, '"', d);
            chunks_from(s, i, false, q0, d) == after.update(0, encode_arg(a) + after[0])
        }),
{
    let e = escape_ntr(a);
    let enc = encode_arg(a);
    assert(enc.len() == e.len() + 2);
    assert(enc[0] == '"');
    assert(s[i] == '"');
    lemma_escape_chars(a);
    let rest = chunks_from(s, i + 1, true, '"', d);
    assert(chunks_from(s, i, false, q0, d) == rest.update(0, seq!['"'] + rest[0]));
    assert(forall|k: int| 0 <= k < e.len() ==> enc[1 + k] == e[k]);
    assert(forall|k: int| 0 <= k < e.len() ==> s[i + 1 + k] == e[k]);
    assert(enc[e.len() as int + 1] == '"');
    assert(s[i + 1 + e.len()] == '"');
    assert(e.len() == 0 ==> s[i + 1 - 1] == '"');
    lemma_scan_in_string(s, i + 1, e, d);
    let after = chunks_from(s, i + 1 + e.len() + 1, false, '"', d);
    lemma_chunks_nonempty(s, i + 1 + e.len() + 1, false, '"', d);
    assert(rest == after.update(0, (e + seq!['"']) + after[0]));
    assert(rest[0] == (e + seq!['"']) + after[0]);
    assert(seq!['"'] + ((e + seq!['"']) + after[0]) =~= enc + after[0]);
    assert(i + 1 + e.len() + 1 == i + enc.len());
    assert(rest.update(0, seq!['"'] + rest[0]) =~= after.update(0, enc + after[0]));
}

/// The raw chunks the scan cuts a rendered argument list into: the first
/// encoded argument, then each further one with the separating space
/// still in front.
spec fn rendered_chunks(args: Seq<Seq<char>>) -> Seq<Seq<char>> {
    seq![encode_arg(args[0])] + args.drop_first().map_values(
        |a: Seq<char>| seq![' '] + encode_arg(a),
    )
}

proof fn lemma_scan_rendered_args(s: Seq<char>, i: int, args: Seq<Seq<char>>)
    requires
        args.len() >= 1,
        0 <= i,
        i + render_args(args).len() == s.len(),
        forall|k: int| 0 <= k < render_args(args).len() ==> s[i + k] == render_args(args)[k],
        forall|k: int|
            0 <= k < args.len() ==> backslash_free(#[trigger] args[k]) && quote_free(args[k]),
    ensures
        chunks_from(s, i, false, '"', 0) == rendered_chunks(args),
    decreases args.len(),
{
    let r = render_args(args);
    let enc0 = encode_arg(args[0]);
    if args.len() == 1 {
        assert(r == enc0);
        lemma_scan_encoded_arg(s, i, args[0], '"', 0);
        let after = chunks_from(s, i + enc0.len(), false, '"', 0);
        assert(i + enc0.len() == s.len());
        assert(after =~= seq![Seq::<char>::empty()]);
        assert(after.update(0, enc0 + after[0]) =~= seq![enc0]);
        assert(args.drop_first().map_values(|a: Seq<char>| seq![' '] + encode_arg(a)) =~= Seq::<
            Seq<char>,
        >::empty());
        assert(rendered_chunks(args) =~= seq![enc0]);
    } else {
        let tail = args.drop_first();
        let rt = render_args(tail);
        assert(r == enc0 + seq![',', ' '] + rt);
        assert forall|k: int| 0 <= k < enc0.len() implies s[i + k] == #[trigger] enc0[k] by {
            assert(r[k] == enc0[k]);
            assert(s[i + k] == r[k]);
        }
        lemma_scan_encoded_arg(s, i, args[0], '"', 0);
        let i1: int = i + enc0.len();
        let after1 = chunks_from(s, i1, false, '"', 0);
        assert(chunks_from(s, i, false, '"', 0) == after1.update(0, encode_arg(args[0]) + after1[0]));
        assert(s[i1] == r[enc0.len() as int]);
        assert(r[enc0.len() as int] == ',');
        let after2 = chunks_from(s, i1 + 1, false, '"', 0);
        assert(after1 == seq![Seq::<char>::empty()] + after2);
        assert(s[i1 + 1] == r[enc0.len() as int + 1]);
        assert(r[enc0.len() as int + 1] == ' ');
        let after3 = chunks_from(s, i1 + 2, false, '"', 0);
        assert(after2 == after3.update(0, seq![' '] + after3[0]));
        assert(i1 + 2 + rt.len() == s.len());
        assert forall|k: int| 0 <= k < rt.len() implies #[trigger] rt[k] == s[i1 + 2 + k] by {
            assert(r[enc0.len() as int + 2 + k] == rt[k]);
            assert(s[i + (enc0.len() as int + 2 + k)] == r[enc0.len() as int + 2 + k]);
        }
        assert(forall|k: int|
            0 <= k < tail.len() ==> backslash_free(#[trigger] tail[k]) && quote_free(tail[k]));
        lemma_scan_rendered_args(s, i1 + 2, tail);
        assert(after3 == rendered_chunks(tail));
        let f = |a: Seq<char>| seq![' '] + encode_arg(a);
        lemma_chunks_nonempty(s, i1 + 2, false, '"', 0);
        assert(rendered_chunks(tail).len() >= 1);
        assert(rendered_chunks(tail)[0] == encode_arg(tail[0]));
        assert(chunks_from(s, i, false, '"', 0) =~= rendered_chunks(args)) by {
            let got = chunks_from(s, i, false, '"', 0);
            let want = rendered_chunks(args);
            assert(got == after1.update(0, enc0 + after1[0]));
            assert(after1[0] =~= Seq::<char>::empty());
            assert(got.len() == 1 + after2.len());
            assert(after2.len() == after3.len());
            assert(want.len() == 1 + tail.len());
            assert(after3.len() == 1 + tail.drop_first().len());
            assert(got[0] == enc0 + after1[0]);
            assert(enc0 + after1[0] =~= enc0);
            assert(want[0] == enc0);
            assert forall|k: int| 1 <= k < got.len() implies got[k] == want[k] by {
                assert(got[k] == after2[k - 1]);
                assert(want[k] == f(tail[k - 1]));
                if k == 1 {
                    assert(after2[0] == seq![' '] + after3[0]);
                    assert(after3[0] == encode_arg(tail[0]));
                } else {
                    assert(after2[k - 1] == after3[k - 1]);
                    assert(after3[k - 1] == rendered_chunks(tail)[k - 1]);
                    assert(rendered_chunks(tail)[k - 1] == f(tail.drop_first()[k - 2]));
                    assert(tail.drop_first()[k - 2] == tail[k - 1]);
                }
            }
        }
    }
}

/// The rendered argument list of a non-empty clean argument list starts
/// and ends with a double quote.
proof fn lemma_render_args_ends(args: Seq<Seq<char>>)
    requires
        args.len() >= 1,
    ensures
        render_args(args).len() >= 2,
        render_args(args)[0] == '"',
        render_args(args).last() == '"',
    decreases args.len(),
{
    let r = render_args(args);
    let enc0 = encode_arg(args[0]);
    assert(enc0[0] == '"');
    assert(enc0.last() == '"');
    if args.len() == 1 {
        assert(r == enc0);
    } else {
        lemma_render_args_ends(args.drop_first());
        let rt = render_args(args.drop_first());
        assert(r == enc0 + seq![',', ' '] + rt);
        assert(r[0] == enc0[0]);
        assert(r.last() == rt.last());
    }
}

/// Splitting and decoding a canonically rendered argument list restores
/// the arguments exactly.
proof fn lemma_parse_rendered_args(args: Seq<Seq<char>>)
    requires
        forall|k: int|
            0 <= k < args.len() ==> backslash_free(#[trigger] args[k]) && quote_free(args[k]),
    ensures
        spec_parse_args(render_args(args)) == args,
{
    let r = render_args(args);
    if args.len() == 0 {
        assert(r =~= Seq::<char>::empty());
        let chunks = chunks_from(r, 0, false, '"', 0);
        assert(chunks =~= seq![Seq::<char>::empty()]);
        assert(spec_trim(chunks.last()).len() == 0);
        assert(chunks.drop_last() =~= Seq::<Seq<char>>::empty());
        assert(spec_parse_args(r) =~= args);
    } else {
        assert forall|k: int| 0 <= k < r.len() implies #[trigger] r[0 + k] == r[k] by {
            assert(0 + k == k);
        }
        lemma_scan_rendered_args(r, 0, args);
        let chunks = chunks_from(r, 0, false, '"', 0);
        assert(chunks == rendered_chunks(args));
        let f = |a: Seq<char>| seq![' '] + encode_arg(a);
        // the last raw chunk is never blank: it holds an encoded argument
        let lastc = chunks.last();
        let alast = args.last();
        if args.len() == 1 {
            assert(lastc == encode_arg(args[0]));
        } else {
            assert(chunks.last() == f(args.drop_first().last()));
            assert(args.drop_first().last() == alast);
        }
        lemma_trim_of_chunk(alast);
        if args.len() > 1 {
            assert(spec_trim(seq![' '] + encode_arg(alast)) == encode_arg(alast));
        }
        assert(spec_trim(lastc).len() != 0);
        assert(chunks.map_values(|c: Seq<char>| spec_decode_arg(c)) =~= args) by {
            assert(chunks.len() == args.len());
            assert forall|k: int| 0 <= k < args.len() implies chunks.map_values(
                |c: Seq<char>| spec_decode_arg(c),
            )[k] == args[k] by {
                assert(backslash_free(args[k]) && quote_free(args[k]));
                lemma_canonical_arg_round_trip(args[k]);
                lemma_trim_of_chunk(args[k]);
                if k == 0 {
                    assert(chunks[0] == encode_arg(args[0]));
                } else {
                    assert(chunks[k] == f(args.drop_first()[k - 1]));
                    assert(args.drop_first()[k - 1] == args[k]);
                    assert(spec_decode_arg(seq![' '] + encode_arg(args[k])) == spec_decode_arg(
                        encode_arg(args[k]),
                    )) by {
                        lemma_trim_of_chunk(args[k]);
                    }
                }
            }
        }
    }
}

/// Trimming an encoded argument, with or without its leading separator
/// space, leaves exactly the encoded argument; and decoding ignores the
/// leading space.
proof fn lemma_trim_of_chunk(a: Seq<char>)
    ensures
        spec_trim(encode_arg(a)) == encode_arg(a),
        spec_trim(seq![' '] + encode_arg(a)) == encode_arg(a),
        spec_decode_arg(seq![' '] + encode_arg(a)) == spec_decode_arg(encode_arg(a)),
{
    let enc = encode_arg(a);
    assert(enc[0] == '"');
    assert(enc.last() == '"');
    assert(!crate::text::is_space_char('"'));
    assert(crate::text::spec_trim_front(enc) == enc);
    assert(crate::text::spec_trim_back(enc) == enc);
    let sp = seq![' '] + enc;
    assert(sp[0] == ' ');
    assert(crate::text::is_space_char(' '));
    assert(sp.drop_first() =~= enc);
    assert(crate::text::spec_trim_front(sp) == crate::text::spec_trim_front(enc));
}

/// Law: call-expression parsing inverts canonical rendering. For any
/// tool name made of word characters and any arguments free of
/// backslashes and double quotes, rendering `name("…", "…")` with the
/// control characters escaped and parsing it back yields exactly the
/// name and the arguments. (Arguments holding backslashes are excluded:
/// the escape scheme's one-character look-back is not injective there —
/// an argument ending in a backslash, once encoded, holds its quoted
/// string open across the following separator.)
pub proof fn lemma_canonical_call_round_trip(name: Seq<char>, args: Seq<Seq<char>>)
    requires
        name.len() >= 1,
        forall|i: int| 0 <= i < name.len() ==> is_word_char(#[trigger] name[i]),
        forall|k: int|
            0 <= k < args.len() ==> backslash_free(#[trigger] args[k]) && quote_free(args[k]),
    ensures
        spec_parse_action(render_call(name, args)) == Some((name, args)),
{
    let s = render_call(name, args);
    let n = name.len() as int;
    let r = render_args(args);
    assert(s.len() == n + 2 + r.len());
    assert(forall|j: int| 0 <= j < n ==> s[j] == name[j]);
    assert(s[n] == '(');
    assert(!is_word_char('(')) by {
        assert(('(' as u32) < ('0' as u32));
        assert(('(' as u32) < ('A' as u32));
        assert(('(' as u32) < ('a' as u32));
    }
    lemma_word_run(s, 0, n);
    assert(word_run_len(s, 0) == n);
    assert(s.last() == ')');
    assert(spec_last_index_of(s, ')') == Some(s.len() - 1));
    let j = s.len() - 1;
    assert(j > n);
    let inner = s.subrange(n + 1, j);
    assert(inner =~= r);
    if args.len() == 0 {
        assert(inner =~= Seq::<char>::empty());
        assert(spec_trim(inner) =~= Seq::<char>::empty());
        assert(spec_trim(inner) =~= r);
    } else {
        lemma_render_args_ends(args);
        assert(!crate::text::is_space_char('"'));
        assert(crate::text::spec_trim_front(r) == r);
        assert(crate::text::spec_trim_back(r) == r);
    }
    lemma_parse_rendered_args(args);
    assert(s.subrange(0, n) =~= name);
}

} // verus!
