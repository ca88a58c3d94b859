//! Path confinement: resolving a user-supplied path against the project
//! root and deciding whether the result stays inside it.
//!
//! Paths are modelled as plain strings with `/`-separated components. A
//! path is normalized lexically: empty and `.` components are dropped and
//! `..` removes the component before it (at the root of an absolute path a
//! leading `..` is dropped, as the root's parent is the root). Confinement
//! means the normalized project root is a component-wise prefix of the
//! normalized target. The surrounding program is expected to hand in the
//! project root in canonical form, as the command line resolves it at
//! startup.
use vstd::prelude::*;

use crate::errors::{AgentError, ErrV};
use crate::text::{append_str, chars_string, str_chars};

verus! {

pub open spec fn dot() -> Seq<char> {
    "."@
}

pub open spec fn dotdot() -> Seq<char> {
    ".."@
}

/// An absolute path: one that starts with the separator.
pub open spec fn spec_is_abs(p: Seq<char>) -> bool {
    p.len() > 0 && p[0] == '/'
}

/// The components of `p[i..]` given the component accumulated so far:
/// `/`-separated pieces, with empty and `.` pieces dropped.
pub open spec fn spec_components_from(p: Seq<char>, i: int, cur: Seq<char>) -> Seq<Seq<char>>
    decreases p.len() - i,
{
    if i < 0 || i >= p.len() {
        if cur.len() > 0 && cur != dot() {
            seq![cur]
        } else {
            Seq::empty()
        }
    } else if p[i] == '/' {
        let rest = spec_components_from(p, i + 1, Seq::empty());
        if cur.len() > 0 && cur != dot() {
            seq![cur] + rest
        } else {
            rest
        }
    } else {
        spec_components_from(p, i + 1, cur.push(p[i]))
    }
}

/// The components of a path.
pub open spec fn spec_components(p: Seq<char>) -> Seq<Seq<char>> {
    spec_components_from(p, 0, Seq::empty())
}

/// Lexical normalization of a component list: `..` removes the component
/// before it where one exists; at the front it is dropped on an absolute
/// path and kept on a relative one.
pub open spec fn spec_normalize(cs: Seq<Seq<char>>, abs: bool) -> Seq<Seq<char>>
    decreases cs.len(),
{
    if cs.len() == 0 {
        Seq::empty()
    } else {
        let pre = spec_normalize(cs.drop_last(), abs);
        let c = cs.last();
        if c == dotdot() {
            if pre.len() > 0 && pre.last() != dotdot() {
                pre.drop_last()
            } else if abs {
                pre
            } else {
                pre.push(c)
            }
        } else {
            pre.push(c)
        }
    }
}

/// The normalized component list of a path.
pub open spec fn spec_norm_path(p: Seq<char>) -> Seq<Seq<char>> {
    spec_normalize(spec_components(p), spec_is_abs(p))
}

/// The target lies within the project directory: both are of the same
/// kind (absolute or relative) and the normalized project components are
/// a prefix of the normalized target components.
pub open spec fn spec_within(project: Seq<char>, target: Seq<char>) -> bool {
    spec_is_abs(project) == spec_is_abs(target) && spec_norm_path(project).is_prefix_of(
        spec_norm_path(target),
    )
}

/// Appending a relative path under a base path, inserting one separator
/// unless the base already ends with one.
pub open spec fn spec_join_path(base: Seq<char>, rel: Seq<char>) -> Seq<char> {
    if base.len() == 0 {
        rel
    } else if base.last() == '/' {
        base + rel
    } else {
        base + seq!['/'] + rel
    }
}

/// Where a user path resolves: an absolute path passes through unchanged,
/// a relative one is joined under the project directory.
pub open spec fn spec_resolved(project: Seq<char>, user: Seq<char>) -> Seq<char> {
    if spec_is_abs(user) {
        user
    } else {
        spec_join_path(project, user)
    }
}

/// The diagnostic for a path that escapes the project directory.
pub open spec fn confinement_error_msg(path: Seq<char>, project: Seq<char>) -> Seq<char> {
    "path '"@ + path + "' is not inside the project directory '"@ + project
        + "'; operation denied"@
}

/// Splits a path into its components, dropping empty and `.` pieces.
fn path_components(p: &Vec<char>) -> (r: Vec<String>)
    ensures
        r.deep_view() == spec_components(p@),
{
    let n: usize = p.len();
    let mut out: Vec<String> = Vec::new();
    let mut cur: Vec<char> = Vec::new();
    let mut i: usize = 0;
    while i < n
        invariant
            i <= n,
            n == p@.len(),
            spec_components(p@) == out.deep_view() + spec_components_from(p@, i as int, cur@),
        decreases n - i,
    {
        let c = p[i];
        if c == '/' {
            if cur.len() > 0 && !is_dot(&cur) {
                let piece = chars_string(&cur);
                out.push(piece);
                proof {
                    assert(out.deep_view() =~= out.deep_view().drop_last().push(cur@));
                    assert(spec_components_from(p@, i as int, cur@) =~= seq![cur@]
                        + spec_components_from(p@, i + 1, Seq::empty()));
                    assert(out.deep_view().drop_last() + spec_components_from(p@, i as int, cur@)
                        =~= out.deep_view() + spec_components_from(p@, i + 1, Seq::empty()));
                }
            } else {
                proof {
                    assert(spec_components_from(p@, i as int, cur@) == spec_components_from(
                        p@,
                        i + 1,
                        Seq::empty(),
                    ));
                }
            }
            cur = Vec::new();
        } else {
            proof {
                assert(spec_components_from(p@, i as int, cur@) == spec_components_from(
                    p@,
                    i + 1,
                    cur@.push(c),
                ));
            }
            cur.push(c);
        }
        i = i + 1;
    }
    if cur.len() > 0 && !is_dot(&cur) {
        let piece = chars_string(&cur);
        out.push(piece);
        proof {
            assert(spec_components_from(p@, n as int, cur@) =~= seq![cur@]);
            assert(out.deep_view() =~= out.deep_view().drop_last() + seq![cur@]);
        }
    } else {
        proof {
            assert(spec_components_from(p@, n as int, cur@) =~= Seq::<Seq<char>>::empty());
            assert(out.deep_view() + Seq::<Seq<char>>::empty() =~= out.deep_view());
        }
    }
    out
}

/// Whether the characters spell exactly `.`.
fn is_dot(v: &Vec<char>) -> (r: bool)
    ensures
        r == (v@ == dot()),
{
    proof {
        reveal_strlit(".");
    }
    if v.len() == 1 && v[0] == '.' {
        assert(v@ =~= dot());
        true
    } else {
        assert(v@ != dot());
        false
    }
}

/// Whether the string spells exactly `..`.
fn is_dotdot(s: &String) -> (r: bool)
    ensures
        r == (s@ == dotdot()),
{
    proof {
        reveal_strlit("..");
    }
    let cs = str_chars(s.as_str());
    if cs.len() == 2 && cs[0] == '.' && cs[1] == '.' {
        assert(s@ =~= dotdot());
        true
    } else {
        assert(s@ != dotdot());
        false
    }
}

/// Normalizes a component list lexically.
fn normalize_components(cs: &Vec<String>, abs: bool) -> (r: Vec<String>)
    ensures
        r.deep_view() == spec_normalize(cs.deep_view(), abs),
{
    let mut out: Vec<String> = Vec::new();
    let mut i: usize = 0;
    proof {
        assert(cs.deep_view().take(0) =~= Seq::<Seq<char>>::empty());
    }
    while i < cs.len()
        invariant
            i <= cs@.len(),
            cs.deep_view().len() == cs@.len(),
            out.deep_view() == spec_normalize(cs.deep_view().take(i as int), abs),
        decreases cs.len() - i,
    {
        let ghost pre = out.deep_view();
        proof {
            assert(cs.deep_view().take(i + 1).drop_last() =~= cs.deep_view().take(i as int));
            assert(cs.deep_view().take(i + 1).last() == cs.deep_view()[i as int]);
            assert(cs.deep_view()[i as int] == cs@[i as int]@);
        }
        let piece: &String = &cs[i];
        if is_dotdot(piece) {
            let m = out.len();
            if m > 0 && !is_dotdot(&out[m - 1]) {
                proof {
                    assert(out.deep_view().last() == out@[m - 1]@);
                    assert(out.deep_view().len() == m);
                }
                out.pop();
                proof {
                    assert(out.deep_view() =~= pre.drop_last());
                }
            } else if abs {
                proof {
                    assert(m > 0 ==> out.deep_view().last() == out@[m - 1]@);
                }
            } else {
                let copy = clone_string(piece);
                out.push(copy);
                proof {
                    assert(m > 0 ==> pre.last() == out@[m - 1]@);
                    assert(out.deep_view() =~= pre.push(cs@[i as int]@));
                }
            }
        } else {
            let copy = clone_string(piece);
            out.push(copy);
            proof {
                assert(out.deep_view() =~= pre.push(cs@[i as int]@));
            }
        }
        i = i + 1;
    }
    proof {
        assert(cs.deep_view().take(cs@.len() as int) =~= cs.deep_view());
    }
    out
}

/// A copy of the string with the same characters.
fn clone_string(s: &String) -> (r: String)
    ensures
        r@ == s@,
{
    let mut r = String::new();
    append_str(&mut r, s.as_str());
    r
}

/// Whether `a` is a component-wise prefix of `b`.
fn is_component_prefix(a: &Vec<String>, b: &Vec<String>) -> (r: bool)
    ensures
        r == a.deep_view().is_prefix_of(b.deep_view()),
{
    if a.len() > b.len() {
        assert(!a.deep_view().is_prefix_of(b.deep_view()));
        return false;
    }
    let mut i: usize = 0;
    while i < a.len()
        invariant
            i <= a@.len(),
            a@.len() <= b@.len(),
            a.deep_view().len() == a@.len(),
            b.deep_view().len() == b@.len(),
            forall|j: int| 0 <= j < i ==> a.deep_view()[j] == b.deep_view()[j],
        decreases a.len() - i,
    {
        let x: &String = &a[i];
        let y: &String = &b[i];
        if !x.eq(y) {
            proof {
                assert(a.deep_view()[i as int] != b.deep_view()[i as int]);
                assert(!a.deep_view().is_prefix_of(b.deep_view()));
            }
            return false;
        }
        i = i + 1;
    }
    proof {
        assert(a.deep_view() =~= b.deep_view().subrange(0, a.deep_view().len() as int));
    }
    true
}

/// Whether the path starts with the separator.
fn is_abs_path(p: &Vec<char>) -> (r: bool)
    ensures
        r == spec_is_abs(p@),
{
    p.len() > 0 && p[0] == '/'
}

/// Whether the target path lies within the project directory, comparing
/// the two after lexical normalization.
pub fn is_path_within_project(project_dir: &str, target_path: &str) -> (r: bool)
    ensures
        r == spec_within(project_dir@, target_path@),
{
    let pd = str_chars(project_dir);
    let tp = str_chars(target_path);
    let pd_abs = is_abs_path(&pd);
    let tp_abs = is_abs_path(&tp);
    if pd_abs != tp_abs {
        return false;
    }
    let pc = normalize_components(&path_components(&pd), pd_abs);
    let tc = normalize_components(&path_components(&tp), tp_abs);
    is_component_prefix(&pc, &tc)
}

/// The resolved form of a user path: absolute paths pass through, relative
/// ones are joined under the project directory.
fn resolve_path(project_dir: &str, user_path: &str) -> (r: String)
    ensures
        r@ == spec_resolved(project_dir@, user_path@),
{
    let up = str_chars(user_path);
    if is_abs_path(&up) {
        let mut r = String::new();
        append_str(&mut r, user_path);
        r
    } else {
        let pd = str_chars(project_dir);
        let mut r = String::new();
        append_str(&mut r, project_dir);
        if pd.len() > 0 {
            let lastc = pd[pd.len() - 1];
            if lastc != '/' {
                crate::text::push_char(&mut r, '/');
                assert(r@ =~= project_dir@ + seq!['/']);
            }
        }
        append_str(&mut r, user_path);
        assert(r@ =~= spec_resolved(project_dir@, user_path@));
        r
    }
}

/// Resolves a user path against the project directory and enforces
/// confinement: the call returns the resolved path exactly when it lies
/// within the project directory, and otherwise rejects it with a runtime
/// error naming both paths, before any file operation can happen.
pub fn safe_resolve_path(project_dir: &str, user_path: &str) -> (r: Result<String, AgentError>)
    ensures
        ({
            let resolved = spec_resolved(project_dir@, user_path@);
            match r {
                Ok(p) => spec_within(project_dir@, resolved) && p@ == resolved,
                Err(e) => !spec_within(project_dir@, resolved) && e@ == ErrV::Runtime(
                    confinement_error_msg(resolved, project_dir@),
                ),
            }
        }),
{
    let resolved = resolve_path(project_dir, user_path);
    if is_path_within_project(project_dir, resolved.as_str()) {
        Ok(resolved)
    } else {
        let mut m = String::new();
        append_str(&mut m, "path '");
        append_str(&mut m, resolved.as_str());
        append_str(&mut m, "' is not inside the project directory '");
        append_str(&mut m, project_dir);
        append_str(&mut m, "'; operation denied");
        assert(m@ =~= confinement_error_msg(resolved@, project_dir@));
        Err(AgentError::RuntimeError(m))
    }
}

} // verus!
