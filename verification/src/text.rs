//! Character-level text utilities shared by the tag extractor, the
//! call-expression parser and the path checker.
//!
//! All scanning works on whole characters (`Vec<char>` / `Seq<char>`), never
//! on bytes, so multi-byte text is never split in the middle of a character.
use vstd::prelude::*;

verus! {

/// The characters that `str::trim` removes: the Unicode white-space set.
pub open spec fn is_space_char(c: char) -> bool {
    ||| c == ' '
    ||| c == '\t'
    ||| c == '\n'
    ||| c == '\r'
    ||| c == '\u{000B}'
    ||| c == '\u{000C}'
    ||| c == '\u{0085}'
    ||| c == '\u{00A0}'
    ||| c == '\u{1680}'
    ||| ('\u{2000}' as u32) <= (c as u32) && (c as u32) <= ('\u{200A}' as u32)
    ||| c == '\u{2028}'
    ||| c == '\u{2029}'
    ||| c == '\u{202F}'
    ||| c == '\u{205F}'
    ||| c == '\u{3000}'
}

/// Executable test for [`is_space_char`].
pub fn is_space(c: char) -> (r: bool)
    ensures
        r == is_space_char(c),
{
    c == ' ' || c == '\t' || c == '\n' || c == '\r' || c == '\u{000B}' || c == '\u{000C}'
        || c == '\u{0085}' || c == '\u{00A0}' || c == '\u{1680}' || ((c as u32)
        >= ('\u{2000}' as u32) && (c as u32) <= ('\u{200A}' as u32)) || c == '\u{2028}' || c
        == '\u{2029}' || c == '\u{202F}' || c == '\u{205F}' || c == '\u{3000}'
}

/// The sequence with its leading white space removed.
pub open spec fn spec_trim_front(s: Seq<char>) -> Seq<char>
    decreases s.len(),
{
    if s.len() > 0 && is_space_char(s[0]) {
        spec_trim_front(s.drop_first())
    } else {
        s
    }
}

/// The sequence with its trailing white space removed.
pub open spec fn spec_trim_back(s: Seq<char>) -> Seq<char>
    decreases s.len(),
{
    if s.len() > 0 && is_space_char(s.last()) {
        spec_trim_back(s.drop_last())
    } else {
        s
    }
}

/// The sequence with both leading and trailing white space removed, as
/// `str::trim` leaves a string.
pub open spec fn spec_trim(s: Seq<char>) -> Seq<char> {
    spec_trim_back(spec_trim_front(s))
}

/// The pattern `p` occurs in `s` starting at position `i`.
pub open spec fn matches_at(s: Seq<char>, p: Seq<char>, i: int) -> bool {
    &&& 0 <= i
    &&& i + p.len() <= s.len()
    &&& s.subrange(i, i + p.len() as int) == p
}

/// The position of the first occurrence of `p` in `s` at or after `from`,
/// if there is one.
pub open spec fn spec_find_from(s: Seq<char>, p: Seq<char>, from: int) -> Option<int>
    decreases s.len() - from,
{
    if from < 0 || from > s.len() {
        None
    } else if matches_at(s, p, from) {
        Some(from)
    } else if from == s.len() {
        None
    } else {
        spec_find_from(s, p, from + 1)
    }
}

pub proof fn lemma_find_from_bounds(s: Seq<char>, p: Seq<char>, from: int)
    requires
        0 <= from <= s.len(),
    ensures
        match spec_find_from(s, p, from) {
            Some(i) => from <= i && matches_at(s, p, i) && forall|j: int|
                from <= j < i ==> !matches_at(s, p, j),
            None => forall|j: int| from <= j ==> !matches_at(s, p, j),
        },
    decreases s.len() - from,
{
    if matches_at(s, p, from) {
    } else if from == s.len() {
        assert forall|j: int| from <= j implies !matches_at(s, p, j) by {
            if matches_at(s, p, j) {
                assert(j == from && p.len() == 0);
            }
        }
    } else {
        lemma_find_from_bounds(s, p, from + 1);
    }
}

/// Replaces, left to right and without overlap, every occurrence of `p` in
/// `s` by `r`, in one pass: the semantics of `str::replace`. An empty
/// pattern replaces nothing.
pub open spec fn spec_replace(s: Seq<char>, p: Seq<char>, r: Seq<char>) -> Seq<char>
    decreases s.len(),
{
    if p.len() == 0 || s.len() < p.len() {
        s
    } else if s.subrange(0, p.len() as int) == p {
        r + spec_replace(s.skip(p.len() as int), p, r)
    } else {
        seq![s[0]] + spec_replace(s.drop_first(), p, r)
    }
}

/// Joins a list of pieces with a separator between consecutive pieces.
pub open spec fn spec_join(parts: Seq<Seq<char>>, sep: Seq<char>) -> Seq<char>
    decreases parts.len(),
{
    if parts.len() == 0 {
        Seq::empty()
    } else if parts.len() == 1 {
        parts[0]
    } else {
        parts[0] + sep + spec_join(parts.drop_first(), sep)
    }
}

pub proof fn lemma_join_push(parts: Seq<Seq<char>>, sep: Seq<char>, q: Seq<char>)
    ensures
        spec_join(parts.push(q), sep) == if parts.len() == 0 {
            q
        } else {
            spec_join(parts, sep) + sep + q
        },
    decreases parts.len(),
{
    let whole = parts.push(q);
    if parts.len() == 0 {
        assert(whole.len() == 1);
        assert(whole[0] == q);
    } else if parts.len() == 1 {
        assert(whole.drop_first() =~= seq![q]);
        assert(spec_join(whole.drop_first(), sep) == q);
        assert(spec_join(whole, sep) == parts[0] + sep + q);
        assert(spec_join(parts, sep) == parts[0]);
    } else {
        lemma_join_push(parts.drop_first(), sep, q);
        assert(whole.drop_first() =~= parts.drop_first().push(q));
        assert(spec_join(whole, sep) == whole[0] + sep + spec_join(whole.drop_first(), sep));
        assert(spec_join(parts, sep) + sep + q =~= parts[0] + sep + (spec_join(
            parts.drop_first(),
            sep,
        ) + sep + q));
    }
}

/// Relies on `String::push`: appends the one given character at the end of
/// the string.
#[verifier::external_body]
pub fn push_char(s: &mut String, c: char)
    ensures
        final(s)@ == old(s)@.push(c),
{
    s.push(c);
}

/// The characters of a string slice, in order, as a vector.
pub fn str_chars(s: &str) -> (r: Vec<char>)
    ensures
        r@ == s@,
{
    let n: usize = s.unicode_len();
    let mut r: Vec<char> = Vec::new();
    let mut i: usize = 0;
    while i < n
        invariant
            i <= n,
            n == s@.len(),
            r@ == s@.take(i as int),
        decreases n - i,
    {
        r.push(s.get_char(i));
        assert(r@ =~= s@.take(i + 1));
        i = i + 1;
    }
    assert(r@ =~= s@);
    r
}

/// A string holding exactly the given characters, in order.
pub fn chars_string(v: &Vec<char>) -> (r: String)
    ensures
        r@ == v@,
{
    let mut r: String = String::new();
    let mut i: usize = 0;
    while i < v.len()
        invariant
            i <= v.len(),
            r@ == v@.take(i as int),
        decreases v.len() - i,
    {
        push_char(&mut r, v[i]);
        assert(r@ =~= v@.take(i + 1));
        i = i + 1;
    }
    assert(r@ =~= v@);
    r
}

/// Character-for-character equality of two string slices.
pub fn str_eq(a: &str, b: &str) -> (r: bool)
    ensures
        r == (a@ == b@),
{
    let an: usize = a.unicode_len();
    let bn: usize = b.unicode_len();
    if an != bn {
        return false;
    }
    let mut i: usize = 0;
    while i < an
        invariant
            i <= an,
            an == a@.len(),
            an == b@.len(),
            forall|j: int| 0 <= j < i ==> a@[j] == b@[j],
        decreases an - i,
    {
        if a.get_char(i) != b.get_char(i) {
            return false;
        }
        i = i + 1;
    }
    assert(a@ =~= b@);
    true
}

/// The characters of `s` from `lo` (inclusive) to `hi` (exclusive).
pub fn copy_range(s: &Vec<char>, lo: usize, hi: usize) -> (r: Vec<char>)
    requires
        lo <= hi <= s@.len(),
    ensures
        r@ == s@.subrange(lo as int, hi as int),
{
    let mut r: Vec<char> = Vec::new();
    let mut i: usize = lo;
    while i < hi
        invariant
            lo <= i <= hi <= s@.len(),
            r@ == s@.subrange(lo as int, i as int),
        decreases hi - i,
    {
        r.push(s[i]);
        assert(r@ =~= s@.subrange(lo as int, i + 1));
        i = i + 1;
    }
    r
}

/// Whether `p` occurs in `s` at position `i`.
pub fn check_match_at(s: &Vec<char>, p: &Vec<char>, i: usize) -> (r: bool)
    requires
        i <= s@.len(),
    ensures
        r == matches_at(s@, p@, i as int),
{
    if p.len() > s.len() - i {
        assert(!matches_at(s@, p@, i as int));
        return false;
    }
    let mut k: usize = 0;
    while k < p.len()
        invariant
            k <= p@.len(),
            i + p@.len() <= s@.len(),
            forall|j: int| 0 <= j < k ==> s@[i + j] == p@[j],
        decreases p.len() - k,
    {
        if s[i + k] != p[k] {
            assert(s@.subrange(i as int, i + p@.len()) != p@) by {
                assert(s@.subrange(i as int, i + p@.len())[k as int] == s@[i + k]);
            }
            return false;
        }
        k = k + 1;
    }
    assert(s@.subrange(i as int, i + p@.len()) =~= p@);
    true
}

/// The first occurrence of `p` in `s` at or after `from`, by a left-to-right
/// scan.
pub fn find_from(s: &Vec<char>, p: &Vec<char>, from: usize) -> (r: Option<usize>)
    requires
        from <= s@.len(),
    ensures
        match r {
            Some(i) => from <= i && i <= s@.len() && spec_find_from(s@, p@, from as int) == Some(
                i as int,
            ),
            None => spec_find_from(s@, p@, from as int) is None,
        },
{
    let mut i: usize = from;
    loop
        invariant
            from <= i <= s@.len(),
            spec_find_from(s@, p@, from as int) == spec_find_from(s@, p@, i as int),
        decreases s@.len() - i,
    {
        if check_match_at(s, p, i) {
            return Some(i);
        }
        if i == s.len() {
            return None;
        }
        i = i + 1;
    }
}

/// One left-to-right replacement pass: every occurrence of `p` in `s` is
/// replaced by `rep`, occurrences found earlier first, without overlap.
pub fn replace_all(s: &Vec<char>, p: &Vec<char>, rep: &Vec<char>) -> (out: Vec<char>)
    ensures
        out@ == spec_replace(s@, p@, rep@),
{
    if p.len() == 0 {
        let r = copy_range(s, 0, s.len());
        assert(r@ =~= s@);
        return r;
    }
    let mut out: Vec<char> = Vec::new();
    let mut i: usize = 0;
    assert(s@.skip(0) =~= s@);
    while i < s.len()
        invariant
            i <= s@.len(),
            p@.len() >= 1,
            spec_replace(s@, p@, rep@) == out@ + spec_replace(s@.skip(i as int), p@, rep@),
        decreases s@.len() - i,
    {
        let ghost tail = s@.skip(i as int);
        if check_match_at(s, p, i) {
            proof {
                assert(tail.subrange(0, p@.len() as int) =~= s@.subrange(i as int, i + p@.len()));
                assert(tail.skip(p@.len() as int) =~= s@.skip(i + p@.len()));
                assert(spec_replace(tail, p@, rep@) == rep@ + spec_replace(
                    s@.skip(i + p@.len()),
                    p@,
                    rep@,
                ));
            }
            let mut k: usize = 0;
            let ghost out_before = out@;
            while k < rep.len()
                invariant
                    k <= rep@.len(),
                    out@ == out_before + rep@.take(k as int),
                decreases rep.len() - k,
            {
                out.push(rep[k]);
                assert(out@ =~= out_before + rep@.take(k + 1));
                k = k + 1;
            }
            assert(out@ =~= out_before + rep@);
            i = i + p.len();
        } else {
            proof {
                assert(tail.len() >= p@.len() ==> tail.subrange(0, p@.len() as int) =~= s@.subrange(
                    i as int,
                    i + p@.len(),
                ));
                assert(spec_replace(tail, p@, rep@) == seq![tail[0]] + spec_replace(
                    tail.drop_first(),
                    p@,
                    rep@,
                ));
                assert(tail.drop_first() =~= s@.skip(i + 1));
                assert(tail[0] == s@[i as int]);
            }
            let ghost out_before = out@;
            out.push(s[i]);
            assert(out@ =~= out_before + seq![s@[i as int]]);
            i = i + 1;
        }
    }
    proof {
        assert(s@.skip(i as int) =~= Seq::<char>::empty());
        assert(spec_replace(Seq::<char>::empty(), p@, rep@) == Seq::<char>::empty());
        assert(out@ + Seq::<char>::empty() =~= out@);
    }
    out
}

/// The given characters with leading and trailing white space removed.
pub fn trim_chars(s: &Vec<char>) -> (r: Vec<char>)
    ensures
        r@ == spec_trim(s@),
{
    let n: usize = s.len();
    let mut lo: usize = 0;
    assert(s@.skip(0) =~= s@);
    while lo < n && is_space(s[lo])
        invariant
            lo <= n,
            n == s@.len(),
            spec_trim_front(s@) == spec_trim_front(s@.skip(lo as int)),
        decreases n - lo,
    {
        proof {
            let t = s@.skip(lo as int);
            assert(t[0] == s@[lo as int]);
            assert(t.drop_first() =~= s@.skip(lo + 1));
        }
        lo = lo + 1;
    }
    proof {
        let t = s@.skip(lo as int);
        if lo < n {
            assert(t[0] == s@[lo as int]);
        }
        assert(spec_trim_front(t) == t);
    }
    // spec_trim_front(s@) == s@.skip(lo)
    let mut hi: usize = n;
    while hi > lo && is_space(s[hi - 1])
        invariant
            lo <= hi <= n,
            n == s@.len(),
            spec_trim_front(s@) == s@.skip(lo as int),
            spec_trim_back(s@.skip(lo as int)) == spec_trim_back(
                s@.subrange(lo as int, hi as int),
            ),
        decreases hi,
    {
        proof {
            let t = s@.subrange(lo as int, hi as int);
            assert(t.last() == s@[hi - 1]);
            assert(t.drop_last() =~= s@.subrange(lo as int, hi - 1));
        }
        hi = hi - 1;
    }
    proof {
        let t = s@.subrange(lo as int, hi as int);
        if hi > lo {
            assert(t.last() == s@[hi - 1]);
        }
        assert(spec_trim_back(t) == t);
        assert(s@.skip(lo as int) =~= s@.subrange(lo as int, n as int));
    }
    copy_range(s, lo, hi)
}

/// Appends every character of the string slice `src` to the string `dst`.
pub fn append_str(dst: &mut String, src: &str)
    ensures
        final(dst)@ == old(dst)@ + src@,
{
    let n: usize = src.unicode_len();
    let mut i: usize = 0;
    while i < n
        invariant
            i <= n,
            n == src@.len(),
            dst@ == old(dst)@ + src@.take(i as int),
        decreases n - i,
    {
        push_char(dst, src.get_char(i));
        assert(dst@ =~= old(dst)@ + src@.take(i + 1));
        i = i + 1;
    }
    assert(dst@ =~= old(dst)@ + src@);
}

/// A freshly owned string with the same characters as the slice.
pub fn str_string(s: &str) -> (r: String)
    ensures
        r@ == s@,
{
    let mut r = String::new();
    append_str(&mut r, s);
    r
}

/// Joins the pieces with the separator between consecutive pieces, as
/// `[T]::join` does.
pub fn join_strings(parts: &Vec<String>, sep: &str) -> (r: String)
    ensures
        r@ == spec_join(parts.deep_view(), sep@),
{
    let mut r: String = String::new();
    let mut i: usize = 0;
    while i < parts.len()
        invariant
            i <= parts@.len(),
            parts.deep_view().len() == parts@.len(),
            r@ == spec_join(parts.deep_view().take(i as int), sep@),
        decreases parts.len() - i,
    {
        proof {
            assert(parts.deep_view()[i as int] == parts@[i as int]@);
            assert(parts.deep_view().take(i + 1) =~= parts.deep_view().take(i as int).push(
                parts@[i as int]@,
            ));
            lemma_join_push(parts.deep_view().take(i as int), sep@, parts@[i as int]@);
        }
        if i > 0 {
            append_str(&mut r, sep);
        }
        let piece: &String = &parts[i];
        append_str(&mut r, piece.as_str());
        i = i + 1;
    }
    assert(parts.deep_view().take(parts@.len() as int) =~= parts.deep_view());
    r
}

} // verus!
