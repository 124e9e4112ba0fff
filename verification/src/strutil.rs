//! Verified string helpers: comparisons, prefix/suffix tests, path
//! components, and decimal rendering of integers.

use vstd::prelude::*;
use vstd::string::StrSliceExecFns;
use vstd::string::StringExecFns;

verus! {

/// `p` is a prefix of `s`.
pub open spec fn spec_starts_with(s: Seq<char>, p: Seq<char>) -> bool {
    p.len() <= s.len() && s.subrange(0, p.len() as int) == p
}

/// `p` is a suffix of `s`.
pub open spec fn spec_ends_with(s: Seq<char>, p: Seq<char>) -> bool {
    p.len() <= s.len() && s.subrange(s.len() - p.len(), s.len() as int) == p
}

/// `c` occurs somewhere in `s`.
pub open spec fn contains_char(s: Seq<char>, c: char) -> bool {
    exists|i: int| 0 <= i < s.len() && s[i] == c
}

/// Relies on `String::push`: appends one character to the string.
#[verifier::external_body]
pub fn push_char(s: &mut String, c: char)
    ensures
        final(s)@ == old(s)@.push(c),
{
    s.push(c);
}

/// Character-wise string equality.
pub fn str_eq(a: &str, b: &str) -> (r: bool)
    ensures
        r == (a@ == b@),
{
    let na = a.unicode_len();
    let nb = b.unicode_len();
    if na != nb {
        return false;
    }
    let mut i: usize = 0;
    while i < na
        invariant
            na == a@.len(),
            na == b@.len(),
            0 <= i <= na,
            forall|j: int| 0 <= j < i ==> a@[j] == b@[j],
        decreases na - i,
    {
        if a.get_char(i) != b.get_char(i) {
            return false;
        }
        i += 1;
    }
    proof {
        assert(a@ =~= b@);
    }
    true
}

/// Does `s` start with `p`?
pub fn starts_with_str(s: &str, p: &str) -> (r: bool)
    ensures
        r == spec_starts_with(s@, p@),
{
    let np = p.unicode_len();
    let ns = s.unicode_len();
    if np > ns {
        return false;
    }
    let mut i: usize = 0;
    while i < np
        invariant
            np == p@.len(),
            ns == s@.len(),
            np <= ns,
            0 <= i <= np,
            forall|j: int| 0 <= j < i ==> s@[j] == p@[j],
        decreases np - i,
    {
        if s.get_char(i) != p.get_char(i) {
            proof {
                assert(s@.subrange(0, np as int)[i as int] == s@[i as int]);
            }
            return false;
        }
        i += 1;
    }
    proof {
        assert(s@.subrange(0, np as int) =~= p@);
    }
    true
}

/// Does `s` end with `p`?
pub fn ends_with_str(s: &str, p: &str) -> (r: bool)
    ensures
        r == spec_ends_with(s@, p@),
{
    let np = p.unicode_len();
    let ns = s.unicode_len();
    if np > ns {
        return false;
    }
    let off = ns - np;
    let mut i: usize = 0;
    while i < np
        invariant
            np == p@.len(),
            ns == s@.len(),
            np <= ns,
            off == ns - np,
            0 <= i <= np,
            forall|j: int| 0 <= j < i ==> s@[off + j] == p@[j],
        decreases np - i,
    {
        if s.get_char(off + i) != p.get_char(i) {
            proof {
                assert(s@.subrange(off as int, ns as int)[i as int] == s@[off + i]);
            }
            return false;
        }
        i += 1;
    }
    proof {
        assert(s@.subrange(off as int, ns as int) =~= p@);
    }
    true
}

/// The part of `s` after the last occurrence of `c` (all of `s` when `c`
/// does not occur).
pub open spec fn after_last(s: Seq<char>, c: char) -> Seq<char>
    decreases s.len(),
{
    if s.len() == 0 {
        s
    } else if s.last() == c {
        Seq::empty()
    } else {
        after_last(s.drop_last(), c).push(s.last())
    }
}

/// When `a` ends with `c` and `c` does not occur in `b`, the part of `a + b`
/// after the last `c` is exactly `b`.
pub proof fn lemma_after_last_concat(a: Seq<char>, b: Seq<char>, c: char)
    requires
        a.len() > 0,
        a.last() == c,
        !contains_char(b, c),
    ensures
        after_last(a + b, c) == b,
    decreases b.len(),
{
    if b.len() == 0 {
        assert(a + b =~= a);
    } else {
        assert(b.last() != c);
        assert(!contains_char(b.drop_last(), c)) by {
            assert(forall|i: int|
                0 <= i < b.drop_last().len() ==> b.drop_last()[i] == b[i]);
        }
        lemma_after_last_concat(a, b.drop_last(), c);
        assert((a + b).drop_last() =~= a + b.drop_last());
        assert((a + b).last() == b.last());
        assert(after_last(a + b, c) =~= b);
    }
}

/// The final path component of `path`: everything after the last `/`.
pub fn basename(path: &str) -> (r: String)
    ensures
        r@ == after_last(path@, '/'),
{
    let n = path.unicode_len();
    let mut start: usize = 0;
    let mut i: usize = 0;
    while i < n
        invariant
            n == path@.len(),
            0 <= start <= i <= n,
            after_last(path@.subrange(0, i as int), '/') == path@.subrange(
                start as int,
                i as int,
            ),
        decreases n - i,
    {
        let c = path.get_char(i);
        proof {
            assert(path@.subrange(0, i + 1).drop_last() =~= path@.subrange(0, i as int));
            assert(path@.subrange(0, i + 1).last() == path@[i as int]);
        }
        if c == '/' {
            start = i + 1;
            proof {
                assert(after_last(path@.subrange(0, i + 1), '/') =~= path@.subrange(
                    start as int,
                    i + 1,
                ));
            }
        } else {
            proof {
                assert(after_last(path@.subrange(0, i + 1), '/') =~= path@.subrange(
                    start as int,
                    i + 1,
                ));
            }
        }
        i += 1;
    }
    proof {
        assert(path@.subrange(0, n as int) =~= path@);
    }
    let r = path.substring_char(start, n);
    r.to_owned()
}

/// Strips `p` from the front of `s`, when it is a prefix.
pub fn strip_prefix_str(s: &str, p: &str) -> (r: Option<String>)
    ensures
        match r {
            Some(t) => spec_starts_with(s@, p@) && t@ == s@.skip(p@.len() as int),
            None => !spec_starts_with(s@, p@),
        },
{
    if starts_with_str(s, p) {
        let np = p.unicode_len();
        let ns = s.unicode_len();
        let t = s.substring_char(np, ns);
        proof {
            assert(s@.subrange(np as int, ns as int) =~= s@.skip(p@.len() as int));
        }
        Some(t.to_owned())
    } else {
        None
    }
}

/// `p` occurs as a contiguous substring of `s`.
pub open spec fn spec_contains_substr(s: Seq<char>, p: Seq<char>) -> bool {
    exists|i: int| 0 <= i && i + p.len() <= s.len() && #[trigger] s.subrange(i, i + p.len()) == p
}

/// `p` occurs at position `at` of `s`.
fn match_at(s: &str, at: usize, p: &str) -> (r: bool)
    requires
        at + p@.len() <= s@.len(),
        s@.len() <= usize::MAX,
    ensures
        r == (s@.subrange(at as int, at + p@.len()) == p@),
{
    let np = p.unicode_len();
    let mut i: usize = 0;
    while i < np
        invariant
            np == p@.len(),
            at + np <= s@.len(),
            s@.len() <= usize::MAX,
            0 <= i <= np,
            forall|j: int| 0 <= j < i ==> s@[at + j] == p@[j],
        decreases np - i,
    {
        if s.get_char(at + i) != p.get_char(i) {
            proof {
                assert(s@.subrange(at as int, at + np)[i as int] == s@[at + i]);
            }
            return false;
        }
        i += 1;
    }
    proof {
        assert(s@.subrange(at as int, at + np) =~= p@);
    }
    true
}

/// Does `p` occur anywhere in `s`?
pub fn contains_substr(s: &str, p: &str) -> (r: bool)
    ensures
        r == spec_contains_substr(s@, p@),
{
    let ns = s.unicode_len();
    let np = p.unicode_len();
    if np > ns {
        return false;
    }
    if np == 0 {
        proof {
            assert(s@.subrange(0, 0int + p@.len()) =~= p@);
        }
        return true;
    }
    let mut i: usize = 0;
    while i <= ns - np
        invariant
            ns == s@.len(),
            np == p@.len(),
            1 <= np <= ns,
            i as int <= ns - np + 1,
            forall|j: int| 0 <= j < i ==> #[trigger] s@.subrange(j, j + np as int) != p@,
        decreases ns - np + 1 - i,
    {
        if match_at(s, i, p) {
            return true;
        }
        i += 1;
    }
    false
}

/// Whitespace, as recognized by the tokenizing helpers.
pub open spec fn is_space(c: char) -> bool {
    c == ' ' || c == '\t' || c == '\r' || c == '\n'
}

/// `s` without its leading whitespace.
pub open spec fn spec_trim_start(s: Seq<char>) -> Seq<char>
    decreases s.len(),
{
    if s.len() == 0 {
        s
    } else if is_space(s[0]) {
        spec_trim_start(s.drop_first())
    } else {
        s
    }
}

/// The leading run of non-whitespace characters of `s`.
pub open spec fn spec_until_space(s: Seq<char>) -> Seq<char>
    decreases s.len(),
{
    if s.len() == 0 {
        s
    } else if is_space(s[0]) {
        Seq::empty()
    } else {
        seq![s[0]] + spec_until_space(s.drop_first())
    }
}

/// `s` without its leading run of non-whitespace characters.
pub open spec fn spec_after_token(s: Seq<char>) -> Seq<char>
    decreases s.len(),
{
    if s.len() == 0 {
        s
    } else if is_space(s[0]) {
        s
    } else {
        spec_after_token(s.drop_first())
    }
}

/// The second whitespace-separated token of `s`, when there is one.
pub open spec fn spec_second_token(s: Seq<char>) -> Option<Seq<char>> {
    let rest = spec_trim_start(spec_after_token(spec_trim_start(s)));
    if rest.len() == 0 {
        None
    } else {
        Some(spec_until_space(rest))
    }
}

fn is_space_char(c: char) -> (r: bool)
    ensures
        r == is_space(c),
{
    c == ' ' || c == '\t' || c == '\r' || c == '\n'
}

/// The first position at or after `from` that holds a non-space character.
fn skip_spaces(s: &str, from: usize) -> (r: usize)
    requires
        from <= s@.len(),
    ensures
        from <= r <= s@.len(),
        spec_trim_start(s@.skip(from as int)) == s@.skip(r as int),
{
    let n = s.unicode_len();
    let mut i = from;
    while i < n
        invariant
            n == s@.len(),
            from <= i <= n,
            spec_trim_start(s@.skip(from as int)) == spec_trim_start(s@.skip(i as int)),
        decreases n - i,
    {
        let c = s.get_char(i);
        proof {
            assert(s@.skip(i as int)[0] == s@[i as int]);
            assert(s@.skip(i as int).drop_first() =~= s@.skip(i + 1));
        }
        if !is_space_char(c) {
            return i;
        }
        i += 1;
    }
    proof {
        assert(s@.skip(n as int) =~= Seq::<char>::empty());
    }
    n
}

/// The first position at or after `from` that holds a space (or the end),
/// together with the token passed over.
fn skip_token(s: &str, from: usize) -> (r: usize)
    requires
        from <= s@.len(),
    ensures
        from <= r <= s@.len(),
        spec_after_token(s@.skip(from as int)) == s@.skip(r as int),
        spec_until_space(s@.skip(from as int)) == s@.subrange(from as int, r as int),
{
    let n = s.unicode_len();
    let mut i = from;
    while i < n
        invariant
            n == s@.len(),
            from <= i <= n,
            spec_after_token(s@.skip(from as int)) == spec_after_token(s@.skip(i as int)),
            spec_until_space(s@.skip(from as int)) == s@.subrange(from as int, i as int)
                + spec_until_space(s@.skip(i as int)),
        decreases n - i,
    {
        let c = s.get_char(i);
        proof {
            assert(s@.skip(i as int)[0] == s@[i as int]);
            assert(s@.skip(i as int).drop_first() =~= s@.skip(i + 1));
        }
        if is_space_char(c) {
            proof {
                assert(s@.subrange(from as int, i as int)
                    + spec_until_space(s@.skip(i as int)) =~= s@.subrange(from as int, i as int));
            }
            return i;
        }
        proof {
            assert(s@.subrange(from as int, i as int) + (seq![s@[i as int]] + spec_until_space(
                s@.skip(i + 1),
            )) =~= s@.subrange(from as int, i + 1) + spec_until_space(s@.skip(i + 1)));
        }
        i += 1;
    }
    proof {
        assert(s@.skip(n as int) =~= Seq::<char>::empty());
        assert(s@.subrange(from as int, n as int) + spec_until_space(s@.skip(n as int))
            =~= s@.subrange(from as int, n as int));
    }
    n
}

/// `s` without leading whitespace.
pub fn trim_start_str(s: &str) -> (r: String)
    ensures
        r@ == spec_trim_start(s@),
{
    let n = s.unicode_len();
    let a = skip_spaces(s, 0);
    proof {
        assert(s@.skip(0) =~= s@);
    }
    s.substring_char(a, n).to_owned()
}

/// The second whitespace-separated token of `s`, when there is one.
pub fn second_token(s: &str) -> (r: Option<String>)
    ensures
        match r {
            Some(t) => spec_second_token(s@) == Some(t@),
            None => spec_second_token(s@) is None,
        },
{
    let n = s.unicode_len();
    proof {
        assert(s@.skip(0) =~= s@);
    }
    let a = skip_spaces(s, 0);
    let b = skip_token(s, a);
    let c = skip_spaces(s, b);
    if c == n {
        proof {
            assert(s@.skip(n as int) =~= Seq::<char>::empty());
        }
        None
    } else {
        let d = skip_token(s, c);
        proof {
            assert(s@.skip(c as int).len() > 0);
        }
        Some(s.substring_char(c, d).to_owned())
    }
}

/// The runs of `s` separated by `sep`, with no final empty run when `s`
/// ends in a separator.
pub open spec fn spec_split_runs(s: Seq<char>, sep: char) -> Seq<Seq<char>>
    decreases s.len(),
{
    if s.len() == 0 {
        Seq::empty()
    } else if s[0] == sep {
        seq![Seq::<char>::empty()] + spec_split_runs(s.drop_first(), sep)
    } else {
        let rest = spec_split_runs(s.drop_first(), sep);
        if rest.len() == 0 {
            seq![seq![s[0]]]
        } else {
            seq![seq![s[0]] + rest[0]] + rest.drop_first()
        }
    }
}

/// The lines of `s`: maximal runs separated by `\n`, with no final empty
/// line when `s` ends in a newline.
pub open spec fn spec_lines(s: Seq<char>) -> Seq<Seq<char>> {
    spec_split_runs(s, '\n')
}

/// A partially read line `cur` joined onto the lines `ls` of the unread
/// remainder.
pub open spec fn spec_join_partial(cur: Seq<char>, ls: Seq<Seq<char>>) -> Seq<Seq<char>> {
    if ls.len() == 0 {
        if cur.len() == 0 {
            Seq::empty()
        } else {
            seq![cur]
        }
    } else {
        seq![cur + ls[0]] + ls.drop_first()
    }
}

/// Splits `s` into its separator-delimited runs.
pub fn split_runs(s: &str, sep: char) -> (r: Vec<String>)
    ensures
        r.deep_view() == spec_split_runs(s@, sep),
{
    let n = s.unicode_len();
    let mut done: Vec<String> = Vec::new();
    let mut cur = String::new();
    let mut i: usize = 0;
    proof {
        assert(s@.skip(0) =~= s@);
        assert(done.deep_view() + spec_join_partial(cur@, spec_split_runs(s@.skip(0), sep))
            =~~= spec_split_runs(s@, sep));
    }
    while i < n
        invariant
            n == s@.len(),
            0 <= i <= n,
            done.deep_view() + spec_join_partial(cur@, spec_split_runs(s@.skip(i as int), sep))
                == spec_split_runs(s@, sep),
        decreases n - i,
    {
        let c = s.get_char(i);
        proof {
            assert(s@.skip(i as int)[0] == s@[i as int]);
            assert(s@.skip(i as int).drop_first() =~= s@.skip(i + 1));
        }
        let ghost old_done = done.deep_view();
        let ghost old_cur = cur@;
        let ghost tail_lines = spec_split_runs(s@.skip(i + 1), sep);
        if c == sep {
            done.push(cur);
            cur = String::new();
            proof {
                assert(spec_split_runs(s@.skip(i as int), sep) == seq![Seq::<char>::empty()] + tail_lines);
                if tail_lines.len() == 0 {
                    assert(spec_join_partial(old_cur, spec_split_runs(s@.skip(i as int), sep))
                        =~~= seq![old_cur]);
                    assert(done.deep_view() + spec_join_partial(cur@, tail_lines)
                        =~~= old_done + seq![old_cur]);
                } else {
                    assert(spec_join_partial(old_cur, spec_split_runs(s@.skip(i as int), sep))
                        =~~= seq![old_cur] + tail_lines);
                    assert(spec_join_partial(cur@, tail_lines) =~~= tail_lines);
                    assert(done.deep_view() + tail_lines =~~= old_done + (seq![old_cur]
                        + tail_lines));
                }
            }
        } else {
            push_char(&mut cur, c);
            proof {
                if tail_lines.len() == 0 {
                    assert(spec_split_runs(s@.skip(i as int), sep) == seq![seq![s@[i as int]]]);
                    assert(spec_join_partial(old_cur, spec_split_runs(s@.skip(i as int), sep))
                        =~~= seq![old_cur.push(s@[i as int])]);
                    assert(spec_join_partial(cur@, tail_lines) =~~= seq![old_cur.push(
                        s@[i as int],
                    )]);
                } else {
                    assert(spec_split_runs(s@.skip(i as int), sep) == seq![seq![s@[i as int]]
                        + tail_lines[0]] + tail_lines.drop_first());
                    assert(old_cur + (seq![s@[i as int]] + tail_lines[0]) =~= cur@
                        + tail_lines[0]);
                    assert(spec_join_partial(old_cur, spec_split_runs(s@.skip(i as int), sep))
                        =~~= spec_join_partial(cur@, tail_lines));
                }
            }
        }
        i += 1;
    }
    proof {
        assert(s@.skip(n as int) =~= Seq::<char>::empty());
    }
    if !cur.as_str().is_empty() {
        done.push(cur);
        proof {
            assert(done.deep_view() =~~= spec_split_runs(s@, sep));
        }
    } else {
        proof {
            assert(done.deep_view() + spec_join_partial(cur@, spec_split_runs(s@.skip(n as int), sep))
                =~~= done.deep_view());
        }
    }
    done
}

/// `parts` joined with `sep` between consecutive parts.
pub open spec fn spec_join(parts: Seq<Seq<char>>, sep: Seq<char>) -> Seq<char>
    decreases parts.len(),
{
    if parts.len() == 0 {
        Seq::empty()
    } else if parts.len() == 1 {
        parts[0]
    } else {
        spec_join(parts.drop_last(), sep) + sep + parts.last()
    }
}

/// Joins `parts` with `sep` between consecutive parts.
pub fn join_with(parts: &Vec<String>, sep: &str) -> (r: String)
    ensures
        r@ == spec_join(parts.deep_view(), sep@),
{
    let n = parts.len();
    let mut r = String::new();
    let mut i: usize = 0;
    proof {
        assert(parts.deep_view().subrange(0, 0) =~~= Seq::<Seq<char>>::empty());
    }
    while i < n
        invariant
            n == parts@.len(),
            n == parts.deep_view().len(),
            0 <= i <= n,
            r@ == spec_join(parts.deep_view().subrange(0, i as int), sep@),
        decreases n - i,
    {
        if i > 0 {
            r.append(sep);
        }
        r.append(parts[i].as_str());
        proof {
            let dv = parts.deep_view();
            assert(dv.subrange(0, i + 1).drop_last() =~~= dv.subrange(0, i as int));
            assert(dv.subrange(0, i + 1).last() == dv[i as int]);
            assert(dv[i as int] == parts@[i as int]@);
            if i == 0 {
                assert(r@ =~= spec_join(dv.subrange(0, 1), sep@));
            } else {
                assert(r@ =~= spec_join(dv.subrange(0, i + 1), sep@));
            }
        }
        i += 1;
    }
    proof {
        assert(parts.deep_view().subrange(0, n as int) =~~= parts.deep_view());
    }
    r
}

/// The parent directory of a path: what stands before the last `/`, with
/// the filesystem root for a path whose only separator leads it; a path
/// with no separator has no parent.
pub fn parent_dir(path: &str) -> (r: Option<String>)
    ensures
        match r {
            Some(d) => {
                let bn = after_last(path@, '/');
                &&& bn.len() < path@.len()
                &&& path@[path@.len() - bn.len() - 1] == '/'
                &&& if path@.len() - bn.len() - 1 == 0 {
                    d@ == "/"@
                } else {
                    d@ == path@.subrange(0, path@.len() - bn.len() - 1)
                }
            },
            None => !contains_char(path@, '/'),
        },
{
    let n = path.unicode_len();
    let mut start: usize = 0;
    let mut i: usize = 0;
    while i < n
        invariant
            n == path@.len(),
            0 <= start <= i <= n,
            after_last(path@.subrange(0, i as int), '/') == path@.subrange(start as int, i as int),
            start == 0 ==> forall|j: int| 0 <= j < i ==> path@[j] != '/',
            start > 0 ==> path@[start - 1] == '/',
        decreases n - i,
    {
        let c = path.get_char(i);
        proof {
            assert(path@.subrange(0, i + 1).drop_last() =~= path@.subrange(0, i as int));
            assert(path@.subrange(0, i + 1).last() == path@[i as int]);
        }
        if c == '/' {
            start = i + 1;
        }
        proof {
            assert(after_last(path@.subrange(0, i + 1), '/') =~= path@.subrange(
                start as int,
                i + 1,
            ));
        }
        i += 1;
    }
    proof {
        assert(path@.subrange(0, n as int) =~= path@);
    }
    if start == 0 {
        None
    } else if start == 1 {
        proof {
            assert(after_last(path@, '/') =~= path@.subrange(1, n as int));
        }
        Some(String::from_str("/"))
    } else {
        proof {
            assert(after_last(path@, '/') =~= path@.subrange(start as int, n as int));
        }
        let d = path.substring_char(0, start - 1);
        Some(d.to_owned())
    }
}

/// The prefix of `s` before the first occurrence of `c` (all of `s` when
/// `c` does not occur).
pub open spec fn spec_until_char(s: Seq<char>, c: char) -> Seq<char>
    decreases s.len(),
{
    if s.len() == 0 {
        s
    } else if s[0] == c {
        Seq::empty()
    } else {
        seq![s[0]] + spec_until_char(s.drop_first(), c)
    }
}

/// What follows the first occurrence of `c` in `s`.
pub open spec fn spec_after_first_char(s: Seq<char>, c: char) -> Seq<char>
    decreases s.len(),
{
    if s.len() == 0 {
        s
    } else if s[0] == c {
        s.drop_first()
    } else {
        spec_after_first_char(s.drop_first(), c)
    }
}

/// When the characters of `s` before `k` avoid `c`, and `k` is the length
/// of `s` or the first occurrence of `c`, the prefix before the first `c`
/// is exactly `s` up to `k`.
pub proof fn lemma_until_char_at(s: Seq<char>, c: char, k: int)
    requires
        0 <= k <= s.len(),
        forall|j: int| 0 <= j < k ==> s[j] != c,
        k == s.len() || s[k] == c,
    ensures
        spec_until_char(s, c) == s.subrange(0, k),
    decreases s.len(),
{
    if k == 0 {
        if s.len() == 0 {
            assert(spec_until_char(s, c) =~= s.subrange(0, 0));
        } else {
            assert(spec_until_char(s, c) =~= s.subrange(0, 0));
        }
    } else {
        assert(s[0] != c);
        lemma_until_char_at(s.drop_first(), c, k - 1);
        assert(s.drop_first().subrange(0, k - 1) =~= s.subrange(1, k));
        assert(spec_until_char(s, c) =~= s.subrange(0, k));
    }
}

/// When the characters of `s` before `k` avoid `c` and `s[k]` is `c`, what
/// follows the first `c` is exactly `s` after `k`.
pub proof fn lemma_after_first_at(s: Seq<char>, c: char, k: int)
    requires
        0 <= k < s.len(),
        forall|j: int| 0 <= j < k ==> s[j] != c,
        s[k] == c,
    ensures
        spec_after_first_char(s, c) == s.skip(k + 1),
    decreases s.len(),
{
    if k == 0 {
        assert(spec_after_first_char(s, c) =~= s.skip(1));
    } else {
        assert(s[0] != c);
        lemma_after_first_at(s.drop_first(), c, k - 1);
        assert(s.drop_first().skip(k) =~= s.skip(k + 1));
    }
}

/// The position of the first occurrence of `c` in `s` at or after `from`.
pub fn find_char(s: &str, c: char, from: usize) -> (r: Option<usize>)
    requires
        from <= s@.len(),
    ensures
        match r {
            Some(k) => from <= k < s@.len() && s@[k as int] == c && (forall|j: int|
                from <= j < k ==> s@[j] != c),
            None => forall|j: int| from <= j < s@.len() ==> s@[j] != c,
        },
{
    let n = s.unicode_len();
    let mut i = from;
    while i < n
        invariant
            n == s@.len(),
            from <= i <= n,
            forall|j: int| from <= j < i ==> s@[j] != c,
        decreases n - i,
    {
        if s.get_char(i) == c {
            return Some(i);
        }
        i += 1;
    }
    None
}

/// `s` without its trailing whitespace.
pub open spec fn spec_trim_end(s: Seq<char>) -> Seq<char>
    decreases s.len(),
{
    if s.len() == 0 {
        s
    } else if is_space(s.last()) {
        spec_trim_end(s.drop_last())
    } else {
        s
    }
}

/// `s` without leading or trailing whitespace.
pub open spec fn spec_trim(s: Seq<char>) -> Seq<char> {
    spec_trim_end(spec_trim_start(s))
}

/// Trims whitespace from both ends of `s`.
pub fn trim_str(s: &str) -> (r: String)
    ensures
        r@ == spec_trim(s@),
{
    let n = s.unicode_len();
    proof {
        assert(s@.skip(0) =~= s@);
    }
    let a = skip_spaces(s, 0);
    let ghost t = spec_trim_start(s@);
    let mut b = n;
    proof {
        assert(s@.skip(a as int).subrange(0, (b - a) as int) =~= s@.skip(a as int));
    }
    while b > a && is_space_char(s.get_char(b - 1))
        invariant
            n == s@.len(),
            a <= b <= n,
            t == s@.skip(a as int),
            spec_trim_end(t) == spec_trim_end(s@.subrange(a as int, b as int)),
        decreases b,
    {
        proof {
            let cur = s@.subrange(a as int, b as int);
            assert(cur.last() == s@[b - 1]);
            assert(cur.drop_last() =~= s@.subrange(a as int, b - 1));
        }
        b = b - 1;
    }
    proof {
        let cur = s@.subrange(a as int, b as int);
        if b > a {
            assert(cur.last() == s@[b - 1]);
            assert(!is_space(cur.last()));
        }
        assert(spec_trim_end(cur) == cur);
    }
    s.substring_char(a, b).to_owned()
}

/// `s` without its leading run of the character `c`.
pub open spec fn spec_strip_leading(s: Seq<char>, c: char) -> Seq<char>
    decreases s.len(),
{
    if s.len() == 0 {
        s
    } else if s[0] == c {
        spec_strip_leading(s.drop_first(), c)
    } else {
        s
    }
}

/// Strips every leading `c` from `s`.
pub fn strip_leading(s: &str, c: char) -> (r: String)
    ensures
        r@ == spec_strip_leading(s@, c),
{
    let n = s.unicode_len();
    let mut i: usize = 0;
    proof {
        assert(s@.skip(0) =~= s@);
    }
    while i < n
        invariant
            n == s@.len(),
            0 <= i <= n,
            spec_strip_leading(s@, c) == spec_strip_leading(s@.skip(i as int), c),
        decreases n - i,
    {
        proof {
            assert(s@.skip(i as int)[0] == s@[i as int]);
            assert(s@.skip(i as int).drop_first() =~= s@.skip(i + 1));
        }
        if s.get_char(i) != c {
            let r = s.substring_char(i, n);
            proof {
                assert(s@.subrange(i as int, n as int) =~= s@.skip(i as int));
            }
            return r.to_owned();
        }
        i += 1;
    }
    proof {
        assert(s@.skip(n as int) =~= Seq::<char>::empty());
    }
    s.substring_char(n, n).to_owned()
}

/// `s` with every (leftmost, non-overlapping) occurrence of `from` replaced
/// by `to`; the identity when `from` is empty.
pub open spec fn spec_replace_all(s: Seq<char>, from: Seq<char>, to: Seq<char>) -> Seq<char>
    decreases s.len(),
{
    if from.len() == 0 || s.len() == 0 {
        s
    } else if spec_starts_with(s, from) {
        to + spec_replace_all(s.skip(from.len() as int), from, to)
    } else {
        seq![s[0]] + spec_replace_all(s.drop_first(), from, to)
    }
}

/// Replaces every occurrence of `from` in `s` by `to`, scanning left to
/// right without overlap.
pub fn replace_all(s: &str, from: &str, to: &str) -> (r: String)
    requires
        from@.len() > 0,
    ensures
        r@ == spec_replace_all(s@, from@, to@),
{
    let n = s.unicode_len();
    let nf = from.unicode_len();
    let mut r = String::new();
    let mut i: usize = 0;
    proof {
        assert(s@.skip(0) =~= s@);
        assert(r@ + spec_replace_all(s@, from@, to@) =~= spec_replace_all(s@, from@, to@));
    }
    while i < n
        invariant
            n == s@.len(),
            nf == from@.len(),
            nf > 0,
            0 <= i <= n,
            r@ + spec_replace_all(s@.skip(i as int), from@, to@) == spec_replace_all(
                s@,
                from@,
                to@,
            ),
        decreases n - i,
    {
        let ghost old_r = r@;
        let ghost rem = s@.skip(i as int);
        if nf <= n - i && match_at(s, i, from) {
            proof {
                assert(rem.subrange(0, nf as int) =~= s@.subrange(i as int, i + nf));
                assert(spec_starts_with(rem, from@));
                assert(rem.skip(nf as int) =~= s@.skip(i + nf));
            }
            r.append(to);
            proof {
                assert(r@ + spec_replace_all(s@.skip(i + nf), from@, to@) =~= old_r + (to@
                    + spec_replace_all(s@.skip(i + nf), from@, to@)));
            }
            i += nf;
        } else {
            proof {
                assert(rem[0] == s@[i as int]);
                assert(rem.drop_first() =~= s@.skip(i + 1));
                if nf > n - i {
                    assert(!spec_starts_with(rem, from@));
                } else {
                    assert(rem.subrange(0, nf as int) =~= s@.subrange(i as int, i + nf));
                }
            }
            push_char(&mut r, s.get_char(i));
            proof {
                assert(r@ + spec_replace_all(s@.skip(i + 1), from@, to@) =~= old_r + (seq![
                    s@[i as int],
                ] + spec_replace_all(s@.skip(i + 1), from@, to@)));
            }
            i += 1;
        }
    }
    proof {
        assert(s@.skip(n as int) =~= Seq::<char>::empty());
        assert(r@ + Seq::<char>::empty() =~= r@);
    }
    r
}

/// Splits `s` into its lines.
pub fn split_lines(s: &str) -> (r: Vec<String>)
    ensures
        r.deep_view() == spec_lines(s@),
{
    split_runs(s, '\n')
}

/// The character for one decimal digit.
pub open spec fn digit_char(d: int) -> char {
    if d == 0 {
        '0'
    } else if d == 1 {
        '1'
    } else if d == 2 {
        '2'
    } else if d == 3 {
        '3'
    } else if d == 4 {
        '4'
    } else if d == 5 {
        '5'
    } else if d == 6 {
        '6'
    } else if d == 7 {
        '7'
    } else if d == 8 {
        '8'
    } else {
        '9'
    }
}

/// The decimal rendering of a non-negative integer, most significant digit
/// first, with no leading zeros (a single `0` for zero).
pub open spec fn spec_u64_str(n: int) -> Seq<char>
    decreases n,
{
    if n < 10 {
        seq![digit_char(n)]
    } else {
        spec_u64_str(n / 10).push(digit_char(n % 10))
    }
}

fn digit_to_char(d: u64) -> (c: char)
    requires
        d < 10,
    ensures
        c == digit_char(d as int),
{
    if d == 0 {
        '0'
    } else if d == 1 {
        '1'
    } else if d == 2 {
        '2'
    } else if d == 3 {
        '3'
    } else if d == 4 {
        '4'
    } else if d == 5 {
        '5'
    } else if d == 6 {
        '6'
    } else if d == 7 {
        '7'
    } else if d == 8 {
        '8'
    } else {
        '9'
    }
}

fn push_u64_digits(s: &mut String, n: u64)
    ensures
        final(s)@ == old(s)@ + spec_u64_str(n as int),
    decreases n,
{
    if n < 10 {
        push_char(s, digit_to_char(n));
        proof {
            assert(old(s)@.push(digit_char(n as int)) =~= old(s)@ + spec_u64_str(n as int));
        }
    } else {
        push_u64_digits(s, n / 10);
        let ghost mid = s@;
        push_char(s, digit_to_char(n % 10));
        proof {
            assert(mid.push(digit_char((n % 10) as int)) =~= old(s)@ + spec_u64_str(n as int));
        }
    }
}

/// Renders `n` in decimal.
pub fn u64_to_string(n: u64) -> (r: String)
    ensures
        r@ == spec_u64_str(n as int),
{
    let mut s = String::new();
    push_u64_digits(&mut s, n);
    proof {
        assert(Seq::<char>::empty() + spec_u64_str(n as int) =~= spec_u64_str(n as int));
    }
    s
}

} // verus!
