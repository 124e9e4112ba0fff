//! A string writer that indents each line it starts, used when generating
//! nested recipe text.

use vstd::prelude::*;
use vstd::string::StrSliceExecFns;
use vstd::string::StringExecFns;

verus! {

/// The indentation for `level` levels: two spaces per level.
pub open spec fn spec_indent(level: int) -> Seq<char> {
    if level <= 0 {
        Seq::empty()
    } else {
        Seq::new((2 * level) as nat, |i: int| ' ')
    }
}

/// Whether the next written character starts a line: the buffer is empty or
/// ends in a newline.
pub open spec fn spec_needs_indent(buf: Seq<char>) -> bool {
    buf.len() == 0 || buf.last() == '\n'
}

/// The text as written at `level`: indentation is inserted before the first
/// character of every non-empty line, newlines pass through.
pub open spec fn spec_indented_text(level: int, needs: bool, s: Seq<char>) -> Seq<char>
    decreases s.len(),
{
    if s.len() == 0 {
        Seq::empty()
    } else if needs && s[0] != '\n' {
        spec_indent(level) + seq![s[0]] + spec_indented_text(level, false, s.drop_first())
    } else {
        seq![s[0]] + spec_indented_text(level, s[0] == '\n', s.drop_first())
    }
}

/// The line-start state after writing `s`, given the state before: each
/// character leaves behind whether it was a newline.
pub open spec fn spec_needs_after(needs: bool, s: Seq<char>) -> bool
    decreases s.len(),
{
    if s.len() == 0 {
        needs
    } else {
        spec_needs_after(s[0] == '\n', s.drop_first())
    }
}

/// After a non-empty write, the line-start state is set by its last
/// character alone.
proof fn lemma_needs_after_last(needs: bool, s: Seq<char>)
    requires
        s.len() > 0,
    ensures
        spec_needs_after(needs, s) == (s.last() == '\n'),
    decreases s.len(),
{
    if s.len() == 1 {
        assert(s.drop_first().len() == 0);
        assert(spec_needs_after(s[0] == '\n', s.drop_first()) == (s[0] == '\n'));
        assert(s.last() == s[0]);
    } else {
        lemma_needs_after_last(s[0] == '\n', s.drop_first());
        assert(s.drop_first().last() == s.last());
    }
}

/// The written form of a non-empty piece is non-empty and ends with the
/// piece's own last character.
proof fn lemma_indented_text_last(level: int, needs: bool, s: Seq<char>)
    requires
        s.len() > 0,
    ensures
        spec_indented_text(level, needs, s).len() > 0,
        spec_indented_text(level, needs, s).last() == s.last(),
    decreases s.len(),
{
    if s.len() == 1 {
        assert(s.drop_first().len() == 0);
        if needs && s[0] != '\n' {
            assert(spec_indented_text(level, false, s.drop_first()) =~= Seq::<char>::empty());
            assert((spec_indent(level) + seq![s[0]] + Seq::<char>::empty()).last() == s[0]);
            assert(spec_indented_text(level, needs, s) =~= spec_indent(level) + seq![s[0]]
                + Seq::<char>::empty());
        } else {
            assert(spec_indented_text(level, s[0] == '\n', s.drop_first())
                =~= Seq::<char>::empty());
            assert((seq![s[0]] + Seq::<char>::empty()).last() == s[0]);
            assert(spec_indented_text(level, needs, s) =~= seq![s[0]] + Seq::<char>::empty());
        }
        assert(s.last() == s[0]);
    } else {
        if needs && s[0] != '\n' {
            lemma_indented_text_last(level, false, s.drop_first());
        } else {
            lemma_indented_text_last(level, s[0] == '\n', s.drop_first());
        }
        assert(s.drop_first().last() == s.last());
    }
}

/// Splitting a piece in two changes nothing: the written form of the
/// concatenation is the written form of the first piece followed by the
/// written form of the second, started in the state the first leaves.
proof fn lemma_indented_text_concat(level: int, needs: bool, a: Seq<char>, b: Seq<char>)
    ensures
        spec_indented_text(level, needs, a + b) == spec_indented_text(level, needs, a)
            + spec_indented_text(level, spec_needs_after(needs, a), b),
    decreases a.len(),
{
    if a.len() == 0 {
        assert(a + b =~= b);
        assert(spec_indented_text(level, needs, a) + spec_indented_text(level, needs, b)
            =~= spec_indented_text(level, needs, b));
    } else {
        assert((a + b)[0] == a[0]);
        assert((a + b).drop_first() =~= a.drop_first() + b);
        if needs && a[0] != '\n' {
            lemma_indented_text_concat(level, false, a.drop_first(), b);
            assert(spec_indented_text(level, needs, a + b) =~= spec_indented_text(level, needs, a)
                + spec_indented_text(level, spec_needs_after(needs, a), b));
        } else {
            lemma_indented_text_concat(level, a[0] == '\n', a.drop_first(), b);
            assert(spec_indented_text(level, needs, a + b) =~= spec_indented_text(level, needs, a)
                + spec_indented_text(level, spec_needs_after(needs, a), b));
        }
    }
}

/// Writing two pieces in turn equals writing their concatenation: after the
/// first write, the buffer's line-start state is exactly the state the
/// first piece leaves, so the second write continues where one combined
/// write would.
pub proof fn lemma_write_str_splits(buf: Seq<char>, level: int, a: Seq<char>, b: Seq<char>)
    ensures
        buf + spec_indented_text(level, spec_needs_indent(buf), a + b) == (buf
            + spec_indented_text(level, spec_needs_indent(buf), a)) + spec_indented_text(
            level,
            spec_needs_indent(buf + spec_indented_text(level, spec_needs_indent(buf), a)),
            b,
        ),
{
    let needs = spec_needs_indent(buf);
    let first = spec_indented_text(level, needs, a);
    lemma_indented_text_concat(level, needs, a, b);
    if a.len() == 0 {
        assert(buf + first =~= buf);
        assert(buf + spec_indented_text(level, needs, a + b) =~= (buf + first)
            + spec_indented_text(level, spec_needs_indent(buf + first), b));
    } else {
        lemma_indented_text_last(level, needs, a);
        lemma_needs_after_last(needs, a);
        assert((buf + first).last() == first.last());
        assert((buf + first).len() > 0);
        assert(spec_needs_indent(buf + first) == spec_needs_after(needs, a));
        assert(buf + (first + spec_indented_text(level, spec_needs_after(needs, a), b)) =~= (buf
            + first) + spec_indented_text(level, spec_needs_indent(buf + first), b));
    }
}

/// A writer that owns the text built so far and indents every line it
/// starts by its indentation level.
pub struct IndentedWriter {
    /// The text built so far.
    pub inner: String,
    /// How many indentation units each new line receives.
    pub indent_level: usize,
}

impl IndentedWriter {
    /// Wraps a buffer at the initial indentation level of one unit.
    pub fn new(inner: String) -> (w: IndentedWriter)
        ensures
            w.inner == inner,
            w.indent_level == 1,
    {
        IndentedWriter { inner, indent_level: 1 }
    }

    /// The same buffer, one indentation level deeper.
    pub fn indented(self) -> (w: IndentedWriter)
        requires
            self.indent_level < usize::MAX,
        ensures
            w.inner == self.inner,
            w.indent_level == self.indent_level + 1,
    {
        IndentedWriter { inner: self.inner, indent_level: self.indent_level + 1 }
    }

    /// The same buffer, one indentation level shallower.
    pub fn outdented(self) -> (w: IndentedWriter)
        requires
            self.indent_level > 0,
        ensures
            w.inner == self.inner,
            w.indent_level == self.indent_level - 1,
    {
        IndentedWriter { inner: self.inner, indent_level: self.indent_level - 1 }
    }

    /// Takes the finished text back out of the writer.
    pub fn into_inner(self) -> (r: String)
        ensures
            r == self.inner,
    {
        self.inner
    }

    /// Appends `s`, indenting the start of every non-empty line.
    pub fn write_str(&mut self, s: &str)
        ensures
            final(self).indent_level == old(self).indent_level,
            final(self).inner@ == old(self).inner@ + spec_indented_text(
                old(self).indent_level as int,
                spec_needs_indent(old(self).inner@),
                s@,
            ),
    {
        let level = self.indent_level;
        let n = s.unicode_len();
        let buf_len = self.inner.as_str().unicode_len();
        let mut needs = if buf_len == 0 {
            true
        } else {
            self.inner.as_str().get_char(buf_len - 1) == '\n'
        };
        let ghost needs0 = spec_needs_indent(old(self).inner@);
        let mut i: usize = 0;
        proof {
            assert(s@.skip(0) =~= s@);
        }
        while i < n
            invariant
                n == s@.len(),
                0 <= i <= n,
                level == old(self).indent_level,
                level == self.indent_level,
                old(self).inner@ + spec_indented_text(level as int, needs0, s@) == self.inner@
                    + spec_indented_text(level as int, needs, s@.skip(i as int)),
            decreases n - i,
        {
            let c = s.get_char(i);
            proof {
                assert(s@.skip(i as int)[0] == s@[i as int]);
                assert(s@.skip(i as int).drop_first() =~= s@.skip(i + 1));
            }
            let ghost pre = self.inner@;
            if needs && c != '\n' {
                push_indent(&mut self.inner, level);
                crate::strutil::push_char(&mut self.inner, c);
                needs = false;
                proof {
                    assert(self.inner@ =~= pre + (spec_indent(level as int) + seq![c]
                        + Seq::<char>::empty()));
                    assert(pre + (spec_indent(level as int) + seq![c] + spec_indented_text(
                        level as int,
                        false,
                        s@.skip(i + 1),
                    )) =~= self.inner@ + spec_indented_text(level as int, false, s@.skip(i + 1)));
                }
            } else {
                crate::strutil::push_char(&mut self.inner, c);
                needs = c == '\n';
                proof {
                    assert(pre + (seq![c] + spec_indented_text(
                        level as int,
                        c == '\n',
                        s@.skip(i + 1),
                    )) =~= self.inner@ + spec_indented_text(level as int, c == '\n', s@.skip(i + 1)));
                }
            }
            i += 1;
        }
        proof {
            assert(s@.skip(n as int) =~= Seq::<char>::empty());
            assert(self.inner@ + Seq::<char>::empty() =~= self.inner@);
        }
    }
}

/// Appends the indentation for `level` levels to `buf`.
fn push_indent(buf: &mut String, level: usize)
    ensures
        final(buf)@ == old(buf)@ + spec_indent(level as int),
{
    let mut j: usize = 0;
    proof {
        reveal_strlit("  ");
        assert(old(buf)@ + spec_indent(0) =~= old(buf)@);
    }
    while j < level
        invariant
            j <= level,
            buf@ == old(buf)@ + spec_indent(j as int),
        decreases level - j,
    {
        buf.append("  ");
        proof {
            reveal_strlit("  ");
            assert(buf@ =~= old(buf)@ + spec_indent(j + 1));
        }
        j += 1;
    }
}

} // verus!
