//! Structured, indentable text accumulator used to build failure
//! explanations.
//!
//! A [`Description`] is an ordered sequence of text lines.  Appending
//! is order-preserving; nesting another description indents each of its
//! lines by a fixed unit of two spaces.  Rendering joins the lines with
//! newlines and is a pure function of the lines alone.

use vstd::prelude::*;
use vstd::string::StringExecFns;

verus! {

/// A line pushed one nesting level deeper: two spaces in front.
pub open spec fn indented(line: Seq<char>) -> Seq<char> {
    seq![' ', ' '] + line
}

/// The rendered text of a sequence of lines: the lines joined by a
/// single newline, with no trailing newline.
pub open spec fn join_lines(lines: Seq<Seq<char>>) -> Seq<char>
    decreases lines.len(),
{
    if lines.len() == 0 {
        Seq::empty()
    } else if lines.len() == 1 {
        lines[0]
    } else {
        lines[0] + seq!['\n'] + join_lines(lines.drop_first())
    }
}

/// Joining grows at the back one line at a time.
pub proof fn lemma_join_lines_push(lines: Seq<Seq<char>>, line: Seq<char>)
    ensures
        join_lines(lines.push(line)) == if lines.len() == 0 {
            line
        } else {
            (join_lines(lines) + seq!['\n'] + line)
        },
    decreases lines.len(),
{
    if lines.len() == 0 {
        assert(lines.push(line)[0] == line);
        assert(join_lines(lines.push(line)) == line);
    } else if lines.len() == 1 {
        let pushed = lines.push(line);
        assert(pushed.drop_first() =~= seq![line]);
        assert(join_lines(seq![line]) == line);
        assert(join_lines(pushed) == pushed[0] + seq!['\n'] + join_lines(pushed.drop_first()));
        assert(pushed[0] == lines[0]);
        assert(join_lines(lines) == lines[0]);
    } else {
        lemma_join_lines_push(lines.drop_first(), line);
        assert(lines.push(line).drop_first() =~= lines.drop_first().push(line));
    }
}

/// An ordered tree of text lines, kept in flattened form: nesting has
/// already applied its indentation to each line.
pub struct Description {
    lines: Vec<String>,
}

impl View for Description {
    type V = Seq<Seq<char>>;

    closed spec fn view(&self) -> Seq<Seq<char>> {
        self.lines@.map_values(|l: String| l@)
    }
}

impl Description {
    /// An empty description: no lines at all.
    pub fn new() -> (r: Description)
        ensures
            r@ == Seq::<Seq<char>>::empty(),
    {
        let r = Description { lines: Vec::new() };
        proof {
            assert(r@ =~= Seq::<Seq<char>>::empty());
        }
        r
    }

    /// Append one line of text at the current nesting level.
    pub fn text(self, line: &str) -> (r: Description)
        ensures
            r@ == self@.push(line@),
    {
        let mut lines = self.lines;
        lines.push(String::from_str(line));
        let r = Description { lines };
        proof {
            assert(r@ =~= self@.push(line@));
        }
        r
    }

    /// Append every line of `inner`, each one nesting level deeper.
    pub fn nested(self, inner: Description) -> (r: Description)
        ensures
            r@ == self@ + inner@.map_values(|l: Seq<char>| indented(l)),
    {
        let mut lines = self.lines;
        let ghost orig = self@;
        let mut i: usize = 0;
        while i < inner.lines.len()
            invariant
                i <= inner.lines.len(),
                lines@.map_values(|l: String| l@) =~= orig + inner@.subrange(0, i as int)
                    .map_values(|l: Seq<char>| indented(l)),
            decreases inner.lines.len() - i,
        {
            let ghost before = lines@.map_values(|l: String| l@);
            let mut line = String::from_str("  ");
            line.append(inner.lines[i].as_str());
            proof {
                reveal_strlit("  ");
                assert("  "@ =~= seq![' ', ' ']);
                assert(line@ == indented(inner@[i as int]));
            }
            lines.push(line);
            proof {
                assert(lines@.map_values(|l: String| l@) =~= before.push(indented(
                    inner@[i as int],
                )));
                assert(inner@.subrange(0, i + 1 as int) =~= inner@.subrange(0, i as int).push(
                    inner@[i as int],
                ));
                assert(inner@.subrange(0, i + 1 as int).map_values(|l: Seq<char>| indented(l))
                    =~= inner@.subrange(0, i as int).map_values(|l: Seq<char>| indented(l)).push(
                    indented(inner@[i as int]),
                ));
            }
            i = i + 1;
        }
        let r = Description { lines };
        proof {
            assert(inner@.subrange(0, inner@.len() as int) =~= inner@);
            assert(r@ =~= self@ + inner@.map_values(|l: Seq<char>| indented(l)));
        }
        r
    }

    /// Render the description: its lines joined by newlines.  The
    /// result is a pure function of the lines, so rendering is
    /// deterministic.
    pub fn render(&self) -> (r: String)
        ensures
            r@ == join_lines(self@),
    {
        let mut out = String::new();
        let mut i: usize = 0;
        while i < self.lines.len()
            invariant
                i <= self.lines.len(),
                out@ == join_lines(self@.subrange(0, i as int)),
            decreases self.lines.len() - i,
        {
            if i > 0 {
                out.append("\n");
            }
            out.append(self.lines[i].as_str());
            proof {
                reveal_strlit("\n");
                assert("\n"@ =~= seq!['\n']);
                assert(self@.subrange(0, i + 1 as int) =~= self@.subrange(0, i as int).push(
                    self@[i as int],
                ));
                lemma_join_lines_push(self@.subrange(0, i as int), self@[i as int]);
            }
            i = i + 1;
        }
        proof {
            assert(self@.subrange(0, self@.len() as int) =~= self@);
        }
        out
    }

    /// The number of lines held.
    pub fn len(&self) -> (r: usize)
        ensures
            r == self@.len(),
    {
        self.lines.len()
    }
}

/// Rendering is deterministic: two descriptions with equal lines render
/// to equal text.
pub proof fn rendering_deterministic(a: Description, b: Description)
    requires
        a@ == b@,
    ensures
        join_lines(a@) == join_lines(b@),
{
}

} // verus!
