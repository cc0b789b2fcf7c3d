//! The outline path builder.
//!
//! Each drawing command is written as its letter followed by its coordinates, each
//! preceded by a space, and a trailing space: `M 1 2 `, `L 3 4 `, `Z `. Once the
//! outline is complete, `finish` drops the separator left after the last command.
//! Coordinates arrive already rendered as text.

use vstd::prelude::*;
use crate::text::{push_str, string_pop, string_push};

verus! {

/// The coordinates of a command, each preceded by one space.
pub open spec fn spaced(coords: Seq<Seq<char>>) -> Seq<char>
    decreases coords.len(),
{
    if coords.len() == 0 {
        Seq::empty()
    } else {
        spaced(coords.drop_last()) + seq![' '] + coords.last()
    }
}

/// A command without its trailing separator: the letter, then the spaced coordinates.
pub open spec fn command_body(letter: char, coords: Seq<Seq<char>>) -> Seq<char> {
    seq![letter] + spaced(coords)
}

/// A command as the builder writes it: its body followed by one space.
pub open spec fn command_text(letter: char, coords: Seq<Seq<char>>) -> Seq<char> {
    command_body(letter, coords) + seq![' ']
}

/// The text of `buf` after `finish`: the last character removed, if there is one.
pub open spec fn finished(buf: Seq<char>) -> Seq<char> {
    if buf.len() > 0 {
        buf.drop_last()
    } else {
        buf
    }
}

/// What the builder holds after writing the commands `cmds` in order.
pub open spec fn written(cmds: Seq<(char, Seq<Seq<char>>)>) -> Seq<char>
    decreases cmds.len(),
{
    if cmds.len() == 0 {
        Seq::empty()
    } else {
        written(cmds.drop_last()) + command_text(cmds.last().0, cmds.last().1)
    }
}

/// The commands `cmds` separated by single spaces, with no space after the last.
pub open spec fn joined(cmds: Seq<(char, Seq<Seq<char>>)>) -> Seq<char>
    decreases cmds.len(),
{
    if cmds.len() == 0 {
        Seq::empty()
    } else if cmds.len() == 1 {
        command_body(cmds[0].0, cmds[0].1)
    } else {
        joined(cmds.drop_last()) + seq![' '] + command_body(cmds.last().0, cmds.last().1)
    }
}

/// Writes an outline as SVG path data.
pub struct Builder {
    /// The path data written so far.
    pub path: String,
}

impl Builder {
    /// A builder with no path data.
    pub fn new() -> (b: Builder)
        ensures
            b.path@ == Seq::<char>::empty(),
    {
        Builder { path: String::new() }
    }

    /// Writes `M x y `.
    pub fn move_to(&mut self, x: &str, y: &str)
        ensures
            final(self).path@ == old(self).path@ + command_text('M', seq![x@, y@]),
    {
        string_push(&mut self.path, 'M');
        string_push(&mut self.path, ' ');
        push_str(&mut self.path, x);
        string_push(&mut self.path, ' ');
        push_str(&mut self.path, y);
        string_push(&mut self.path, ' ');
        proof {
            reveal_with_fuel(spaced, 3);
            assert(seq![x@, y@].drop_last() =~= seq![x@]);
            assert(seq![x@].drop_last() =~= Seq::<Seq<char>>::empty());
            assert(final(self).path@ =~= old(self).path@ + command_text('M', seq![x@, y@]));
        }
    }

    /// Writes `L x y `.
    pub fn line_to(&mut self, x: &str, y: &str)
        ensures
            final(self).path@ == old(self).path@ + command_text('L', seq![x@, y@]),
    {
        string_push(&mut self.path, 'L');
        string_push(&mut self.path, ' ');
        push_str(&mut self.path, x);
        string_push(&mut self.path, ' ');
        push_str(&mut self.path, y);
        string_push(&mut self.path, ' ');
        proof {
            reveal_with_fuel(spaced, 3);
            assert(seq![x@, y@].drop_last() =~= seq![x@]);
            assert(seq![x@].drop_last() =~= Seq::<Seq<char>>::empty());
            assert(final(self).path@ =~= old(self).path@ + command_text('L', seq![x@, y@]));
        }
    }

    /// Writes `Q x1 y1 x y `.
    pub fn quad_to(&mut self, x1: &str, y1: &str, x: &str, y: &str)
        ensures
            final(self).path@ == old(self).path@ + command_text('Q', seq![x1@, y1@, x@, y@]),
    {
        string_push(&mut self.path, 'Q');
        string_push(&mut self.path, ' ');
        push_str(&mut self.path, x1);
        string_push(&mut self.path, ' ');
        push_str(&mut self.path, y1);
        string_push(&mut self.path, ' ');
        push_str(&mut self.path, x);
        string_push(&mut self.path, ' ');
        push_str(&mut self.path, y);
        string_push(&mut self.path, ' ');
        proof {
            reveal_with_fuel(spaced, 5);
            let c = seq![x1@, y1@, x@, y@];
            assert(c.drop_last() =~= seq![x1@, y1@, x@]);
            assert(c.drop_last().drop_last() =~= seq![x1@, y1@]);
            assert(c.drop_last().drop_last().drop_last() =~= seq![x1@]);
            assert(seq![x1@].drop_last() =~= Seq::<Seq<char>>::empty());
            assert(final(self).path@ =~= old(self).path@ + command_text('Q', c));
        }
    }

    /// Writes `C x1 y1 x2 y2 x y `.
    pub fn curve_to(&mut self, x1: &str, y1: &str, x2: &str, y2: &str, x: &str, y: &str)
        ensures
            final(self).path@ == old(self).path@ + command_text('C', seq![x1@, y1@, x2@, y2@, x@, y@]),
    {
        string_push(&mut self.path, 'C');
        string_push(&mut self.path, ' ');
        push_str(&mut self.path, x1);
        string_push(&mut self.path, ' ');
        push_str(&mut self.path, y1);
        string_push(&mut self.path, ' ');
        push_str(&mut self.path, x2);
        string_push(&mut self.path, ' ');
        push_str(&mut self.path, y2);
        string_push(&mut self.path, ' ');
        push_str(&mut self.path, x);
        string_push(&mut self.path, ' ');
        push_str(&mut self.path, y);
        string_push(&mut self.path, ' ');
        proof {
            reveal_with_fuel(spaced, 7);
            let c = seq![x1@, y1@, x2@, y2@, x@, y@];
            assert(c.drop_last() =~= seq![x1@, y1@, x2@, y2@, x@]);
            assert(c.drop_last().drop_last() =~= seq![x1@, y1@, x2@, y2@]);
            assert(c.drop_last().drop_last().drop_last() =~= seq![x1@, y1@, x2@]);
            assert(c.drop_last().drop_last().drop_last().drop_last() =~= seq![x1@, y1@]);
            assert(seq![x1@, y1@].drop_last() =~= seq![x1@]);
            assert(seq![x1@].drop_last() =~= Seq::<Seq<char>>::empty());
            assert(final(self).path@ =~= old(self).path@ + command_text('C', c));
        }
    }

    /// Writes `Z `.
    pub fn close(&mut self)
        ensures
            final(self).path@ == old(self).path@ + command_text('Z', Seq::empty()),
    {
        string_push(&mut self.path, 'Z');
        string_push(&mut self.path, ' ');
        proof {
            assert(final(self).path@ =~= old(self).path@ + command_text('Z', Seq::empty()));
        }
    }

    /// Removes the separator after the last command: drops the last character of a
    /// non-empty buffer and leaves an empty one as it is.
    pub fn finish(&mut self)
        ensures
            final(self).path@ == finished(old(self).path@),
    {
        if self.path.as_str().is_empty() {
            return;
        }
        let _ = string_pop(&mut self.path);
    }
}

proof fn lemma_written_ends_with_space(cmds: Seq<(char, Seq<Seq<char>>)>)
    requires
        cmds.len() > 0,
    ensures
        written(cmds).len() > 0,
        written(cmds).last() == ' ',
        written(cmds).drop_last() =~= written(cmds.drop_last()) + command_body(
            cmds.last().0,
            cmds.last().1,
        ),
{
    let body = command_body(cmds.last().0, cmds.last().1);
    assert(written(cmds) =~= (written(cmds.drop_last()) + body).push(' '));
}

/// Law: finishing a buffer written by a non-empty list of commands yields the commands
/// separated by single spaces, with no separator after the last one.
pub proof fn law_finish_joins_commands(cmds: Seq<(char, Seq<Seq<char>>)>)
    requires
        cmds.len() > 0,
    ensures
        finished(written(cmds)) == joined(cmds),
    decreases cmds.len(),
{
    lemma_written_ends_with_space(cmds);
    if cmds.len() == 1 {
        assert(cmds.drop_last() =~= Seq::<(char, Seq<Seq<char>>)>::empty());
        assert(written(cmds.drop_last()) =~= Seq::<char>::empty());
        assert(finished(written(cmds)) =~= command_body(cmds[0].0, cmds[0].1));
    } else {
        let prev = cmds.drop_last();
        law_finish_joins_commands(prev);
        lemma_written_ends_with_space(prev);
        assert(written(prev) =~= written(prev).drop_last().push(' '));
        assert(finished(written(cmds)) =~= joined(prev) + seq![' '] + command_body(
            cmds.last().0,
            cmds.last().1,
        ));
    }
}

} // verus!
