use vstd::prelude::*;
use crate::airterm::grid::{TermGrid, GridModel, cursor_writable, write_char_model, newline_model, blank_model};

verus! {

/// Identifier of a terminal pane.
#[derive(Debug, Clone, Copy, PartialEq, Eq, Hash, Structural)]
pub struct PaneId(pub u64);

/// One step of writing text into a grid: a line feed starts a new line, any
/// other character is written under the cursor.
pub open spec fn write_step_model(m: GridModel, ch: char) -> GridModel {
    if ch == '\n' {
        newline_model(m)
    } else {
        write_char_model(m, ch)
    }
}

/// Writing a whole sequence of characters, one step after the other.
pub open spec fn write_str_model(m: GridModel, s: Seq<char>) -> GridModel
    decreases s.len(),
{
    if s.len() == 0 {
        m
    } else {
        write_step_model(write_str_model(m, s.drop_last()), s.last())
    }
}

/// One terminal pane: a grid with an identifier and a title.
#[derive(Debug)]
pub struct Pane {
    pub id: PaneId,
    pub grid: TermGrid,
    pub title: String,
}

impl Pane {
    /// A pane with a blank `rows` x `cols` grid and an empty title.
    pub fn new(id: PaneId, rows: usize, cols: usize) -> (p: Self)
        requires
            rows > 0,
            cols > 0,
            rows * cols <= usize::MAX,
        ensures
            p.id == id,
            p.grid.wf(),
            p.grid@ == blank_model(rows as nat, cols as nat, 0, 0),
            p.title@ == Seq::<char>::empty(),
    {
        Pane { id, grid: TermGrid::new(rows, cols), title: String::new() }
    }

    pub fn set_title(&mut self, title: &str)
        ensures
            final(self).title@ == title@,
            final(self).id == old(self).id,
            final(self).grid == old(self).grid,
    {
        self.title = title.to_owned();
    }

    /// Writes the string into the grid character by character; a line feed
    /// moves to the next line.
    pub fn write_str(&mut self, s: &str)
        requires
            old(self).grid.wf(),
            cursor_writable(old(self).grid@),
            old(self).grid@.cursor_row < usize::MAX,
        ensures
            final(self).grid.wf(),
            final(self).grid@ == write_str_model(old(self).grid@, s@),
            final(self).id == old(self).id,
            final(self).title == old(self).title,
    {
        let ghost start = self.grid@;
        let ghost text = s@;
        proof {
            assert(text.take(0) =~= Seq::<char>::empty());
        }
        for ch in it: s.chars()
            invariant
                self.grid.wf(),
                cursor_writable(self.grid@),
                self.grid@.cursor_row < usize::MAX,
                self.id == old(self).id,
                self.title == old(self).title,
                start == old(self).grid@,
                it.seq() == text,
                self.grid@ == write_str_model(start, text.take(it.index() as int)),
        {
            proof {
                assert(text.take(it.index() as int + 1).drop_last() =~= text.take(it.index() as int));
            }
            if ch == '\n' {
                self.grid.newline();
            } else {
                self.grid.write_char(ch);
            }
        }
        proof {
            assert(text.take(text.len() as int) =~= text);
        }
    }

    pub fn resize(&mut self, rows: usize, cols: usize)
        requires
            old(self).grid.wf(),
            rows > 0,
            cols > 0,
            rows * cols <= usize::MAX,
        ensures
            final(self).grid.wf(),
            final(self).grid@ == blank_model(
                rows as nat,
                cols as nat,
                if old(self).grid@.cursor_row < rows { old(self).grid@.cursor_row } else { (rows - 1) as nat },
                if old(self).grid@.cursor_col < cols { old(self).grid@.cursor_col } else { (cols - 1) as nat },
            ),
            final(self).id == old(self).id,
            final(self).title == old(self).title,
    {
        self.grid.resize(rows, cols);
    }

    pub fn clear(&mut self)
        requires
            old(self).grid.wf(),
        ensures
            final(self).grid.wf(),
            final(self).grid@ == blank_model(old(self).grid@.rows, old(self).grid@.cols, 0, 0),
            final(self).id == old(self).id,
            final(self).title == old(self).title,
    {
        self.grid.clear();
    }
}

} // verus!
