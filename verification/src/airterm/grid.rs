use vstd::prelude::*;
use crate::airterm::cell::{Cell, cell_of, blank_cell};

verus! {

/// Mathematical model of a terminal grid: its size, its cells in row-major
/// order and the cursor.
pub struct GridModel {
    pub rows: nat,
    pub cols: nat,
    pub cells: Seq<Cell>,
    pub cursor_row: nat,
    pub cursor_col: nat,
}

/// A grid model whose cells fill `rows * cols`. The cursor is not
/// constrained: its fields are public and may be set anywhere.
pub open spec fn model_wf(m: GridModel) -> bool {
    &&& m.rows > 0
    &&& m.cols > 0
    &&& m.cells.len() == m.rows * m.cols
    &&& m.rows * m.cols <= usize::MAX
}

/// The cursor lies on the grid.
pub open spec fn cursor_in_grid(m: GridModel) -> bool {
    m.cursor_row < m.rows && m.cursor_col < m.cols
}

/// Writing at the cursor stays inside the cells: a cursor on a row of the
/// grid points at a cell (a cursor below the last row makes writing a no-op).
pub open spec fn cursor_writable(m: GridModel) -> bool {
    m.cursor_row < m.rows ==> m.cursor_row * m.cols + m.cursor_col < m.rows * m.cols
}

/// The cell at `row`, `col` of a model.
pub open spec fn model_cell(m: GridModel, row: int, col: int) -> Cell {
    m.cells[row * m.cols + col]
}

/// `n` blank cells.
pub open spec fn blanks(n: nat) -> Seq<Cell> {
    Seq::new(n, |i: int| blank_cell())
}

/// The cells after moving every row up by one and blanking the bottom row.
pub open spec fn scrolled_cells(cells: Seq<Cell>, cols: nat) -> Seq<Cell> {
    cells.subrange(cols as int, cells.len() as int) + blanks(cols)
}

/// `scroll_up` on a model: the cursor stays where it is.
pub open spec fn scroll_up_model(m: GridModel) -> GridModel {
    GridModel { cells: scrolled_cells(m.cells, m.cols), ..m }
}

/// `write_char` on a model: the character lands under the cursor, the cursor
/// moves right, wraps to the next row at the end of a row, and scrolls the
/// grid when it wraps past the last row.
pub open spec fn write_char_model(m: GridModel, ch: char) -> GridModel {
    if m.cursor_row >= m.rows {
        m
    } else {
        let cells = m.cells.update((m.cursor_row * m.cols + m.cursor_col) as int, cell_of(ch));
        if m.cursor_col + 1 < m.cols {
            GridModel { cells, cursor_col: m.cursor_col + 1, ..m }
        } else if m.cursor_row + 1 < m.rows {
            GridModel { cells, cursor_row: m.cursor_row + 1, cursor_col: 0, ..m }
        } else {
            GridModel {
                cells: scrolled_cells(cells, m.cols),
                cursor_row: (m.rows - 1) as nat,
                cursor_col: 0,
                ..m
            }
        }
    }
}

/// `newline` on a model: the cursor goes to the start of the next row; on the
/// last row the grid scrolls instead.
pub open spec fn newline_model(m: GridModel) -> GridModel {
    if m.cursor_row + 1 < m.rows {
        GridModel { cursor_row: m.cursor_row + 1, cursor_col: 0, ..m }
    } else {
        GridModel { cells: scrolled_cells(m.cells, m.cols), cursor_col: 0, ..m }
    }
}

/// A blank model of the given size with the cursor at the given position.
pub open spec fn blank_model(rows: nat, cols: nat, cursor_row: nat, cursor_col: nat) -> GridModel {
    GridModel { rows, cols, cells: blanks(rows * cols), cursor_row, cursor_col }
}

/// 2D buffer of terminal cells with a cursor. Rows are numbered from 0 at the
/// top, columns from 0 at the left.
#[derive(Debug, Clone)]
pub struct TermGrid {
    rows: usize,
    cols: usize,
    cells: Vec<Cell>,
    pub cursor_row: usize,
    pub cursor_col: usize,
}

impl View for TermGrid {
    type V = GridModel;

    closed spec fn view(&self) -> GridModel {
        GridModel {
            rows: self.rows as nat,
            cols: self.cols as nat,
            cells: self.cells@,
            cursor_row: self.cursor_row as nat,
            cursor_col: self.cursor_col as nat,
        }
    }
}

proof fn lemma_index_in_bounds(row: int, col: int, rows: int, cols: int)
    requires
        0 <= row < rows,
        0 <= col < cols,
    ensures
        0 <= row * cols + col < rows * cols,
        row * cols + cols <= rows * cols,
{
    assert(row * cols + cols <= rows * cols) by (nonlinear_arith)
        requires
            0 <= row < rows,
            0 <= col < cols,
    ;
    assert(0 <= row * cols) by (nonlinear_arith)
        requires
            0 <= row,
            0 <= cols,
    ;
}

proof fn lemma_cols_le_len(rows: int, cols: int)
    requires
        rows > 0,
        cols > 0,
    ensures
        cols <= rows * cols,
        rows * cols - cols == (rows - 1) * cols,
{
    assert(cols <= rows * cols) by (nonlinear_arith)
        requires
            rows > 0,
            cols > 0,
    ;
    assert(rows * cols - cols == (rows - 1) * cols) by (nonlinear_arith);
}

proof fn lemma_row_start_in_bounds(rows: int, cols: int)
    requires
        rows > 0,
        cols > 0,
    ensures
        forall|r: int| 0 <= r < rows ==> #[trigger] (r * cols) < rows * cols,
        forall|r: int, c: int| 0 <= r < rows && 0 <= c < cols ==> #[trigger] (r * cols + c) < rows * cols,
        rows <= rows * cols,
{
    assert forall|r: int, c: int| 0 <= r < rows && 0 <= c < cols implies #[trigger] (r * cols + c) < rows * cols by {
        lemma_index_in_bounds(r, c, rows, cols);
    }
    assert forall|r: int| 0 <= r < rows implies #[trigger] (r * cols) < rows * cols by {
        lemma_index_in_bounds(r, 0, rows, cols);
    }
    assert(rows <= rows * cols) by (nonlinear_arith)
        requires
            rows > 0,
            cols > 0,
    ;
}

impl TermGrid {
    /// The grid is well formed: its model is.
    pub open spec fn wf(&self) -> bool {
        model_wf(self@)
    }

    /// A grid of `rows` x `cols` blank cells with the cursor at the top left.
    pub fn new(rows: usize, cols: usize) -> (g: Self)
        requires
            rows > 0,
            cols > 0,
            rows * cols <= usize::MAX,
        ensures
            g.wf(),
            g@ == blank_model(rows as nat, cols as nat, 0, 0),
    {
        let cells = Self::blank_cells(rows * cols);
        TermGrid { rows, cols, cells, cursor_row: 0, cursor_col: 0 }
    }

    fn blank_cells(n: usize) -> (v: Vec<Cell>)
        ensures
            v@ == blanks(n as nat),
    {
        let mut v: Vec<Cell> = Vec::with_capacity(n);
        let mut i: usize = 0;
        while i < n
            invariant
                i <= n,
                v@ == blanks(i as nat),
            decreases n - i,
        {
            v.push(Cell::blank());
            i = i + 1;
        }
        v
    }

    pub fn rows(&self) -> (r: usize)
        ensures
            r == self@.rows,
    {
        self.rows
    }

    pub fn cols(&self) -> (c: usize)
        ensures
            c == self@.cols,
    {
        self.cols
    }

    /// The cell at `row`, `col`, or `None` outside the grid.
    pub fn cell_at(&self, row: usize, col: usize) -> (r: Option<&Cell>)
        requires
            self.wf(),
        ensures
            row < self@.rows && col < self@.cols ==> r == Some(&model_cell(self@, row as int, col as int)),
            !(row < self@.rows && col < self@.cols) ==> r.is_none(),
    {
        if row < self.rows && col < self.cols {
            proof {
                lemma_index_in_bounds(row as int, col as int, self.rows as int, self.cols as int);
            }
            Some(&self.cells[row * self.cols + col])
        } else {
            None
        }
    }

    /// Writes `ch` under the cursor and moves the cursor right, wrapping at the
    /// end of a row and scrolling past the last row.
    pub fn write_char(&mut self, ch: char)
        requires
            old(self).wf(),
            cursor_writable(old(self)@),
        ensures
            final(self).wf(),
            final(self)@ == write_char_model(old(self)@, ch),
            cursor_writable(final(self)@),
            old(self)@.cursor_row < old(self)@.rows ==> cursor_in_grid(final(self)@),
            old(self)@.cursor_row < usize::MAX ==> final(self)@.cursor_row < usize::MAX,
    {
        if self.cursor_row >= self.rows {
            return;
        }
        proof {
            lemma_cols_le_len(self.rows as int, self.cols as int);
            lemma_row_start_in_bounds(self.rows as int, self.cols as int);
        }
        let idx = self.cursor_row * self.cols + self.cursor_col;
        self.cells.set(idx, Cell::new(ch));
        self.cursor_col = self.cursor_col + 1;
        if self.cursor_col >= self.cols {
            self.cursor_col = 0;
            self.cursor_row = self.cursor_row + 1;
            if self.cursor_row >= self.rows {
                self.scroll_up();
                self.cursor_row = self.rows - 1;
            }
        }
    }

    /// Moves the cursor to the start of the next row; on the last row the grid
    /// scrolls up instead.
    pub fn newline(&mut self)
        requires
            old(self).wf(),
            old(self)@.cursor_row < usize::MAX,
        ensures
            final(self).wf(),
            final(self)@ == newline_model(old(self)@),
            cursor_writable(final(self)@),
            final(self)@.cursor_row < usize::MAX,
    {
        proof {
            lemma_row_start_in_bounds(self.rows as int, self.cols as int);
        }
        self.cursor_col = 0;
        if self.cursor_row + 1 < self.rows {
            self.cursor_row = self.cursor_row + 1;
        } else {
            self.scroll_up();
        }
    }

    /// Moves every row up by one; the bottom row becomes blank. The cursor does
    /// not move.
    pub fn scroll_up(&mut self)
        requires
            old(self)@.rows > 0,
            old(self)@.cols > 0,
            old(self)@.cells.len() == old(self)@.rows * old(self)@.cols,
        ensures
            final(self)@ == scroll_up_model(old(self)@),
            final(self)@.cells.len() == old(self)@.cells.len(),
    {
        proof {
            lemma_cols_le_len(self.rows as int, self.cols as int);
        }
        let cols = self.cols;
        let len = self.cells.len();
        let ghost old_cells = self.cells@;
        let mut i: usize = 0;
        while i < len - cols
            invariant
                cols == self.cols,
                len == self.cells@.len(),
                len == old_cells.len(),
                cols <= len,
                i <= len - cols,
                forall|k: int| 0 <= k < i ==> self.cells@[k] == old_cells[k + cols],
                forall|k: int| i <= k < len ==> self.cells@[k] == old_cells[k],
                self.rows == old(self).rows,
                self.cursor_row == old(self).cursor_row,
                self.cursor_col == old(self).cursor_col,
            decreases len - cols - i,
        {
            let c = self.cells[i + cols];
            self.cells.set(i, c);
            i = i + 1;
        }
        let mut j: usize = len - cols;
        while j < len
            invariant
                cols == self.cols,
                len == self.cells@.len(),
                len == old_cells.len(),
                cols <= len,
                len - cols <= j <= len,
                forall|k: int| 0 <= k < len - cols ==> self.cells@[k] == old_cells[k + cols],
                forall|k: int| len - cols <= k < j ==> self.cells@[k] == blank_cell(),
                self.rows == old(self).rows,
                self.cursor_row == old(self).cursor_row,
                self.cursor_col == old(self).cursor_col,
            decreases len - j,
        {
            self.cells.set(j, Cell::blank());
            j = j + 1;
        }
        assert(self.cells@ =~= scrolled_cells(old_cells, cols as nat));
    }

    /// Blanks every cell and moves the cursor to the top left.
    pub fn clear(&mut self)
        requires
            old(self).wf(),
        ensures
            final(self).wf(),
            final(self)@ == blank_model(old(self)@.rows, old(self)@.cols, 0, 0),
    {
        let len = self.cells.len();
        let mut i: usize = 0;
        while i < len
            invariant
                len == self.cells@.len(),
                i <= len,
                forall|k: int| 0 <= k < i ==> self.cells@[k] == blank_cell(),
                self.rows == old(self).rows,
                self.cols == old(self).cols,
                len == self.rows * self.cols,
            decreases len - i,
        {
            self.cells.set(i, Cell::blank());
            i = i + 1;
        }
        self.cursor_row = 0;
        self.cursor_col = 0;
        assert(self.cells@ =~= blanks((self.rows * self.cols) as nat));
    }

    /// Changes the size of the grid. The content is lost (all blank); the
    /// cursor is clamped into the new grid.
    pub fn resize(&mut self, rows: usize, cols: usize)
        requires
            old(self).wf(),
            rows > 0,
            cols > 0,
            rows * cols <= usize::MAX,
        ensures
            final(self).wf(),
            final(self)@ == blank_model(
                rows as nat,
                cols as nat,
                if old(self)@.cursor_row < rows { old(self)@.cursor_row } else { (rows - 1) as nat },
                if old(self)@.cursor_col < cols { old(self)@.cursor_col } else { (cols - 1) as nat },
            ),
    {
        self.rows = rows;
        self.cols = cols;
        self.cells = Self::blank_cells(rows * cols);
        if self.cursor_row > rows - 1 {
            self.cursor_row = rows - 1;
        }
        if self.cursor_col > cols - 1 {
            self.cursor_col = cols - 1;
        }
    }
}

/// Scrolling moves every row up by one: the cell at (`row`, `col`) afterwards
/// is the cell that was one row below, and the bottom row is blank.
pub proof fn lemma_scroll_up_moves_rows(m: GridModel, row: int, col: int)
    requires
        model_wf(m),
        0 <= row < m.rows,
        0 <= col < m.cols,
    ensures
        row + 1 < m.rows ==> model_cell(scroll_up_model(m), row, col) == model_cell(m, row + 1, col),
        row + 1 == m.rows ==> model_cell(scroll_up_model(m), row, col) == blank_cell(),
        model_wf(scroll_up_model(m)),
{
    lemma_index_in_bounds(row, col, m.rows as int, m.cols as int);
    lemma_cols_le_len(m.rows as int, m.cols as int);
    let c = m.cols as int;
    assert((row + 1) * c == row * c + c) by (nonlinear_arith);
    if row + 1 == m.rows {
        assert(row * c == m.rows * c - c) by (nonlinear_arith)
            requires
                row + 1 == m.rows,
        ;
    } else {
        lemma_index_in_bounds(row + 1, col, m.rows as int, m.cols as int);
    }
}

/// Writing a character stores it under the old cursor, unless the write
/// wrapped past the last row and scrolled it one row up.
pub proof fn lemma_write_char_stores(m: GridModel, ch: char)
    requires
        model_wf(m),
        cursor_in_grid(m),
    ensures
        model_wf(write_char_model(m, ch)),
        m.cursor_col + 1 < m.cols || m.cursor_row + 1 < m.rows ==> model_cell(
            write_char_model(m, ch),
            m.cursor_row as int,
            m.cursor_col as int,
        ) == cell_of(ch),
        !(m.cursor_col + 1 < m.cols || m.cursor_row + 1 < m.rows) ==> model_cell(
            write_char_model(m, ch),
            m.cursor_row - 1,
            m.cursor_col as int,
        ) == cell_of(ch) || m.rows == 1,
{
    lemma_index_in_bounds(m.cursor_row as int, m.cursor_col as int, m.rows as int, m.cols as int);
    lemma_cols_le_len(m.rows as int, m.cols as int);
    if !(m.cursor_col + 1 < m.cols || m.cursor_row + 1 < m.rows) && m.rows > 1 {
        let c = m.cols as int;
        let r = m.cursor_row as int;
        assert((r - 1) * c + c == r * c) by (nonlinear_arith);
        lemma_index_in_bounds(r - 1, m.cursor_col as int, m.rows as int, m.cols as int);
    }
}

} // verus!
