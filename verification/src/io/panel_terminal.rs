//! The small console grid the front-panel window shows beside the panel:
//! 24 rows of 80 characters, written by the bytes the console sends.
use vstd::prelude::*;

verus! {

/// Columns of the grid.
pub const TERM_COLS: usize = 80;

/// Rows of the grid.
pub const TERM_ROWS: usize = 24;

/// The grid: its cells row by row, and the cursor.
pub struct PanelTerminal {
    cells: Vec<u8>,
    col: usize,
    row: usize,
}

/// The grid as plain values: cells row by row, cursor column and row.
pub struct PanelTermView {
    pub cells: Seq<u8>,
    pub col: int,
    pub row: int,
}

impl View for PanelTerminal {
    type V = PanelTermView;

    closed spec fn view(&self) -> PanelTermView {
        PanelTermView { cells: self.cells@, col: self.col as int, row: self.row as int }
    }
}

/// The grid is full size and the cursor on it.
pub open spec fn term_view_wf(t: PanelTermView) -> bool {
    &&& t.cells.len() == TERM_COLS * TERM_ROWS
    &&& 0 <= t.col < TERM_COLS
    &&& 0 <= t.row < TERM_ROWS
}

/// The next row, staying on the last one at the bottom (no scrolling).
pub open spec fn next_row(row: int) -> int {
    if row + 1 >= TERM_ROWS { TERM_ROWS - 1 } else { row + 1 }
}

/// One byte sent to the grid: CR and LF go to the start of the next row,
/// backspace moves left (not past the first column), a printable byte is
/// written at the cursor and the cursor moves right (wrapping to the next
/// row), and any other byte is ignored.
pub open spec fn term_put(t: PanelTermView, b: u8) -> PanelTermView {
    if b == 0x0D || b == 0x0A {
        PanelTermView { col: 0, row: next_row(t.row), ..t }
    } else if b == 0x08 {
        PanelTermView { col: if t.col > 0 { t.col - 1 } else { t.col }, ..t }
    } else if 0x20 <= b <= 0x7E {
        let cells = t.cells.update(t.row * TERM_COLS + t.col, b);
        if t.col + 1 >= TERM_COLS {
            PanelTermView { cells, col: 0, row: next_row(t.row) }
        } else {
            PanelTermView { cells, col: t.col + 1, ..t }
        }
    } else {
        t
    }
}

/// The bytes `bs` sent to the grid in order.
pub open spec fn term_put_all(t: PanelTermView, bs: Seq<u8>) -> PanelTermView
    decreases bs.len(),
{
    if bs.len() == 0 {
        t
    } else {
        term_put(term_put_all(t, bs.drop_last()), bs.last())
    }
}

/// A blank grid with the cursor home.
pub open spec fn blank_term() -> PanelTermView {
    PanelTermView { cells: Seq::new((TERM_COLS * TERM_ROWS) as nat, |i: int| 0x20u8), col: 0, row: 0 }
}

impl PanelTerminal {
    /// The grid is full size and the cursor on it.
    pub open spec fn wf(&self) -> bool {
        term_view_wf(self@)
    }

    /// A blank grid (all spaces) with the cursor at the top left.
    pub fn new() -> (r: Self)
        ensures
            r.wf(),
            r@ == blank_term(),
    {
        let mut cells: Vec<u8> = Vec::new();
        while cells.len() < TERM_COLS * TERM_ROWS
            invariant
                cells.len() <= TERM_COLS * TERM_ROWS,
                forall|i: int| 0 <= i < cells.len() ==> cells@[i] == 0x20u8,
            decreases TERM_COLS * TERM_ROWS - cells.len(),
        {
            cells.push(0x20);
        }
        let r = Self { cells, col: 0, row: 0 };
        assert(r@.cells =~= blank_term().cells);
        r
    }

    /// Blank the grid and send the cursor home.
    pub fn clear(&mut self)
        ensures
            final(self).wf(),
            final(self)@ == blank_term(),
    {
        *self = Self::new();
    }

    /// Send one byte to the grid.
    pub fn put(&mut self, b: u8)
        requires
            old(self).wf(),
        ensures
            final(self).wf(),
            final(self)@ == term_put(old(self)@, b),
    {
        if b == 0x0D || b == 0x0A {
            self.col = 0;
            if self.row + 1 < TERM_ROWS {
                self.row = self.row + 1;
            }
        } else if b == 0x08 {
            if self.col > 0 {
                self.col = self.col - 1;
            }
        } else if 0x20 <= b && b <= 0x7E {
            let i = self.row * TERM_COLS + self.col;
            self.cells.set(i, b);
            if self.col + 1 >= TERM_COLS {
                self.col = 0;
                if self.row + 1 < TERM_ROWS {
                    self.row = self.row + 1;
                }
            } else {
                self.col = self.col + 1;
            }
        }
    }

    /// Send the bytes `bs` to the grid in order.
    pub fn put_all(&mut self, bs: &[u8])
        requires
            old(self).wf(),
        ensures
            final(self).wf(),
            final(self)@ == term_put_all(old(self)@, bs@),
    {
        let mut k: usize = 0;
        while k < bs.len()
            invariant
                k <= bs@.len(),
                self.wf(),
                self@ == term_put_all(old(self)@, bs@.subrange(0, k as int)),
            decreases bs@.len() - k,
        {
            self.put(bs[k]);
            assert(bs@.subrange(0, k + 1).drop_last() =~= bs@.subrange(0, k as int));
            k = k + 1;
        }
        assert(bs@.subrange(0, bs@.len() as int) =~= bs@);
    }

    /// The byte in cell (`row`, `col`).
    pub fn cell(&self, row: usize, col: usize) -> (r: u8)
        requires
            self.wf(),
            row < TERM_ROWS,
            col < TERM_COLS,
        ensures
            r == self@.cells[row * TERM_COLS + col],
    {
        self.cells[row * TERM_COLS + col]
    }

    /// The cursor as (column, row).
    pub fn cursor(&self) -> (r: (usize, usize))
        ensures
            r.0 == self@.col && r.1 == self@.row,
    {
        (self.col, self.row)
    }
}

} // verus!
