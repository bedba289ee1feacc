//! The screen of the terminal window: a grid of cells driven by the actions
//! of a VT parser.
//!
//! [`ScreenState`] is the mathematical state of a screen. Each parser action
//! is a spec function on that state, and the method of [`Screen`] with the
//! same purpose computes exactly that.

use vstd::prelude::*;

use crate::terminal;
use crate::terminal::{apply_sgr, Cell, Pen};

verus! {

/// A row of erased cells.
pub open spec fn blank_row(cols: nat) -> Seq<Cell> {
    Seq::new(cols, |c: int| terminal::blank_cell())
}

/// The state of a screen.
#[verifier::ext_equal]
pub struct ScreenState {
    pub cols: nat,
    pub rows: nat,
    pub grid: Seq<Seq<Cell>>,
    pub col: nat,
    pub row: nat,
    pub pen: Pen,
    pub saved: (nat, nat, bool),
    pub pending_wrap: bool,
}

/// The last index of `n` positions, or 0 where there is none.
pub open spec fn last_index(n: nat) -> nat {
    if n == 0 { 0 } else { (n - 1) as nat }
}

/// The smaller of two numbers.
pub open spec fn least(a: nat, b: nat) -> nat {
    if a <= b { a } else { b }
}

/// `a - b`, or 0 where that is negative.
pub open spec fn monus(a: nat, b: nat) -> nat {
    if a <= b { 0 } else { (a - b) as nat }
}

impl ScreenState {
    /// A screen is rectangular and its cursor lies inside it.
    pub open spec fn wf(self) -> bool {
        &&& self.grid.len() == self.rows
        &&& forall|r: int| 0 <= r < self.rows ==> (#[trigger] self.grid[r]).len() == self.cols
        &&& self.row <= last_index(self.rows)
        &&& self.col <= last_index(self.cols)
    }

    /// A blank screen with the cursor at the top left.
    pub open spec fn fresh(cols: nat, rows: nat) -> ScreenState {
        ScreenState {
            cols,
            rows,
            grid: Seq::new(rows, |r: int| blank_row(cols)),
            col: 0,
            row: 0,
            pen: terminal::plain_pen(),
            saved: (0, 0, false),
            pending_wrap: false,
        }
    }

    /// The screen cut or padded with blanks to a new size; the cursor moves
    /// inside it.
    pub open spec fn resized(self, cols: nat, rows: nat) -> ScreenState {
        ScreenState {
            cols,
            rows,
            grid: Seq::new(
                rows,
                |r: int|
                    Seq::new(
                        cols,
                        |c: int|
                            if r < self.rows && c < self.cols {
                                self.grid[r][c]
                            } else {
                                terminal::blank_cell()
                            },
                    ),
            ),
            col: least(self.col, last_index(cols)),
            row: least(self.row, last_index(rows)),
            pending_wrap: false,
            ..self
        }
    }

    /// Rows `from..to` erased.
    pub open spec fn rows_erased(self, from: int, to: int) -> ScreenState {
        ScreenState {
            grid: Seq::new(
                self.grid.len(),
                |r: int|
                    if from <= r < to {
                        blank_row(self.cols)
                    } else {
                        self.grid[r]
                    },
            ),
            ..self
        }
    }

    /// Columns `from..to` of the cursor's row erased.
    pub open spec fn columns_erased(self, from: int, to: int) -> ScreenState {
        if self.row < self.rows {
            ScreenState {
                grid: self.grid.update(
                    self.row as int,
                    Seq::new(
                        self.cols,
                        |c: int|
                            if from <= c < to {
                                terminal::blank_cell()
                            } else {
                                self.grid[self.row as int][c]
                            },
                    ),
                ),
                ..self
            }
        } else {
            self
        }
    }

    /// Row `at` and those below it moved up by `n`, blanks coming in at the
    /// bottom.
    pub open spec fn lines_deleted(self, at: nat, n: nat) -> ScreenState {
        ScreenState {
            grid: Seq::new(
                self.grid.len(),
                |r: int|
                    if r < at {
                        self.grid[r]
                    } else if r + n < self.grid.len() {
                        self.grid[r + n]
                    } else {
                        blank_row(self.cols)
                    },
            ),
            ..self
        }
    }

    /// Row `at` and those below it moved down by `n`, blanks coming in at
    /// row `at`.
    pub open spec fn lines_inserted(self, at: nat, n: nat) -> ScreenState {
        ScreenState {
            grid: Seq::new(
                self.grid.len(),
                |r: int|
                    if r < at {
                        self.grid[r]
                    } else if r < at + n {
                        blank_row(self.cols)
                    } else {
                        self.grid[r - n]
                    },
            ),
            ..self
        }
    }

    /// The cursor one row down; at the bottom the screen scrolls instead.
    pub open spec fn line_fed(self) -> ScreenState {
        if self.row + 1 >= self.rows {
            ScreenState { row: last_index(self.rows), ..self.lines_deleted(0, 1) }
        } else {
            ScreenState { row: self.row + 1, ..self }
        }
    }

    /// A character written under the cursor.
    pub open spec fn cell_set(self, ch: char) -> ScreenState {
        if self.row < self.rows && self.col < self.cols {
            ScreenState {
                grid: self.grid.update(
                    self.row as int,
                    self.grid[self.row as int].update(self.col as int, terminal::inked(self.pen, ch)),
                ),
                ..self
            }
        } else {
            self
        }
    }

    /// A printable character: a wrap that was put off comes first; then the
    /// character is written, and the cursor advances or, in the last column,
    /// puts the wrap off.
    pub open spec fn printed(self, ch: char) -> ScreenState {
        let start = if self.pending_wrap {
            ScreenState { pending_wrap: false, col: 0, ..self }.line_fed()
        } else {
            self
        };
        let done = start.cell_set(ch);
        if done.col + 1 >= done.cols {
            ScreenState { pending_wrap: true, ..done }
        } else {
            ScreenState { col: done.col + 1, ..done }
        }
    }

    /// A control character: carriage return, line feed or backspace.
    pub open spec fn executed(self, byte: u8) -> ScreenState {
        if byte == 0x0d {
            ScreenState { col: 0, pending_wrap: false, ..self }
        } else if byte == 0x0a {
            ScreenState { pending_wrap: false, ..self }.line_fed()
        } else if byte == 0x08 {
            ScreenState { col: monus(self.col, 1), pending_wrap: false, ..self }
        } else {
            self
        }
    }

    /// The cursor remembered.
    pub open spec fn cursor_saved(self) -> ScreenState {
        ScreenState { saved: (self.col, self.row, self.pending_wrap), ..self }
    }

    /// The remembered cursor put back, inside the screen.
    pub open spec fn cursor_restored(self) -> ScreenState {
        ScreenState {
            col: least(self.saved.0, last_index(self.cols)),
            row: least(self.saved.1, last_index(self.rows)),
            pending_wrap: self.saved.2,
            ..self
        }
    }

    /// A CSI sequence. A count that is absent or 0 counts as 1, except for
    /// the erasures.
    pub open spec fn csi(self, params: Seq<u16>, intermediates: Seq<u8>, action: char) -> ScreenState {
        let p1: nat = if params.len() > 0 { params[0] as nat } else { 0 };
        let p2: nat = if params.len() > 1 { params[1] as nat } else { 0 };
        let n: nat = if p1 == 0 { 1 } else { p1 };
        if action == 'A' {
            ScreenState { row: monus(self.row, n), pending_wrap: false, ..self }
        } else if action == 'B' {
            ScreenState {
                row: least(self.row + n, last_index(self.rows)),
                pending_wrap: false,
                ..self
            }
        } else if action == 'C' {
            ScreenState {
                col: least(self.col + n, last_index(self.cols)),
                pending_wrap: false,
                ..self
            }
        } else if action == 'D' {
            ScreenState { col: monus(self.col, n), pending_wrap: false, ..self }
        } else if action == 'H' || action == 'f' {
            ScreenState {
                row: least(monus(p1, 1), last_index(self.rows)),
                col: least(monus(p2, 1), last_index(self.cols)),
                pending_wrap: false,
                ..self
            }
        } else if action == 'J' {
            if p1 == 0 {
                self.columns_erased(self.col as int, self.cols as int).rows_erased(
                    self.row as int + 1,
                    self.rows as int,
                )
            } else if p1 == 1 {
                self.rows_erased(0, self.row as int)
            } else if p1 == 2 || p1 == 3 {
                self.rows_erased(0, self.rows as int)
            } else {
                self
            }
        } else if action == 'K' {
            if p1 == 0 {
                self.columns_erased(self.col as int, self.cols as int)
            } else if p1 == 1 {
                self.columns_erased(0, self.col as int + 1)
            } else if p1 == 2 {
                self.rows_erased(self.row as int, self.row as int + 1)
            } else {
                self
            }
        } else if action == 'L' {
            self.lines_inserted(self.row, n)
        } else if action == 'M' {
            self.lines_deleted(self.row, n)
        } else if action == 'S' {
            self.lines_deleted(0, n)
        } else if action == 'm' {
            ScreenState { pen: terminal::sgr(self.pen, params), ..self }
        } else if action == 's' && intermediates.len() == 0 {
            self.cursor_saved()
        } else if action == 'u' && intermediates.len() == 0 {
            self.cursor_restored()
        } else {
            self
        }
    }

    /// An escape sequence: save and restore the cursor, or move it up one
    /// row, scrolling down at the top.
    pub open spec fn escaped(self, byte: u8) -> ScreenState {
        if byte == 0x37 {
            self.cursor_saved()
        } else if byte == 0x38 {
            self.cursor_restored()
        } else if byte == 0x4d {
            if self.row == 0 {
                self.lines_inserted(0, 1)
            } else {
                ScreenState { row: (self.row - 1) as nat, ..self }
            }
        } else {
            self
        }
    }
}

/// The parsed screen grid, updated by the VT state machine.
#[derive(Debug)]
pub struct Screen {
    cols: usize,
    rows: usize,
    cells: Vec<Vec<Cell>>,
    cursor_col: usize,
    cursor_row: usize,
    pen: Pen,
    /// Saved cursor for ESC 7 / ESC 8: column, row, pending wrap.
    saved_cursor: (usize, usize, bool),
    /// Deferred auto-wrap: set when the last printed character landed on the
    /// final column. The wrap itself waits for the next printable character,
    /// so that escape sequences after a full row still see the cursor on it.
    pending_wrap: bool,
}

impl View for Screen {
    type V = ScreenState;

    closed spec fn view(&self) -> ScreenState {
        ScreenState {
            cols: self.cols as nat,
            rows: self.rows as nat,
            grid: grid_of(self.cells@),
            col: self.cursor_col as nat,
            row: self.cursor_row as nat,
            pen: self.pen,
            saved: (
                self.saved_cursor.0 as nat,
                self.saved_cursor.1 as nat,
                self.saved_cursor.2,
            ),
            pending_wrap: self.pending_wrap,
        }
    }
}

spec fn grid_of(cells: Seq<Vec<Cell>>) -> Seq<Seq<Cell>> {
    Seq::new(cells.len(), |r: int| cells[r]@)
}

fn new_blank_row(cols: usize) -> (row: Vec<Cell>)
    ensures
        row@ == blank_row(cols as nat),
{
    let mut row: Vec<Cell> = Vec::new();
    for c in 0..cols
        invariant
            row@ =~= blank_row(c as nat),
    {
        row.push(Cell::default());
    }
    row
}

fn min_usize(a: usize, b: usize) -> (m: usize)
    ensures
        m as nat == least(a as nat, b as nat),
{
    if a <= b { a } else { b }
}

impl Screen {
    /// A blank screen of the given size.
    pub fn new(cols: usize, rows: usize) -> (screen: Self)
        ensures
            screen@ == ScreenState::fresh(cols as nat, rows as nat),
            screen@.wf(),
    {
        let mut cells: Vec<Vec<Cell>> = Vec::new();
        for r in 0..rows
            invariant
                cells@.len() == r,
                forall|k: int| 0 <= k < r ==> (#[trigger] cells@[k])@ == blank_row(cols as nat),
        {
            cells.push(new_blank_row(cols));
        }
        let screen = Screen {
            cols,
            rows,
            cells,
            cursor_col: 0,
            cursor_row: 0,
            pen: Pen::default(),
            saved_cursor: (0, 0, false),
            pending_wrap: false,
        };
        assert(screen@.grid =~= ScreenState::fresh(cols as nat, rows as nat).grid);
        screen
    }

    /// The cells, row by row.
    pub fn cells(&self) -> (cells: &Vec<Vec<Cell>>)
        ensures
            cells@.len() == self@.grid.len(),
            forall|r: int| 0 <= r < cells@.len() ==> (#[trigger] cells@[r])@ == self@.grid[r],
    {
        &self.cells
    }

    /// The column and row of the cursor.
    pub fn cursor(&self) -> (at: (usize, usize))
        ensures
            at.0 == self@.col,
            at.1 == self@.row,
    {
        (self.cursor_col, self.cursor_row)
    }

    fn blank_cells(row: &mut Vec<Cell>, from: usize, to: usize)
        requires
            to <= old(row)@.len(),
        ensures
            final(row)@ == Seq::new(
                old(row)@.len(),
                |c: int| if from <= c < to { terminal::blank_cell() } else { old(row)@[c] },
            ),
    {
        let ghost before = row@;
        if from < to {
            for c in from..to
                invariant
                    from <= c <= to <= row@.len(),
                    row@ =~= Seq::new(
                        before.len(),
                        |k: int| if from <= k < c { terminal::blank_cell() } else { before[k] },
                    ),
            {
                row.set(c, Cell::default());
            }
        }
        assert(row@ =~= Seq::new(
            before.len(),
            |c: int| if from <= c < to { terminal::blank_cell() } else { before[c] },
        ));
    }

    /// Adapts the screen to a new size.
    pub fn resize(&mut self, cols: usize, rows: usize)
        requires
            old(self)@.wf(),
        ensures
            final(self)@ == old(self)@.resized(cols as nat, rows as nat),
            final(self)@.wf(),
    {
        let ghost before = self@;
        let mut cells: Vec<Vec<Cell>> = Vec::new();
        for r in 0..rows
            invariant
                self@ == before,
                before.wf(),
                cells@.len() == r,
                forall|k: int|
                    0 <= k < r ==> (#[trigger] cells@[k])@ == before.resized(
                        cols as nat,
                        rows as nat,
                    ).grid[k],
        {
            let mut row: Vec<Cell> = Vec::new();
            for c in 0..cols
                invariant
                    self@ == before,
                    before.wf(),
                    r < rows,
                    row@ =~= before.resized(cols as nat, rows as nat).grid[r as int].take(c as int),
            {
                let cell = if r < self.rows && c < self.cols {
                    assert(before.grid[r as int] == self.cells@[r as int]@);
                    self.cells[r][c]
                } else {
                    Cell::default()
                };
                row.push(cell);
            }
            cells.push(row);
        }
        self.cells = cells;
        self.cols = cols;
        self.rows = rows;
        self.cursor_col = min_usize(self.cursor_col, cols.saturating_sub(1));
        self.cursor_row = min_usize(self.cursor_row, rows.saturating_sub(1));
        self.pending_wrap = false;
        assert(self@.grid =~= before.resized(cols as nat, rows as nat).grid);
    }

    fn delete_lines(&mut self, at: usize, n: usize)
        requires
            old(self)@.wf(),
        ensures
            final(self)@ == old(self)@.lines_deleted(at as nat, n as nat),
            final(self)@.wf(),
    {
        let ghost before = self@;
        assert(self@.grid =~= before.lines_deleted(at as nat, 0).grid);
        for i in 0..n
            invariant
                before.wf(),
                self@ == before.lines_deleted(at as nat, i as nat),
        {
            assert(self.cells@.len() == self@.grid.len());
            assert(forall|k: int|
                0 <= k < self.cells@.len() ==> (#[trigger] self.cells@[k])@ == self@.grid[k]);
            if at < self.cells.len() {
                self.cells.remove(at);
                self.cells.push(new_blank_row(self.cols));
            }
            assert(self@.grid =~= before.lines_deleted(at as nat, i as nat + 1).grid);
        }
    }

    fn insert_lines(&mut self, at: usize, n: usize)
        requires
            old(self)@.wf(),
        ensures
            final(self)@ == old(self)@.lines_inserted(at as nat, n as nat),
            final(self)@.wf(),
    {
        let ghost before = self@;
        assert(self@.grid =~= before.lines_inserted(at as nat, 0).grid);
        for i in 0..n
            invariant
                before.wf(),
                self@ == before.lines_inserted(at as nat, i as nat),
        {
            assert(self.cells@.len() == self@.grid.len());
            assert(forall|k: int|
                0 <= k < self.cells@.len() ==> (#[trigger] self.cells@[k])@ == self@.grid[k]);
            if at < self.rows {
                let _ = self.cells.pop();
                self.cells.insert(at, new_blank_row(self.cols));
            }
            assert(self@.grid =~= before.lines_inserted(at as nat, i as nat + 1).grid);
        }
    }

    /// Scrolls up: the top line goes, a blank one comes in at the bottom.
    pub fn scroll_up(&mut self)
        requires
            old(self)@.wf(),
        ensures
            final(self)@ == old(self)@.lines_deleted(0, 1),
            final(self)@.wf(),
    {
        self.delete_lines(0, 1);
    }

    fn line_feed(&mut self)
        requires
            old(self)@.wf(),
            old(self)@.rows > 0,
        ensures
            final(self)@ == old(self)@.line_fed(),
            final(self)@.wf(),
    {
        if self.cursor_row + 1 >= self.rows {
            self.scroll_up();
            self.cursor_row = self.rows - 1;
        } else {
            self.cursor_row = self.cursor_row + 1;
        }
    }

    fn set_cell(&mut self, ch: char)
        requires
            old(self)@.wf(),
        ensures
            final(self)@ == old(self)@.cell_set(ch),
            final(self)@.wf(),
    {
        let ghost before = self@;
        let row: usize = self.cursor_row;
        let col: usize = self.cursor_col;
        if row < self.rows && col < self.cols {
            assert(before.grid[row as int] == self.cells@[row as int]@);
            let cell = Cell {
                ch,
                fg: self.pen.fg(),
                bg: self.pen.bg(),
                bold: self.pen.bold,
                underline: self.pen.underline,
            };
            self.cells[row][col] = cell;
            assert(self@.grid =~= before.cell_set(ch).grid);
        }
    }

    fn erase_columns(&mut self, from: usize, to: usize)
        requires
            old(self)@.wf(),
            to <= old(self)@.cols,
        ensures
            final(self)@ == old(self)@.columns_erased(from as int, to as int),
            final(self)@.wf(),
    {
        let ghost before = self@;
        let row: usize = self.cursor_row;
        if row < self.rows {
            assert(before.grid[row as int] == self.cells@[row as int]@);
            Self::blank_cells(&mut self.cells[row], from, to);
            assert(self@.grid =~= before.columns_erased(from as int, to as int).grid);
        }
    }

    fn erase_rows(&mut self, from: usize, to: usize)
        requires
            old(self)@.wf(),
            to <= old(self)@.rows,
        ensures
            final(self)@ == old(self)@.rows_erased(from as int, to as int),
            final(self)@.wf(),
    {
        let ghost before = self@;
        assert(self@.grid =~= before.rows_erased(from as int, from as int).grid);
        let mut r: usize = from;
        while r < to
            invariant
                before.wf(),
                to <= before.rows,
                from <= r,
                from <= to ==> r <= to,
                from > to ==> r == from,
                self@ == before.rows_erased(from as int, r as int),
            decreases to - r,
        {
            assert(self.cells@.len() == self@.grid.len());
            assert(forall|k: int|
                0 <= k < self.cells@.len() ==> (#[trigger] self.cells@[k])@ == self@.grid[k]);
            let row = new_blank_row(self.cols);
            self.cells.set(r, row);
            assert(self@.grid =~= before.rows_erased(from as int, r as int + 1).grid);
            r = r + 1;
        }
        assert(self@.grid =~= before.rows_erased(from as int, to as int).grid);
    }

    /// Writes a printable character at the cursor.
    pub fn print(&mut self, c: char)
        requires
            old(self)@.wf(),
            old(self)@.rows > 0 || !old(self)@.pending_wrap,
        ensures
            final(self)@ == old(self)@.printed(c),
            final(self)@.wf(),
    {
        if self.pending_wrap {
            self.pending_wrap = false;
            self.cursor_col = 0;
            self.line_feed();
        }
        self.set_cell(c);
        if self.cursor_col + 1 >= self.cols {
            self.pending_wrap = true;
        } else {
            self.cursor_col = self.cursor_col + 1;
        }
    }

    /// Performs a control character.
    pub fn execute(&mut self, byte: u8)
        requires
            old(self)@.wf(),
            old(self)@.rows > 0 || byte != 0x0a,
        ensures
            final(self)@ == old(self)@.executed(byte),
            final(self)@.wf(),
    {
        match byte {
            0x0d => {
                self.cursor_col = 0;
                self.pending_wrap = false;
            },
            0x0a => {
                self.pending_wrap = false;
                self.line_feed();
            },
            0x08 => {
                self.pending_wrap = false;
                self.cursor_col = self.cursor_col.saturating_sub(1);
            },
            _ => {},
        }
    }

    fn save_cursor(&mut self)
        ensures
            final(self)@ == old(self)@.cursor_saved(),
    {
        self.saved_cursor = (self.cursor_col, self.cursor_row, self.pending_wrap);
    }

    fn restore_cursor(&mut self)
        requires
            old(self)@.wf(),
        ensures
            final(self)@ == old(self)@.cursor_restored(),
            final(self)@.wf(),
    {
        let (c, r, wrap) = self.saved_cursor;
        self.cursor_col = min_usize(c, self.cols.saturating_sub(1));
        self.cursor_row = min_usize(r, self.rows.saturating_sub(1));
        self.pending_wrap = wrap;
    }

    fn erase_in_display(&mut self, mode: usize)
        requires
            old(self)@.wf(),
            mode <= u16::MAX,
        ensures
            final(self)@ == old(self)@.csi(seq![mode as u16], Seq::empty(), 'J'),
            final(self)@.wf(),
    {
        let ghost before = self@;
        match mode {
            0 => {
                self.erase_columns(self.cursor_col, self.cols);
                if self.rows > 0 {
                    self.erase_rows(self.cursor_row + 1, self.rows);
                } else {
                    assert(self@.grid =~= before.csi(seq![0u16], Seq::empty(), 'J').grid);
                }
            },
            1 => self.erase_rows(0, self.cursor_row),
            2 => self.erase_rows(0, self.rows),
            3 => self.erase_rows(0, self.rows),
            _ => {},
        }
    }

    fn erase_in_line(&mut self, mode: usize)
        requires
            old(self)@.wf(),
            mode <= u16::MAX,
        ensures
            final(self)@ == old(self)@.csi(seq![mode as u16], Seq::empty(), 'K'),
            final(self)@.wf(),
    {
        let ghost before = self@;
        match mode {
            0 => self.erase_columns(self.cursor_col, self.cols),
            1 => {
                if self.cols > 0 {
                    self.erase_columns(0, self.cursor_col + 1);
                } else {
                    assert(self@.grid =~~= before.csi(seq![1u16], Seq::empty(), 'K').grid);
                }
            },
            2 => {
                if self.rows > 0 {
                    self.erase_rows(self.cursor_row, self.cursor_row + 1);
                } else {
                    assert(self@.grid =~= before.csi(seq![2u16], Seq::empty(), 'K').grid);
                }
            },
            _ => {},
        }
    }

    /// Performs a CSI sequence. `params` holds the first subparameter of each
    /// parameter.
    pub fn csi_dispatch(&mut self, params: &[u16], intermediates: &[u8], action: char)
        requires
            old(self)@.wf(),
        ensures
            final(self)@ == old(self)@.csi(params@, intermediates@, action),
            final(self)@.wf(),
    {
        let p1: usize = if params.len() > 0 { params[0] as usize } else { 0 };
        let p2: usize = if params.len() > 1 { params[1] as usize } else { 0 };
        let n: usize = if p1 == 0 { 1 } else { p1 };
        match action {
            'A' => {
                self.pending_wrap = false;
                self.cursor_row = self.cursor_row.saturating_sub(n);
            },
            'B' => {
                self.pending_wrap = false;
                self.cursor_row = min_usize(
                    self.cursor_row.saturating_add(n),
                    self.rows.saturating_sub(1),
                );
            },
            'C' => {
                self.pending_wrap = false;
                self.cursor_col = min_usize(
                    self.cursor_col.saturating_add(n),
                    self.cols.saturating_sub(1),
                );
            },
            'D' => {
                self.pending_wrap = false;
                self.cursor_col = self.cursor_col.saturating_sub(n);
            },
            'H' | 'f' => {
                self.pending_wrap = false;
                self.cursor_row = min_usize(p1.saturating_sub(1), self.rows.saturating_sub(1));
                self.cursor_col = min_usize(p2.saturating_sub(1), self.cols.saturating_sub(1));
            },
            'J' => self.erase_in_display(p1),
            'K' => self.erase_in_line(p1),
            'L' => self.insert_lines(self.cursor_row, n),
            'M' => self.delete_lines(self.cursor_row, n),
            'S' => self.delete_lines(0, n),
            'm' => apply_sgr(&mut self.pen, params),
            's' => {
                if intermediates.len() == 0 {
                    self.save_cursor();
                }
            },
            'u' => {
                if intermediates.len() == 0 {
                    self.restore_cursor();
                }
            },
            _ => {},
        }
    }

    /// Performs an escape sequence.
    pub fn esc_dispatch(&mut self, byte: u8)
        requires
            old(self)@.wf(),
        ensures
            final(self)@ == old(self)@.escaped(byte),
            final(self)@.wf(),
    {
        match byte {
            0x37 => self.save_cursor(),
            0x38 => self.restore_cursor(),
            0x4d => {
                if self.cursor_row == 0 {
                    self.insert_lines(0, 1);
                } else {
                    self.cursor_row = self.cursor_row - 1;
                }
            },
            _ => {},
        }
    }
}

/// A cursor that was saved is restored as it was, whatever else was saved
/// before it.
pub proof fn law_restore_undoes_save(s: ScreenState)
    requires
        s.wf(),
    ensures
        s.cursor_saved().cursor_restored() == s.cursor_saved(),
        s.escaped(0x37).escaped(0x38).col == s.col,
        s.escaped(0x37).escaped(0x38).row == s.row,
        s.escaped(0x37).escaped(0x38).pending_wrap == s.pending_wrap,
{
}

/// The state after printing each character of `text` in turn.
pub open spec fn printed_all(s: ScreenState, text: Seq<char>) -> ScreenState
    decreases text.len(),
{
    if text.len() == 0 {
        s
    } else {
        printed_all(s, text.drop_last()).printed(text.last())
    }
}

/// A text no longer than a row, printed from its first column, stays on that
/// row: the wrap waits for the next character, the text stands in the row,
/// and no other row changes.
pub proof fn law_wrap_is_deferred(s: ScreenState, text: Seq<char>)
    requires
        s.wf(),
        s.rows > 0,
        s.col == 0,
        !s.pending_wrap,
        0 < text.len() <= s.cols,
    ensures
        printed_all(s, text).wf(),
        printed_all(s, text).row == s.row,
        printed_all(s, text).pen == s.pen,
        printed_all(s, text).cols == s.cols,
        printed_all(s, text).rows == s.rows,
        printed_all(s, text).pending_wrap == (text.len() == s.cols),
        printed_all(s, text).col == least(text.len(), (s.cols - 1) as nat),
        forall|c: int|
            0 <= c < s.cols ==> #[trigger] printed_all(s, text).grid[s.row as int][c] == (if c
                < text.len() {
                terminal::inked(s.pen, text[c])
            } else {
                s.grid[s.row as int][c]
            }),
        forall|r: int|
            0 <= r < s.rows && r != s.row ==> #[trigger] printed_all(s, text).grid[r]
                == s.grid[r],
    decreases text.len(),
{
    let prefix = text.drop_last();
    if prefix.len() == 0 {
        assert(printed_all(s, prefix) == s);
    } else {
        law_wrap_is_deferred(s, prefix);
    }
}

/// Moving the cursor cancels a wrap that was put off.
pub proof fn law_cursor_moves_cancel_wrap(
    s: ScreenState,
    params: Seq<u16>,
    intermediates: Seq<u8>,
    action: char,
)
    requires
        action == 'A' || action == 'B' || action == 'C' || action == 'D' || action == 'H' || action
            == 'f',
    ensures
        !s.csi(params, intermediates, action).pending_wrap,
{
}

/// Every action keeps the screen rectangular with its cursor inside, and
/// keeps its size.
pub proof fn law_actions_keep_shape(
    s: ScreenState,
    ch: char,
    byte: u8,
    params: Seq<u16>,
    intermediates: Seq<u8>,
    action: char,
)
    requires
        s.wf(),
        s.rows > 0,
    ensures
        s.printed(ch).wf() && s.printed(ch).rows == s.rows && s.printed(ch).cols == s.cols,
        s.executed(byte).wf() && s.executed(byte).rows == s.rows && s.executed(byte).cols
            == s.cols,
        s.escaped(byte).wf() && s.escaped(byte).rows == s.rows && s.escaped(byte).cols == s.cols,
        s.csi(params, intermediates, action).wf(),
        s.csi(params, intermediates, action).rows == s.rows,
        s.csi(params, intermediates, action).cols == s.cols,
{
}

/// Moving the cursor moves it by as much as is asked for, as far as the screen
/// reaches, along one axis, and changes no cell; no count, and a count of 0, is 1.
pub proof fn law_cursor_moves_by_the_count(s: ScreenState, n: u16, intermediates: Seq<u8>)
    requires
        s.wf(),
        s.rows > 0,
        s.cols > 0,
        n > 0,
    ensures
        ({
            let up = s.csi(seq![n], intermediates, 'A');
            let down = s.csi(seq![n], intermediates, 'B');
            let right = s.csi(seq![n], intermediates, 'C');
            let left = s.csi(seq![n], intermediates, 'D');
            &&& up.row == (if s.row >= n { s.row - n } else { 0 }) && up.col == s.col
            &&& down.row == (if s.row + n < s.rows { s.row + n } else { s.rows - 1 }) && down.col
                == s.col
            &&& right.col == (if s.col + n < s.cols { s.col + n } else { s.cols - 1 }) && right.row
                == s.row
            &&& left.col == (if s.col >= n { s.col - n } else { 0 }) && left.row == s.row
            &&& up.grid == s.grid && down.grid == s.grid && right.grid == s.grid && left.grid
                == s.grid
            &&& up.pen == s.pen && down.pen == s.pen && right.pen == s.pen && left.pen == s.pen
        }),
        forall|action: char|
            action == 'A' || action == 'B' || action == 'C' || action == 'D' || action == 'L'
                || action == 'M' || action == 'S' ==> #[trigger] s.csi(
                seq![0u16],
                intermediates,
                action,
            ) == s.csi(seq![1u16], intermediates, action) && s.csi(
                Seq::empty(),
                intermediates,
                action,
            ) == s.csi(seq![1u16], intermediates, action),
{
}

/// A move undone is no move: up and down, and left and right, by the same count
/// lead back, where the screen reaches that far.
pub proof fn law_moves_undo_each_other(s: ScreenState, n: u16, i: Seq<u8>)
    requires
        s.wf(),
        n > 0,
    ensures
        s.row + n < s.rows ==> s.csi(seq![n], i, 'B').csi(seq![n], i, 'A').row == s.row,
        s.row >= n ==> s.csi(seq![n], i, 'A').csi(seq![n], i, 'B').row == s.row,
        s.col + n < s.cols ==> s.csi(seq![n], i, 'C').csi(seq![n], i, 'D').col == s.col,
        s.col >= n ==> s.csi(seq![n], i, 'D').csi(seq![n], i, 'C').col == s.col,
{
}

/// A position is given by row and column, counted from 1, and the cursor goes
/// there, or to the edge where it lies outside; without one it goes to the top
/// left.
pub proof fn law_positions_are_reached(s: ScreenState, row: u16, col: u16, i: Seq<u8>)
    requires
        s.wf(),
        1 <= row <= s.rows,
        1 <= col <= s.cols,
    ensures
        s.csi(seq![row, col], i, 'H').row == row - 1,
        s.csi(seq![row, col], i, 'H').col == col - 1,
        s.csi(seq![row, col], i, 'H').grid == s.grid,
        s.csi(seq![row, col], i, 'f') == s.csi(seq![row, col], i, 'H'),
        s.csi(Seq::empty(), i, 'H').row == 0 && s.csi(Seq::empty(), i, 'H').col == 0,
{
}

/// Erasing blanks just the cells that are named and leaves the cursor where it is:
/// from the cursor to the end, or all, of the screen or of the line, the rows above
/// the cursor, or the line up to the cursor.
pub proof fn law_erasing_blanks_what_is_named(s: ScreenState, r: int, c: int, i: Seq<u8>)
    requires
        s.wf(),
        0 <= r < s.rows,
        0 <= c < s.cols,
    ensures
        ({
            let blank = Cell {
                ch: ' ',
                fg: terminal::Rgba { r: 220, g: 220, b: 220, a: 255 },
                bg: terminal::Rgba { r: 0, g: 0, b: 0, a: 0 },
                bold: false,
                underline: false,
            };
            let was = s.grid[r][c];
            let behind = r > s.row || (r == s.row && c >= s.col);
            &&& s.csi(seq![0u16], i, 'J').grid[r][c] == (if behind { blank } else { was })
            &&& s.csi(Seq::empty(), i, 'J').grid[r][c] == (if behind { blank } else { was })
            &&& s.csi(seq![1u16], i, 'J').grid[r][c] == (if r < s.row { blank } else { was })
            &&& s.csi(seq![2u16], i, 'J').grid[r][c] == blank
            &&& s.csi(seq![3u16], i, 'J').grid[r][c] == blank
            &&& s.csi(seq![0u16], i, 'K').grid[r][c] == (if r == s.row && c >= s.col {
                blank
            } else {
                was
            })
            &&& s.csi(seq![1u16], i, 'K').grid[r][c] == (if r == s.row && c <= s.col {
                blank
            } else {
                was
            })
            &&& s.csi(seq![2u16], i, 'K').grid[r][c] == (if r == s.row { blank } else { was })
        }),
        forall|n: u16| #![trigger s.csi(seq![n], i, 'J')]
            s.csi(seq![n], i, 'J').row == s.row && s.csi(seq![n], i, 'J').col == s.col,
        forall|n: u16| #![trigger s.csi(seq![n], i, 'K')]
            s.csi(seq![n], i, 'K').row == s.row && s.csi(seq![n], i, 'K').col == s.col,
{
}

/// Lines are inserted at the cursor and deleted there: those above stay, those
/// below move by as many rows, and blank lines come in. To insert and then to
/// delete as many leaves every line that was not pushed off the screen.
pub proof fn law_lines_move_by_the_count(s: ScreenState, n: u16, r: int, i: Seq<u8>)
    requires
        s.wf(),
        n > 0,
        0 <= r < s.rows,
    ensures
        ({
            let inserted = s.csi(seq![n], i, 'L');
            let deleted = s.csi(seq![n], i, 'M');
            let scrolled = s.csi(seq![n], i, 'S');
            &&& r < s.row ==> inserted.grid[r] == s.grid[r] && deleted.grid[r] == s.grid[r]
            &&& s.row <= r && r + n < s.rows ==> inserted.grid[r + n] == s.grid[r]
            &&& s.row <= r < s.row + n ==> inserted.grid[r] == blank_row(s.cols)
            &&& s.row <= r && r + n < s.rows ==> deleted.grid[r] == s.grid[r + n]
            &&& s.row <= r && r + n >= s.rows ==> deleted.grid[r] == blank_row(s.cols)
            &&& r + n < s.rows ==> scrolled.grid[r] == s.grid[r + n]
            &&& r + n >= s.rows ==> scrolled.grid[r] == blank_row(s.cols)
            &&& inserted.row == s.row && deleted.row == s.row && scrolled.row == s.row
            &&& inserted.col == s.col && deleted.col == s.col && scrolled.col == s.col
            &&& r + n < s.rows || r < s.row ==> inserted.csi(seq![n], i, 'M').grid[r] == s.grid[r]
        }),
{
}

/// A line feed goes one row down; at the bottom the screen moves up by a row
/// instead, and a blank one comes in. A carriage return goes to the first column,
/// and a backspace one column back. None of them writes anything else.
pub proof fn law_control_characters_move_the_cursor(s: ScreenState, r: int)
    requires
        s.wf(),
        s.rows > 0,
        0 <= r < s.rows,
    ensures
        ({
            let lf = s.executed(10);
            &&& s.row + 1 < s.rows ==> lf.row == s.row + 1 && lf.grid == s.grid
            &&& s.row + 1 == s.rows ==> {
                &&& lf.row == s.row
                &&& r + 1 < s.rows ==> lf.grid[r] == s.grid[r + 1]
                &&& r + 1 == s.rows ==> lf.grid[r] == blank_row(s.cols)
            }
            &&& lf.col == s.col
        }),
        s.executed(13).col == 0 && s.executed(13).row == s.row && s.executed(13).grid == s.grid,
        s.executed(8).col == (if s.col > 0 { s.col - 1 } else { 0 }) && s.executed(8).row == s.row
            && s.executed(8).grid == s.grid,
        !s.executed(13).pending_wrap && !s.executed(10).pending_wrap && !s.executed(8).pending_wrap,
        s.escaped(0x4d).row == (if s.row > 0 { s.row - 1 } else { 0 }),
        s.row > 0 ==> s.escaped(0x4d).grid == s.grid,
        s.row == 0 && r > 0 ==> s.escaped(0x4d).grid[r] == s.grid[r - 1],
        s.row == 0 ==> s.escaped(0x4d).grid[0] == blank_row(s.cols),
{
}

/// A character is written under the cursor with the pen as it is, and no other
/// cell changes; the cursor goes one column on, or, in the last, waits there. A
/// wrap that waits puts the character at the start of the next row.
pub proof fn law_characters_are_written_under_the_cursor(
    s: ScreenState,
    ch: char,
    r: int,
    c: int,
)
    requires
        s.wf(),
        s.rows > 0,
        s.cols > 0,
        0 <= r < s.rows,
        0 <= c < s.cols,
    ensures
        !s.pending_wrap ==> {
            &&& s.printed(ch).grid[r][c] == (if r == s.row && c == s.col {
                terminal::inked(s.pen, ch)
            } else {
                s.grid[r][c]
            })
            &&& s.col + 1 < s.cols ==> s.printed(ch).col == s.col + 1 && !s.printed(ch).pending_wrap
            &&& s.col + 1 == s.cols ==> s.printed(ch).col == s.col && s.printed(ch).pending_wrap
            &&& s.printed(ch).row == s.row
        },
        s.pending_wrap && s.row + 1 < s.rows ==> {
            &&& s.printed(ch).grid[r][c] == (if r == s.row + 1 && c == 0 {
                terminal::inked(s.pen, ch)
            } else {
                s.grid[r][c]
            })
            &&& s.printed(ch).row == s.row + 1
        },
        s.pending_wrap && s.row + 1 == s.rows ==> {
            &&& r + 1 < s.rows ==> s.printed(ch).grid[r][c] == s.grid[r + 1][c]
            &&& r + 1 == s.rows && c == 0 ==> s.printed(ch).grid[r][c] == terminal::inked(
                s.pen,
                ch,
            )
            &&& s.printed(ch).row == s.row
        },
        s.printed(ch).pen == s.pen,
        s.printed(ch).saved == s.saved,
{
}

/// Resizing keeps every cell that the new size still holds, in its place, fills
/// what is new with blanks, and keeps the cursor where it is as far as it fits.
pub proof fn law_resizing_keeps_what_fits(s: ScreenState, cols: nat, rows: nat, r: int, c: int)
    requires
        s.wf(),
        0 <= r < rows,
        0 <= c < cols,
    ensures
        s.resized(cols, rows).cols == cols && s.resized(cols, rows).rows == rows,
        r < s.rows && c < s.cols ==> s.resized(cols, rows).grid[r][c] == s.grid[r][c],
        r >= s.rows || c >= s.cols ==> s.resized(cols, rows).grid[r][c] == terminal::blank_cell(),
        s.row < rows ==> s.resized(cols, rows).row == s.row,
        s.row >= rows ==> s.resized(cols, rows).row == rows - 1,
        s.col < cols ==> s.resized(cols, rows).col == s.col,
        s.col >= cols ==> s.resized(cols, rows).col == cols - 1,
        s.resized(cols, rows).wf(),
        s.resized(cols, rows).pen == s.pen,
{
}

/// A new screen is blank, and its cursor stands at the top left with a plain pen.
pub proof fn law_new_screens_are_blank(cols: nat, rows: nat)
    ensures
        ScreenState::fresh(cols, rows).wf(),
        ScreenState::fresh(cols, rows).cols == cols && ScreenState::fresh(cols, rows).rows == rows,
        ScreenState::fresh(cols, rows).row == 0 && ScreenState::fresh(cols, rows).col == 0,
        forall|r: int, c: int|
            0 <= r < rows && 0 <= c < cols ==> (#[trigger] ScreenState::fresh(
                cols,
                rows,
            ).grid[r][c]) == terminal::inked(terminal::plain_pen(), ' '),
{
}

} // verus!
