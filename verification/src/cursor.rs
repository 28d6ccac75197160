use vstd::prelude::*;
use vstd::utf8::*;
use crate::buffer::{text_width, BufferView};
use crate::file::{File, FileState};
use crate::rect::Rect;
use crate::rope::{line_bytes, line_count};

verus! {

/// The way the cursor last moved along a row.
#[derive(Debug, Clone, Copy, PartialEq, Eq, Structural)]
pub enum ColMovement {
    Left,
    Right,
    Still,
}

/// The way the cursor last moved across rows.
#[derive(Debug, Clone, Copy, PartialEq, Eq, Structural)]
pub enum RowMovement {
    Up,
    Down,
    Still,
}

/// A movement of the cursor.
#[derive(Debug, Clone, Copy, PartialEq, Eq, Structural)]
pub enum CursorMovement {
    Up,
    Down,
    Left,
    Right,
    LineStart,
    LineEnd,
    FileStart,
    FileEnd,
    PageUp,
    PageDown,
    HalfPageUp,
    HalfPageDown,
}

/// The position of the cursor in a file, how far the view is scrolled, and the widths of the
/// columns left of the text.
#[derive(Debug, Clone, Copy, PartialEq, Eq, Structural)]
pub struct Cursor {
    col: usize,
    row: usize,
    col_offset: usize,
    row_offset: usize,
    col_movement: ColMovement,
    row_movement: RowMovement,
    number_line_width: usize,
    gutter_width: usize,
}

/// The abstract state of a cursor.
pub struct CursorView {
    pub col: nat,
    pub row: nat,
    pub col_offset: nat,
    pub row_offset: nat,
    pub col_movement: ColMovement,
    pub row_movement: RowMovement,
    pub number_line_width: nat,
    pub gutter_width: nat,
}

impl View for Cursor {
    type V = CursorView;

    closed spec fn view(&self) -> CursorView {
        CursorView {
            col: self.col as nat,
            row: self.row as nat,
            col_offset: self.col_offset as nat,
            row_offset: self.row_offset as nat,
            col_movement: self.col_movement,
            row_movement: self.row_movement,
            number_line_width: self.number_line_width as nat,
            gutter_width: self.gutter_width as nat,
        }
    }
}

/// `a - b`, or 0 where `b` is larger.
pub open spec fn sat_sub(a: nat, b: nat) -> nat {
    if a >= b {
        (a - b) as nat
    } else {
        0
    }
}

/// The on-screen width of row `r` of a buffer, without its line break; 0 past the last row.
pub open spec fn row_width(b: BufferView, r: nat) -> nat {
    if r < line_count(b.text()) {
        text_width(decode_utf8(line_bytes(b.text(), r)), b.tab_size)
    } else {
        0
    }
}

/// Whether the width of every row of a buffer fits a `usize`.
pub open spec fn widths_fit(b: BufferView) -> bool {
    forall|r: nat|
        r < line_count(b.text()) ==> #[trigger] text_width(decode_utf8(line_bytes(b.text(), r)), b.tab_size)
            <= usize::MAX
}

/// Where a cursor `c` ends after moving `n` times in direction `d` in a file of `lines` rows,
/// `cols` being the width of the cursor's row and `end_cols` that of the second-to-last row.
pub open spec fn moved(c: CursorView, d: CursorMovement, n: nat, lines: nat, cols: nat, end_cols: nat) -> CursorView {
    match d {
        CursorMovement::Up => CursorView { row_movement: RowMovement::Up, row: sat_sub(c.row, n), ..c },
        CursorMovement::Down => CursorView {
            row_movement: RowMovement::Down,
            row: if c.row < lines {
                if (c.row + n) % lines < c.row {
                    sat_sub(lines, 1)
                } else {
                    ((c.row + n) % lines) as nat
                }
            } else {
                c.row
            },
            ..c
        },
        CursorMovement::Left => CursorView { col_movement: ColMovement::Left, col: sat_sub(c.col, n), ..c },
        CursorMovement::Right => CursorView {
            col_movement: ColMovement::Right,
            col: if c.col < cols {
                if (c.col + n) % (cols + 1) < c.col {
                    cols
                } else {
                    ((c.col + n) % (cols + 1)) as nat
                }
            } else {
                cols
            },
            ..c
        },
        CursorMovement::LineStart => CursorView { col_movement: ColMovement::Left, col: 0, ..c },
        CursorMovement::LineEnd => CursorView { col_movement: ColMovement::Right, col: cols, ..c },
        CursorMovement::FileStart => CursorView { row_movement: RowMovement::Up, row: 0, ..c },
        CursorMovement::FileEnd => CursorView {
            row_movement: RowMovement::Down,
            row: (lines - 2) as nat,
            col: end_cols,
            ..c
        },
        _ => c,
    }
}

/// Where the view of cursor `c` is scrolled to so that the cursor stays inside `rect`: after a
/// move right past the right edge the cursor is shown in the last column, after a move left to
/// the first shown column or before it the cursor is shown in the first column; likewise for
/// rows.
pub open spec fn scrolled(c: CursorView, rect: Rect) -> CursorView {
    let col_offset = match c.col_movement {
        ColMovement::Right => if rect.width != 0 && c.col - c.col_offset >= rect.width {
            sat_sub(c.col, rect.width as nat) + 1
        } else {
            c.col_offset
        },
        ColMovement::Left => if sat_sub(c.col, c.col_offset) == 0 {
            c.col
        } else {
            c.col_offset
        },
        ColMovement::Still => c.col_offset,
    };
    let row_offset = match c.row_movement {
        RowMovement::Down => if rect.height != 0 && c.row - c.row_offset >= rect.height {
            sat_sub(c.row, rect.height as nat) + 1
        } else {
            c.row_offset
        },
        RowMovement::Up => if sat_sub(c.row, c.row_offset) == 0 {
            c.row
        } else {
            c.row_offset
        },
        RowMovement::Still => c.row_offset,
    };
    CursorView { col_offset: col_offset as nat, row_offset: row_offset as nat, ..c }
}

impl Cursor {
    /// A cursor at the start of the file, not scrolled, with no columns left of the text.
    pub fn new() -> (c: Self)
        ensures
            c@ == (CursorView {
                col: 0,
                row: 0,
                col_offset: 0,
                row_offset: 0,
                col_movement: ColMovement::Still,
                row_movement: RowMovement::Still,
                number_line_width: 0,
                gutter_width: 0,
            }),
    {
        Self {
            col: 0,
            row: 0,
            col_offset: 0,
            row_offset: 0,
            col_movement: ColMovement::Still,
            row_movement: RowMovement::Still,
            number_line_width: 0,
            gutter_width: 0,
        }
    }

    /// Sets the width of the line numbers.
    pub fn set_number_line_width(&mut self, width: usize)
        ensures
            final(self)@ == (CursorView { number_line_width: width as nat, ..old(self)@ }),
    {
        self.number_line_width = width;
    }

    /// Sets the width of the gutter.
    pub fn set_gutter_width(&mut self, width: usize)
        ensures
            final(self)@ == (CursorView { gutter_width: width as nat, ..old(self)@ }),
    {
        self.gutter_width = width;
    }

    /// The column and the row of the cursor in the file.
    pub fn get_cursor(self) -> (p: (usize, usize))
        ensures
            p.0 == self@.col,
            p.1 == self@.row,
    {
        (self.col, self.row)
    }

    /// The column and the row of the cursor on the screen: past the shown part's start, and
    /// right of the line numbers and the gutter.
    pub fn get_relative_cursor(self) -> (p: (usize, usize))
        requires
            self@.col_offset <= self@.col,
            self@.row_offset <= self@.row,
            self@.col - self@.col_offset + self@.number_line_width + self@.gutter_width <= usize::MAX,
        ensures
            p.0 == self@.col - self@.col_offset + self@.number_line_width + self@.gutter_width,
            p.1 == self@.row - self@.row_offset,
    {
        (self.col - self.col_offset + self.number_line_width + self.gutter_width, self.row - self.row_offset)
    }

    /// How far the view is scrolled: by columns and by rows.
    pub fn get_scroll_amount(self) -> (p: (usize, usize))
        ensures
            p.0 == self@.col_offset,
            p.1 == self@.row_offset,
    {
        (self.col_offset, self.row_offset)
    }

    /// Scrolls the view so that the cursor stays inside `rect`.
    pub fn scroll(&mut self, rect: Rect)
        requires
            old(self)@.col_movement == ColMovement::Right && rect.width != 0 ==> old(self)@.col_offset
                <= old(self)@.col,
            old(self)@.row_movement == RowMovement::Down && rect.height != 0 ==> old(self)@.row_offset
                <= old(self)@.row,
        ensures
            final(self)@ == scrolled(old(self)@, rect),
    {
        match self.col_movement {
            ColMovement::Right => {
                if rect.width != 0 && self.col - self.col_offset >= rect.width {
                    self.col_offset = self.col.saturating_sub(rect.width) + 1;
                }
            },
            ColMovement::Left => {
                if self.col.saturating_sub(self.col_offset) == 0 {
                    self.col_offset = self.col;
                }
            },
            ColMovement::Still => {},
        }
        match self.row_movement {
            RowMovement::Down => {
                if rect.height != 0 && self.row - self.row_offset >= rect.height {
                    self.row_offset = self.row.saturating_sub(rect.height) + 1;
                }
            },
            RowMovement::Up => {
                if self.row.saturating_sub(self.row_offset) == 0 {
                    self.row_offset = self.row;
                }
            },
            RowMovement::Still => {},
        }
    }

    /// Moves the cursor to the start of its row, as a move to the line start does.
    pub fn to_line_start(&mut self)
        ensures
            final(self)@ == (CursorView { col_movement: ColMovement::Left, col: 0, ..old(self)@ }),
    {
        self.col_movement = ColMovement::Left;
        self.col = 0;
    }

    /// Puts the cursor at column `col` of row `row`.
    pub fn set_cursor(&mut self, col: usize, row: usize)
        ensures
            final(self)@ == (CursorView { col: col as nat, row: row as nat, ..old(self)@ }),
    {
        self.col = col;
        self.row = row;
    }

    /// Moves the cursor `n` times in `direction` within `file`: up and left stop at the start,
    /// down wraps past the last row to the last row, right wraps past the row's end to its end,
    /// and the file's end is the second-to-last row.
    pub fn move_cursor(&mut self, direction: CursorMovement, n: usize, file: &File)
        requires
            file@.file.buffer.wf(),
            widths_fit(file@.file.buffer),
            direction == CursorMovement::Down && old(self)@.row < line_count(file@.file.buffer.text())
                ==> old(self)@.row + n <= usize::MAX,
            direction == CursorMovement::Right && old(self)@.col < row_width(file@.file.buffer, old(self)@.row)
                ==> old(self)@.col + n <= usize::MAX && row_width(file@.file.buffer, old(self)@.row) < usize::MAX,
            direction == CursorMovement::FileEnd ==> line_count(file@.file.buffer.text()) >= 2,
        ensures
            final(self)@ == moved(
                old(self)@,
                direction,
                n as nat,
                line_count(file@.file.buffer.text()),
                row_width(file@.file.buffer, old(self)@.row),
                row_width(file@.file.buffer, (line_count(file@.file.buffer.text()) - 2) as nat),
            ),
    {
        let number_of_lines = file.get_line_count();
        proof {
            if self.row < line_count(file@.file.buffer.text()) {
                assert(text_width(decode_utf8(line_bytes(file@.file.buffer.text(), self.row as nat)), file@.file.buffer.tab_size) <= usize::MAX);
            }
        }
        let number_of_cols = match file.get_row_len(self.row) {
            Some(cols) => cols,
            None => 0,
        };
        match direction {
            CursorMovement::Up => {
                self.row_movement = RowMovement::Up;
                self.row = self.row.saturating_sub(n);
            },
            CursorMovement::Down => {
                if self.row < number_of_lines {
                    let new_row = (self.row + n) % number_of_lines;
                    if new_row < self.row {
                        self.row = number_of_lines.saturating_sub(1);
                    } else {
                        self.row = new_row;
                    }
                }
                self.row_movement = RowMovement::Down;
            },
            CursorMovement::Left => {
                self.col_movement = ColMovement::Left;
                self.col = self.col.saturating_sub(n);
            },
            CursorMovement::Right => {
                self.col_movement = ColMovement::Right;
                if self.col < number_of_cols {
                    let new_col = (self.col + n) % (number_of_cols + 1);
                    if new_col < self.col {
                        self.col = number_of_cols;
                    } else {
                        self.col = new_col;
                    }
                } else {
                    self.col = number_of_cols;
                }
            },
            CursorMovement::LineStart => {
                self.col_movement = ColMovement::Left;
                self.col = 0;
            },
            CursorMovement::LineEnd => {
                self.col_movement = ColMovement::Right;
                self.col = number_of_cols;
            },
            CursorMovement::FileStart => {
                self.row_movement = RowMovement::Up;
                self.row = 0;
            },
            CursorMovement::FileEnd => {
                self.row_movement = RowMovement::Down;
                self.row = number_of_lines - 2;
                proof {
                    assert(text_width(decode_utf8(line_bytes(file@.file.buffer.text(), self.row as nat)), file@.file.buffer.tab_size) <= usize::MAX);
                }
                let number_of_cols = match file.get_row_len(self.row) {
                    Some(cols) => cols,
                    None => 0,
                };
                self.col = number_of_cols;
            },
            _ => {},
        }
    }
}

/// After a move down, scrolling keeps the cursor's row on screen: the first row shown is no
/// later than the cursor's row, and the cursor's row comes before the first row past the
/// screen; where the row was already shown, nothing scrolls.
pub proof fn law_scroll_down_keeps_the_cursor_shown(c: CursorView, rect: Rect)
    requires
        c.row_movement == RowMovement::Down,
        rect.height > 0,
        c.row_offset <= c.row,
    ensures
        scrolled(c, rect).row == c.row,
        scrolled(c, rect).row_offset <= c.row < scrolled(c, rect).row_offset + rect.height,
        c.row < c.row_offset + rect.height ==> scrolled(c, rect).row_offset == c.row_offset,
{
}

/// After a move right, scrolling keeps the cursor's column on screen.
pub proof fn law_scroll_right_keeps_the_cursor_shown(c: CursorView, rect: Rect)
    requires
        c.col_movement == ColMovement::Right,
        rect.width > 0,
        c.col_offset <= c.col,
    ensures
        scrolled(c, rect).col == c.col,
        scrolled(c, rect).col_offset <= c.col < scrolled(c, rect).col_offset + rect.width,
        c.col < c.col_offset + rect.width ==> scrolled(c, rect).col_offset == c.col_offset,
{
}

/// Moving up `n` rows from row `r` lands on row `r - n`, or on the first row where `r` is less
/// than `n`; the column stays.
pub proof fn law_move_up_goes_n_rows_up(c: CursorView, n: nat, lines: nat, cols: nat, end_cols: nat)
    ensures
        moved(c, CursorMovement::Up, n, lines, cols, end_cols).row == if c.row >= n {
            c.row - n
        } else {
            0
        },
        moved(c, CursorMovement::Up, n, lines, cols, end_cols).col == c.col,
{
}

/// Moving down `n` rows from row `r` inside a file of more than `r + n` rows lands on row
/// `r + n`; the column stays.
pub proof fn law_move_down_goes_n_rows_down(c: CursorView, n: nat, lines: nat, cols: nat, end_cols: nat)
    requires
        c.row + n < lines,
    ensures
        moved(c, CursorMovement::Down, n, lines, cols, end_cols).row == c.row + n,
        moved(c, CursorMovement::Down, n, lines, cols, end_cols).col == c.col,
{
    assert((c.row + n) % lines == c.row + n) by (nonlinear_arith)
        requires
            0 <= c.row + n < lines,
    ;
}

/// Moving left `n` columns from column `c` lands on column `c - n`, or on the first column
/// where `c` is less than `n`; the row stays.
pub proof fn law_move_left_goes_n_columns_left(c: CursorView, n: nat, lines: nat, cols: nat, end_cols: nat)
    ensures
        moved(c, CursorMovement::Left, n, lines, cols, end_cols).col == if c.col >= n {
            c.col - n
        } else {
            0
        },
        moved(c, CursorMovement::Left, n, lines, cols, end_cols).row == c.row,
{
}

/// Moving right `n` columns inside a row of `cols` columns, from column `c` with `c + n` not
/// past the row's end, lands on column `c + n`; the row stays.
pub proof fn law_move_right_goes_n_columns_right(c: CursorView, n: nat, lines: nat, cols: nat, end_cols: nat)
    requires
        c.col < cols,
        c.col + n <= cols,
    ensures
        moved(c, CursorMovement::Right, n, lines, cols, end_cols).col == c.col + n,
        moved(c, CursorMovement::Right, n, lines, cols, end_cols).row == c.row,
{
    assert((c.col + n) % (cols + 1) == c.col + n) by (nonlinear_arith)
        requires
            0 <= c.col + n < cols + 1,
    ;
}

/// The moves to the start of the line and of the file go to column zero and row zero.
pub proof fn law_moves_to_the_starts(c: CursorView, n: nat, lines: nat, cols: nat, end_cols: nat)
    ensures
        moved(c, CursorMovement::LineStart, n, lines, cols, end_cols).col == 0,
        moved(c, CursorMovement::LineStart, n, lines, cols, end_cols).row == c.row,
        moved(c, CursorMovement::FileStart, n, lines, cols, end_cols).row == 0,
        moved(c, CursorMovement::FileStart, n, lines, cols, end_cols).col == c.col,
        moved(c, CursorMovement::LineEnd, n, lines, cols, end_cols).col == cols,
        moved(c, CursorMovement::LineEnd, n, lines, cols, end_cols).row == c.row,
{
}

/// After a move up or left, scrolling never leaves the cursor above or left of the screen.
pub proof fn law_scroll_up_left_keeps_the_cursor_shown(c: CursorView, rect: Rect)
    ensures
        c.row_movement == RowMovement::Up ==> scrolled(c, rect).row_offset <= c.row,
        c.col_movement == ColMovement::Left ==> scrolled(c, rect).col_offset <= c.col,
        scrolled(c, rect).row == c.row,
        scrolled(c, rect).col == c.col,
{
}

} // verus!
