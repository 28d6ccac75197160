use vstd::prelude::*;
use crate::cursor::{ColMovement, RowMovement};

verus! {

/// The position of the cursor within a file and how far the file's view is scrolled.
pub struct Cursor {
    col: usize,
    row: usize,
    col_offset: usize,
    row_offset: usize,
    col_movement: ColMovement,
    row_movement: RowMovement,
}

/// The abstract state of a file's cursor.
pub struct FileCursorView {
    pub col: nat,
    pub row: nat,
    pub col_offset: nat,
    pub row_offset: nat,
}

impl View for Cursor {
    type V = FileCursorView;

    closed spec fn view(&self) -> FileCursorView {
        FileCursorView {
            col: self.col as nat,
            row: self.row as nat,
            col_offset: self.col_offset as nat,
            row_offset: self.row_offset as nat,
        }
    }
}

impl Cursor {
    /// A cursor at the start of the file, not scrolled.
    pub fn new() -> (c: Self)
        ensures
            c@ == (FileCursorView { col: 0, row: 0, col_offset: 0, row_offset: 0 }),
    {
        Self {
            col: 0,
            row: 0,
            col_offset: 0,
            row_offset: 0,
            col_movement: ColMovement::Still,
            row_movement: RowMovement::Still,
        }
    }

    /// The column and the row of the cursor.
    pub fn get_cursor(&self) -> (p: (usize, usize))
        ensures
            p.0 == self@.col,
            p.1 == self@.row,
    {
        (self.col, self.row)
    }

    /// The column and the row of the cursor within the shown part of the file.
    pub fn get_relative_cursor(&self) -> (p: (usize, usize))
        requires
            self@.col_offset <= self@.col,
            self@.row_offset <= self@.row,
        ensures
            p.0 == self@.col - self@.col_offset,
            p.1 == self@.row - self@.row_offset,
    {
        (self.col - self.col_offset, self.row - self.row_offset)
    }
}

} // verus!
