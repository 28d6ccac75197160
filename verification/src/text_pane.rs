use vstd::prelude::*;
use vstd::string::StringSliceAdditionalSpecFns;
use vstd::utf8::*;
use crate::buffer::{
    apply_edit, back_to_boundary, string_bytes, byte_offset_at, edit_fits, Edit, lemma_back_to_boundary_bound, line_prefix, splice,
    BufferView,
};
use crate::cursor::{moved, row_width, widths_fit, ColMovement, Cursor, CursorMovement, CursorView, RowMovement};
use crate::file::{File, FileView};
use crate::selection::{deleted_runs, highlights_below, run_deletion, runs_below, runs_chars, selected_runs};
use crate::rope::{lemma_line_start_bound, line_count, line_start};
use crate::words::lemma_line_start_boundary;
use crate::styled::string_push;

verus! {

/// Where a cursor `c` ends after moving `n` times in direction `d` in a file whose buffer is
/// `f`.
pub open spec fn moved_in(c: CursorView, d: CursorMovement, n: nat, f: BufferView) -> CursorView {
    moved(
        c,
        d,
        n,
        line_count(f.text()),
        row_width(f, c.row),
        row_width(f, (line_count(f.text()) - 2) as nat),
    )
}

/// Whether a cursor `c` can move `n` times in direction `d` in a file whose buffer is `f`:
/// the buffer is well formed, the widths of its rows and the moved place fit a `usize`, and a
/// move to the end of the file finds two rows.
pub open spec fn move_ok(c: CursorView, d: CursorMovement, n: nat, f: BufferView) -> bool {
    &&& f.wf()
    &&& widths_fit(f)
    &&& d == CursorMovement::Down && c.row < line_count(f.text()) ==> c.row + n <= usize::MAX
    &&& d == CursorMovement::Right && c.col < row_width(f, c.row) ==> c.col + n <= usize::MAX
        && row_width(f, c.row) < usize::MAX
    &&& d == CursorMovement::FileEnd ==> line_count(f.text()) >= 2
}

/// The buffer `f` after `s` was put in at byte `at` of its shown version.
pub open spec fn inserted(f: BufferView, at: int, s: Seq<u8>) -> BufferView {
    f.branch_if_first().with_text(splice(f.text(), at, at, s)).bumped()
}

/// The deletion of `n` bytes from byte `start`.
pub open spec fn byte_deletion(start: int, n: int) -> Edit {
    Edit { start, end: start + n, text: Seq::empty() }
}

/// The byte at which the cursor `c` stands in the text `t`.
pub open spec fn cursor_byte(t: Seq<u8>, c: CursorView) -> int {
    byte_offset_at(t, c.col, c.row) as int
}

/// A text of `n` spaces.
pub open spec fn spaces(n: nat) -> Seq<char> {
    Seq::new(n, |i: int| ' ')
}

/// A file being edited with the cursor in it.
pub struct TextBuffer {
    pub file: File,
    pub cursor: Cursor,
}

impl TextBuffer {
    /// The pane of `file`, with the cursor at its start.
    pub fn new(file: File) -> (t: Self)
        ensures
            t.file@ == file@,
            t.cursor@ == (CursorView {
                col: 0,
                row: 0,
                col_offset: 0,
                row_offset: 0,
                col_movement: ColMovement::Still,
                row_movement: RowMovement::Still,
                number_line_width: 0,
                gutter_width: 0,
            }),
    {
        TextBuffer { file, cursor: Cursor::new() }
    }

    /// The column and the row of the cursor.
    pub fn get_cursor(&self) -> (p: (usize, usize))
        ensures
            p.0 == self.cursor@.col,
            p.1 == self.cursor@.row,
    {
        self.cursor.get_cursor()
    }

    /// The byte at which the cursor stands.
    pub fn get_current_byte_position(&self) -> (i: usize)
        requires
            self.file@.file.buffer.wf(),
            line_count(self.file@.file.buffer.text()) >= 1,
        ensures
            i == cursor_byte(self.file@.file.buffer.text(), self.cursor@),
    {
        let (col, row) = self.get_cursor();
        proof {
            lemma_byte_offset_at_bound(self.file@.file.buffer.text(), self.cursor@.col, self.cursor@.row);
        }
        match self.file.get_byte_offset(row, col) {
            Some(i) => i,
            None => 0,
        }
    }

    /// Puts the cursor on the character that holds byte `byte_index`.
    pub fn set_cursor_to_byte_position(&mut self, byte_index: usize)
        requires
            old(self).file@.file.buffer.wf(),
            byte_index < old(self).file@.file.buffer.text().len(),
        ensures
            final(self).cursor@ == (CursorView {
                col: crate::words::cursor_of_byte(old(self).file@.file.buffer.text(), byte_index as int).0 as nat,
                row: crate::words::cursor_of_byte(old(self).file@.file.buffer.text(), byte_index as int).1 as nat,
                ..old(self).cursor@
            }),
            final(self).file@ == old(self).file@,
    {
        match self.file.get_cursor(byte_index) {
            Some((col, row)) => self.cursor.set_cursor(col, row),
            None => {},
        }
    }

    /// The byte at `byte_index`.
    pub fn get_byte_at(&self, byte_index: usize) -> (b: u8)
        requires
            self.file@.file.buffer.wf(),
            byte_index < self.file@.file.buffer.text().len(),
        ensures
            b == self.file@.file.buffer.text()[byte_index as int],
    {
        self.file.get_byte(byte_index)
    }

    /// Whether the pane may close: its file is saved.
    pub fn can_close(&self) -> (b: bool)
        ensures
            b == self.file@.saved,
    {
        self.file.has_saved()
    }

    /// Shows `file` in the pane and hands back the file it showed.
    pub fn change_file(&mut self, file: File) -> (r: File)
        ensures
            r@ == old(self).file@,
            final(self).file@ == file@,
            final(self).cursor@ == old(self).cursor@,
    {
        let mut file = file;
        std::mem::swap(&mut self.file, &mut file);
        file
    }

    /// Puts `string` in at `index` of the shown version.
    pub fn insert_str_after(&mut self, index: usize, string: &str)
        requires
            old(self).file@.file.buffer.wf(),
            old(self).file@.file.buffer.version < usize::MAX,
            index <= old(self).file@.file.buffer.text().len(),
            is_char_boundary(old(self).file@.file.buffer.text(), index as int),
        ensures
            final(self).file@.file.buffer == inserted(old(self).file@.file.buffer, index as int, string.spec_bytes()),
            final(self).file@.file.buffer.wf(),
            final(self).file@.file.highlights == old(self).file@.file.highlights,
            final(self).file@.saved == false,
            final(self).file@.opened == old(self).file@.opened,
            final(self).file@.path == old(self).file@.path,
            final(self).cursor@ == old(self).cursor@,
    {
        self.file.insert_after_current(index, string);
    }

    /// Puts `string` in two bytes before `index` (at 0 where there are fewer) of the shown
    /// version.
    pub fn insert_str_before(&mut self, index: usize, string: &str)
        requires
            old(self).file@.file.buffer.wf(),
            old(self).file@.file.buffer.version < usize::MAX,
            crate::file::sub1(crate::file::sub1(index)) <= old(self).file@.file.buffer.text().len(),
            is_char_boundary(old(self).file@.file.buffer.text(), crate::file::sub1(crate::file::sub1(index)) as int),
        ensures
            final(self).file@.file.buffer == inserted(
                old(self).file@.file.buffer,
                crate::file::sub1(crate::file::sub1(index)) as int,
                string.spec_bytes(),
            ),
            final(self).file@.file.buffer.wf(),
            final(self).file@.file.highlights == old(self).file@.file.highlights,
            final(self).file@.saved == false,
            final(self).file@.opened == old(self).file@.opened,
            final(self).file@.path == old(self).file@.path,
            final(self).cursor@ == old(self).cursor@,
    {
        self.file.insert_before_current(index, string);
    }

    /// Puts `c` in at `index` of the shown version and moves the cursor one column right.
    pub fn insert_char(&mut self, index: usize, c: char)
        requires
            old(self).file@.file.buffer.wf(),
            old(self).file@.file.buffer.version < usize::MAX,
            index <= old(self).file@.file.buffer.text().len(),
            is_char_boundary(old(self).file@.file.buffer.text(), index as int),
            move_ok(
                old(self).cursor@,
                CursorMovement::Right,
                1,
                inserted(old(self).file@.file.buffer, index as int, encode_utf8(seq![c])),
            ),
        ensures
            final(self).file@.file.buffer == inserted(old(self).file@.file.buffer, index as int, encode_utf8(seq![c])),
            final(self).file@.file.highlights == old(self).file@.file.highlights,
            final(self).file@.saved == false,
            final(self).file@.opened == old(self).file@.opened,
            final(self).file@.path == old(self).file@.path,
            final(self).cursor@ == moved_in(old(self).cursor@, CursorMovement::Right, 1, final(self).file@.file.buffer),
    {
        let mut s = String::new();
        string_push(&mut s, c);
        assert(s@ =~= seq![c]);
        self.file.insert_after_current(index, s.as_str());
        self.cursor.move_cursor(CursorMovement::Right, 1, &self.file);
    }

    /// Deletes the byte before the cursor: where it is a line feed the cursor first goes up a
    /// row and to its end, else one column left. At the start of the file the range deleted is
    /// empty.
    pub fn backspace(&mut self)
        requires
            old(self).file@.file.buffer.wf(),
            old(self).file@.file.buffer.version < usize::MAX,
            line_count(old(self).file@.file.buffer.text()) >= 1,
            widths_fit(old(self).file@.file.buffer),
            ({
                let t = old(self).file@.file.buffer.text();
                let i = cursor_byte(t, old(self).cursor@);
                edit_fits(t, byte_deletion(if i > 0 { i - 1 } else { 0 }, if i > 0 { 1 } else { 0 }))
            }),
        ensures
            ({
                let f = old(self).file@.file.buffer;
                let t = f.text();
                let c = old(self).cursor@;
                let i = cursor_byte(t, c);
                let p = if i > 0 { i - 1 } else { 0 };
                &&& final(self).file@.file.buffer == f.edited(
                    apply_edit(t, byte_deletion(p, if i > 0 { 1 } else { 0 })),
                )
                &&& final(self).cursor@ == if t[p] == 10u8 {
                    moved_in(moved_in(c, CursorMovement::Up, 1, f), CursorMovement::LineEnd, 1, f)
                } else {
                    moved_in(c, CursorMovement::Left, 1, f)
                }
            }),
            final(self).file@.file.highlights == old(self).file@.file.highlights,
            final(self).file@.saved == false,
            final(self).file@.opened == old(self).file@.opened,
            final(self).file@.path == old(self).file@.path,
    {
        let index = self.get_current_byte_position();
        proof {
            crate::rope::lemma_line_start_bound(self.file@.file.buffer.text(), 0);
        }
        let prev = index.saturating_sub(1);
        if self.file.get_byte(prev) == 10u8 {
            self.cursor.move_cursor(CursorMovement::Up, 1, &self.file);
            self.cursor.move_cursor(CursorMovement::LineEnd, 1, &self.file);
        } else {
            self.cursor.move_cursor(CursorMovement::Left, 1, &self.file);
        }
        self.file.delete(prev..index);
    }

    /// Deletes the byte at the cursor.
    pub fn delete(&mut self)
        requires
            old(self).file@.file.buffer.wf(),
            old(self).file@.file.buffer.version < usize::MAX,
            line_count(old(self).file@.file.buffer.text()) >= 1,
            old(self).cursor@.col < usize::MAX,
            edit_fits(
                old(self).file@.file.buffer.text(),
                byte_deletion(cursor_byte(old(self).file@.file.buffer.text(), old(self).cursor@), 1),
            ),
        ensures
            ({
                let f = old(self).file@.file.buffer;
                let i = cursor_byte(f.text(), old(self).cursor@);
                final(self).file@.file.buffer == f.edited(apply_edit(f.text(), byte_deletion(i, 1)))
            }),
            final(self).cursor@ == old(self).cursor@,
            final(self).file@.file.highlights == old(self).file@.file.highlights,
            final(self).file@.saved == false,
            final(self).file@.opened == old(self).file@.opened,
            final(self).file@.path == old(self).file@.path,
    {
        let index = self.get_current_byte_position();
        let (col, row) = self.get_cursor();
        if self.file.get_byte_offset(col + 1, row).is_some() {
            self.file.delete(index..index + 1);
        }
    }

    /// Starts a new line at the cursor: a line feed is put in, and the cursor moves one
    /// column right, one row down and to the start of that row.
    pub fn newline(&mut self)
        requires
            old(self).file@.file.buffer.wf(),
            old(self).file@.file.buffer.version < usize::MAX,
            line_count(old(self).file@.file.buffer.text()) >= 1,
            ({
                let f = old(self).file@.file.buffer;
                let i = cursor_byte(f.text(), old(self).cursor@);
                let g = inserted(f, i, seq![10u8]);
                let c1 = moved_in(old(self).cursor@, CursorMovement::Right, 1, g);
                &&& move_ok(old(self).cursor@, CursorMovement::Right, 1, g)
                &&& move_ok(c1, CursorMovement::Down, 1, g)
            }),
        ensures
            ({
                let f = old(self).file@.file.buffer;
                let i = cursor_byte(f.text(), old(self).cursor@);
                let g = inserted(f, i, seq![10u8]);
                let c1 = moved_in(old(self).cursor@, CursorMovement::Right, 1, g);
                let c2 = moved_in(c1, CursorMovement::Down, 1, g);
                &&& final(self).file@.file.buffer == g
                &&& final(self).cursor@ == moved_in(c2, CursorMovement::LineStart, 1, g)
            }),
            final(self).file@.file.highlights == old(self).file@.file.highlights,
            final(self).file@.saved == false,
            final(self).file@.opened == old(self).file@.opened,
            final(self).file@.path == old(self).file@.path,
    {
        let index = self.get_current_byte_position();
        proof {
            lemma_byte_offset_at_bound(self.file@.file.buffer.text(), self.cursor@.col, self.cursor@.row);
            assert(encode_utf8(seq!['\n']) =~= seq![10u8]) by {
                lemma_encode_line_feed();
            }
        }
        self.insert_char(index, '\n');
        self.cursor.move_cursor(CursorMovement::Down, 1, &self.file);
        self.cursor.move_cursor(CursorMovement::LineStart, 1, &self.file);
    }

    /// Puts a tab in at the cursor: `tab_size` spaces and as many columns right where spaces
    /// are used, else a tab character and one column right.
    pub fn tab(&mut self, tab_size: u8, use_spaces: bool)
        requires
            old(self).file@.file.buffer.wf(),
            old(self).file@.file.buffer.version < usize::MAX,
            line_count(old(self).file@.file.buffer.text()) >= 1,
            ({
                let f = old(self).file@.file.buffer;
                let i = cursor_byte(f.text(), old(self).cursor@);
                let s = if use_spaces { spaces(tab_size as nat) } else { seq!['\t'] };
                let n: nat = if use_spaces { tab_size as nat } else { 1 };
                &&& move_ok(old(self).cursor@, CursorMovement::Right, n, inserted(f, i, encode_utf8(s)))
            }),
        ensures
            ({
                let f = old(self).file@.file.buffer;
                let i = cursor_byte(f.text(), old(self).cursor@);
                let s = if use_spaces { spaces(tab_size as nat) } else { seq!['\t'] };
                let n: nat = if use_spaces { tab_size as nat } else { 1 };
                let g = inserted(f, i, encode_utf8(s));
                &&& final(self).file@.file.buffer == g
                &&& final(self).cursor@ == moved_in(old(self).cursor@, CursorMovement::Right, n, g)
            }),
            final(self).file@.file.highlights == old(self).file@.file.highlights,
            final(self).file@.saved == false,
            final(self).file@.opened == old(self).file@.opened,
            final(self).file@.path == old(self).file@.path,
    {
        let index = self.get_current_byte_position();
        proof {
            lemma_byte_offset_at_bound(self.file@.file.buffer.text(), self.cursor@.col, self.cursor@.row);
        }
        if use_spaces {
            let mut s = String::new();
            let mut k: u8 = 0;
            while k < tab_size
                invariant
                    k <= tab_size,
                    s@ =~= spaces(k as nat),
                decreases tab_size - k,
            {
                string_push(&mut s, ' ');
                k = k + 1;
            }
            self.insert_str_after(index, s.as_str());
            self.cursor.move_cursor(CursorMovement::Right, tab_size as usize, &self.file);
        } else {
            let mut s = String::new();
            string_push(&mut s, '\t');
            assert(s@ =~= seq!['\t']);
            self.insert_str_after(index, s.as_str());
            self.cursor.move_cursor(CursorMovement::Right, 1, &self.file);
        }
    }
}

/// The byte at which a cursor stands lies inside the text, on a character boundary.
pub proof fn lemma_byte_offset_at_bound(t: Seq<u8>, x: nat, y: nat)
    requires
        valid_utf8(t),
    ensures
        byte_offset_at(t, x, y) <= t.len(),
        is_char_boundary(t, byte_offset_at(t, x, y) as int),
{
    is_char_boundary_start_end_of_seq(t);
    if y + 1 < line_count(t) {
        let base = line_start(t, y) as int;
        let k = encode_utf8(line_prefix(t, y, x)).len() as int;
        lemma_line_start_bound(t, y);
        lemma_line_start_boundary(t, y);
        lemma_back_to_boundary_bound(t, base, k);
        lemma_back_to_boundary_is_boundary(t, base, k);
    }
}

/// Stepping back to a boundary from a boundary `base` ends on a boundary.
proof fn lemma_back_to_boundary_is_boundary(t: Seq<u8>, base: int, x: int)
    requires
        valid_utf8(t),
        is_char_boundary(t, base),
        x >= 0,
    ensures
        is_char_boundary(t, back_to_boundary(t, base, x)),
    decreases x,
{
    if x <= 0 || is_char_boundary(t, base + x) {
    } else {
        lemma_back_to_boundary_is_boundary(t, base, x - 1);
    }
}

/// A line feed is encoded as the one byte 10.
proof fn lemma_encode_line_feed()
    ensures
        encode_utf8(seq!['\n']) == seq![10u8],
{
    let s = seq!['\n'];
    assert(s.drop_first() =~= Seq::<char>::empty());
    assert(encode_utf8(s.drop_first()) == Seq::<u8>::empty());
    assert(('\n' as u32) == 10u32);
    assert((10u32 & 0x7F) as u8 == 10u8) by (bit_vector);
    assert(encode_scalar(10u32) =~= seq![10u8]);
    assert(encode_utf8(s) =~= seq![10u8]);
}

/// What copying at the cursor gives: a text; several texts, the runs of a selection that has
/// other than one; no word, where the cursor is not on one; nothing, where nothing is
/// selected; or no answer, where the file has nothing the verb asks for at the cursor or the
/// verb is unknown, and the editor stops.
pub enum Copied {
    Text(String),
    Multi(Vec<String>),
    NoWord,
    Nothing,
    Invalid,
}

/// Copying the selection: nothing where no byte is highlighted; else the text of the one
/// selected run, or the texts of the selected runs where there are other than one.
pub open spec fn copied_selection(f: FileView, r: Copied) -> bool {
    let texts = runs_chars(f.buffer.text(), selected_runs(runs_below(f.highlights, f.buffer.text().len())));
    if f.highlights == Set::<usize>::empty() {
        r is Nothing
    } else if texts.len() == 1 {
        r matches Copied::Text(s) && s@ == texts[0]
    } else {
        r matches Copied::Multi(v) && crate::registers::texts_view(v@) == texts
    }
}

/// The characters of row `row` of the text `t`, with its line break.
pub open spec fn line_chars(t: Seq<u8>, row: nat) -> Seq<char> {
    decode_utf8(crate::rope::raw_line_bytes(t, row))
}


/// Copying the character at the cursor: its text, or nothing where no character starts there.
pub open spec fn copied_char(t: Seq<u8>, c: CursorView, r: Copied) -> bool {
    match crate::words::char_at(t, cursor_byte(t, c)) {
        Some(ch) => r matches Copied::Text(s) && s@ == seq![ch],
        None => r is Invalid,
    }
}

/// Copying the cursor's line: its bytes with the line break, or nothing past the last line.
pub open spec fn copied_line(t: Seq<u8>, c: CursorView, r: Copied) -> bool {
    if c.row < line_count(t) {
        r matches Copied::Text(s) && string_bytes(s) == crate::rope::raw_line_bytes(t, c.row)
    } else {
        r is Invalid
    }
}

/// Copying the word at the cursor: its bytes, or no word where the cursor is not on a letter or
/// digit.
pub open spec fn copied_word(t: Seq<u8>, c: CursorView, r: Copied) -> bool {
    let i = cursor_byte(t, c);
    if i < t.len() && crate::chars::spec_is_alphanumeric(crate::words::char_at(t, i)->0) {
        r matches Copied::Text(s) && string_bytes(s) == t.subrange(
            crate::words::back_over_word(t, i)->0,
            crate::words::forward_over_word(t, i),
        )
    } else {
        r is NoWord
    }
}

/// Copying from the cursor to the next word: those bytes, or nothing at the end of the text.
pub open spec fn copied_to_next_word(t: Seq<u8>, c: CursorView, r: Copied) -> bool {
    let i = cursor_byte(t, c);
    if i < t.len() {
        r matches Copied::Text(s) && string_bytes(s) == t.subrange(i, crate::words::next_word_scan(t, i, false))
    } else {
        r is Invalid
    }
}

/// Copying from the previous word to the cursor: those bytes, or nothing at the end of the
/// text.
pub open spec fn copied_to_prev_word(t: Seq<u8>, c: CursorView, r: Copied) -> bool {
    let i = cursor_byte(t, c);
    if i < t.len() {
        r matches Copied::Text(s) && string_bytes(s) == t.subrange(crate::words::prev_word_scan(t, i, false)->0, i)
    } else {
        r is Invalid
    }
}

/// Copying to the end of the line: the line's characters from the one before the cursor on,
/// or nothing in the first column or past the last line.
pub open spec fn copied_to_end_line(t: Seq<u8>, c: CursorView, r: Copied) -> bool {
    let lc = line_chars(t, c.row);
    if c.row < line_count(t) && c.col >= 1 {
        r matches Copied::Text(s) && s@ == (if c.col - 1 <= lc.len() {
            lc.skip(c.col - 1)
        } else {
            Seq::<char>::empty()
        })
    } else {
        r is Invalid
    }
}

/// Copying to the start of the line: the line's characters before the cursor, or nothing past
/// the last line.
pub open spec fn copied_to_start_line(t: Seq<u8>, c: CursorView, r: Copied) -> bool {
    let lc = line_chars(t, c.row);
    if c.row < line_count(t) {
        r matches Copied::Text(s) && s@ == lc.take(if c.col <= lc.len() {
            c.col as int
        } else {
            lc.len() as int
        })
    } else {
        r is Invalid
    }
}

impl TextBuffer {
    /// What the `copy` command with `verb` takes from the file at the cursor: the character,
    /// the line, the word, the text to the next or from the previous word, or the line from
    /// the character before the cursor on or up to the cursor.
    pub fn copied_text(&self, verb: &str) -> (r: Copied)
        requires
            self.file@.file.buffer.wf(),
            line_count(self.file@.file.buffer.text()) >= 1,
            verb@ == "word"@ ==> crate::words::word_walk_ok(
                self.file@.file.buffer.text(),
                cursor_byte(self.file@.file.buffer.text(), self.cursor@),
            ),
            verb@ == "to_next_word"@ ==> ({
                let t = self.file@.file.buffer.text();
                let i = cursor_byte(t, self.cursor@);
                i < t.len() ==> is_char_boundary(t, i) && is_char_boundary(
                    t,
                    crate::words::next_word_scan(t, i, false),
                )
            }),
            verb@ == "to_prev_word"@ ==> ({
                let t = self.file@.file.buffer.text();
                let i = cursor_byte(t, self.cursor@);
                i < t.len() ==> (crate::words::prev_word_scan(t, i, false) matches Some(p) && is_char_boundary(t, p)
                    && is_char_boundary(t, i))
            }),
            verb@ == "selection"@ ==> highlights_below(
                self.file@.file.highlights,
                self.file@.file.buffer.text().len() as int,
            ),
        ensures
            verb@ == "char"@ ==> copied_char(self.file@.file.buffer.text(), self.cursor@, r),
            verb@ == "line"@ ==> copied_line(self.file@.file.buffer.text(), self.cursor@, r),
            verb@ == "word"@ ==> copied_word(self.file@.file.buffer.text(), self.cursor@, r),
            verb@ == "to_next_word"@ ==> copied_to_next_word(self.file@.file.buffer.text(), self.cursor@, r),
            verb@ == "to_prev_word"@ ==> copied_to_prev_word(self.file@.file.buffer.text(), self.cursor@, r),
            verb@ == "to_end_line"@ ==> copied_to_end_line(self.file@.file.buffer.text(), self.cursor@, r),
            verb@ == "to_start_line"@ ==> copied_to_start_line(self.file@.file.buffer.text(), self.cursor@, r),
            verb@ == "selection"@ ==> copied_selection(self.file@.file, r),
            verb@ != "char"@ && verb@ != "line"@ && verb@ != "word"@ && verb@ != "to_next_word"@ && verb@
                != "to_prev_word"@ && verb@ != "to_end_line"@ && verb@ != "to_start_line"@ && verb@ != "selection"@
                ==> r is Invalid,
    {
        proof {
            lemma_verbs_differ();
        }
        let (col, row) = self.get_cursor();
        if crate::file::str_eq(verb, "char") {
            let at = self.get_current_byte_position();
            match self.file.get_char_at(at) {
                Some(c) => Copied::Text(crate::styled::char_string(c)),
                None => Copied::Invalid,
            }
        } else if crate::file::str_eq(verb, "line") {
            match self.file.get_line(row) {
                Some(l) => Copied::Text(l),
                None => Copied::Invalid,
            }
        } else if crate::file::str_eq(verb, "word") {
            let at = self.get_current_byte_position();
            match self.file.get_word(at) {
                Some(w) => Copied::Text(w),
                None => Copied::NoWord,
            }
        } else if crate::file::str_eq(verb, "to_next_word") {
            let at = self.get_current_byte_position();
            match self.file.get_until_next_word(at) {
                Some(w) => Copied::Text(w),
                None => Copied::Invalid,
            }
        } else if crate::file::str_eq(verb, "to_prev_word") {
            let at = self.get_current_byte_position();
            match self.file.get_until_prev_word(at) {
                Some(w) => Copied::Text(w),
                None => Copied::Invalid,
            }
        } else if crate::file::str_eq(verb, "to_end_line") {
            match self.file.get_line(row) {
                Some(l) => {
                    if col == 0 {
                        Copied::Invalid
                    } else {
                        proof {
                            vstd::utf8::encode_utf8_decode_utf8(l@);
                        }
                        Copied::Text(crate::line_edit::chars_from(l.as_str(), col - 1))
                    }
                },
                None => Copied::Invalid,
            }
        } else if crate::file::str_eq(verb, "to_start_line") {
            match self.file.get_line(row) {
                Some(l) => {
                    proof {
                        vstd::utf8::encode_utf8_decode_utf8(l@);
                    }
                    Copied::Text(crate::line_edit::chars_until(l.as_str(), col))
                },
                None => Copied::Invalid,
            }
        } else if crate::file::str_eq(verb, "selection") {
            match self.file.get_highlighted() {
                Some(texts) => {
                    if texts.len() == 1 {
                        let mut texts = texts;
                        proof {
                            assert(crate::registers::texts_view(texts@)[0] == texts@[0]@);
                        }
                        Copied::Text(texts.remove(0))
                    } else {
                        Copied::Multi(texts)
                    }
                },
                None => Copied::Nothing,
            }
        } else {
            Copied::Invalid
        }
    }
}

/// What deleting at the cursor did: the text is deleted, or the verb is unknown and nothing
/// changes.
pub enum Deleted {
    Done,
    Unknown,
}

/// The edits that deleting the selection of `f` makes: the deletions of its runs, from the
/// last to the first.
pub open spec fn selection_deletions(f: FileView) -> Seq<Edit> {
    deleted_runs(runs_below(f.highlights, f.buffer.text().len())).map_values(|r: (usize, usize)| run_deletion(r))
}

/// The buffer of `f` after its selection was deleted, as `File::delete_highlighted` deletes it.
pub open spec fn after_selection_deletion(f: FileView) -> BufferView {
    f.buffer.branch_if_first().with_text(crate::buffer::apply_edits(f.buffer.text(), selection_deletions(f))).bumped()
}

/// The least highlighted byte of `f`.
pub open spec fn first_highlight(f: FileView) -> int {
    runs_below(f.highlights, f.buffer.text().len())[0].0 as int
}

/// Whether the selection of `f` can be deleted and the cursor put where it began: some byte
/// is highlighted, every highlighted byte lies in the text, the deletions fit the text, and
/// the least highlighted byte lies in the text that is left.
pub open spec fn selection_deletable(f: FileView) -> bool {
    &&& f.highlights != Set::<usize>::empty()
    &&& highlights_below(f.highlights, f.buffer.text().len() as int)
    &&& crate::buffer::edits_fit(f.buffer.text(), selection_deletions(f))
    &&& first_highlight(f) < after_selection_deletion(f).text().len()
}

/// The deletion of the bytes from `start` to `end`.
pub open spec fn byte_span(start: int, end: int) -> Edit {
    Edit { start, end, text: Seq::empty() }
}

/// The buffer `f` after `e` was made in a new version.
pub open spec fn after_edit(f: BufferView, e: Edit) -> BufferView {
    f.edited(apply_edit(f.text(), e))
}

/// The buffer `f` after its row `row` was deleted, as `File::delete_line` deletes it.
pub open spec fn after_line_deletion(f: BufferView, row: nat) -> BufferView {
    f.edited(
        f.text().take(crate::rope::line_start(f.text(), row) as int) + f.text().skip(
            crate::words::line_deletion_end(f.text(), row),
        ),
    )
}

/// The buffer `f` after the word around byte `i` was deleted, as `File::delete_word` deletes
/// it.
pub open spec fn after_word_deletion(f: BufferView, i: int) -> BufferView {
    f.edited(
        f.text().take(crate::words::word_bounds(f.text(), i).0) + f.text().skip(
            crate::words::word_bounds(f.text(), i).1,
        ),
    )
}

/// The number of bytes of the characters of the cursor's line before the cursor.
pub open spec fn prefix_bytes(t: Seq<u8>, c: CursorView) -> int {
    let lc = line_chars(t, c.row);
    encode_utf8(lc.take(if c.col <= lc.len() {
        c.col as int
    } else {
        lc.len() as int
    })).len() as int
}

/// The cursor placed on the character that holds byte `b` of `t`.
pub open spec fn cursor_at_byte(c: CursorView, t: Seq<u8>, b: int) -> CursorView {
    CursorView {
        col: crate::words::cursor_of_byte(t, b).0 as nat,
        row: crate::words::cursor_of_byte(t, b).1 as nat,
        ..c
    }
}


/// What deleting with `verb` needs of the buffer `f` and the cursor `c`, besides the
/// selection: the ranges it deletes lie in the text on character boundaries, and where the
/// cursor goes to where the deleted text began, that byte lies in the text that is left.
pub open spec fn delete_ok(f: BufferView, c: CursorView, verb: Seq<char>) -> bool {
    let t = f.text();
    let i = cursor_byte(t, c);
    &&& verb == "char"@ ==> edit_fits(t, byte_span(i, i + 1))
    &&& verb == "line"@ ==> c.row <= line_count(t)
    &&& verb == "word"@ ==> (i == t.len() || crate::words::word_at(t, i)) && crate::words::word_bounds(t, i).0
        < after_word_deletion(f, i).text().len()
    &&& verb == "to_next_word"@ ==> i < t.len() && is_char_boundary(t, i) && edit_fits(
        t,
        byte_span(i, crate::words::next_word_scan(t, i, false)),
    )
    &&& verb == "to_prev_word"@ ==> i < t.len() && is_char_boundary(t, i) && (crate::words::prev_word_scan(
        t,
        i,
        false,
    ) matches Some(p) && edit_fits(t, byte_span(p, i)) && p < after_edit(f, byte_span(p, i)).text().len())
    &&& verb == "to_end_line"@ ==> c.row < line_count(t) && edit_fits(
        t,
        byte_span(i, i + crate::rope::raw_line_bytes(t, c.row).len()),
    )
    &&& verb == "to_start_line"@ ==> c.row < line_count(t) && prefix_bytes(t, c) <= i && edit_fits(
        t,
        byte_span(i - prefix_bytes(t, c), i),
    ) && i - prefix_bytes(t, c) < after_edit(f, byte_span(i - prefix_bytes(t, c), i)).text().len()
}

impl TextBuffer {
    /// The `delete` command with `verb`: deletes the character at the cursor, the cursor's
    /// line, the word around it, the text to the next or from the previous word, as many bytes
    /// from the cursor on as the line has, or the line's text before the cursor; the cursor
    /// goes to the start of the line, or to where the deleted text began, as the verb has it.
    pub fn delete_text(&mut self, verb: &str) -> (r: Deleted)
        requires
            old(self).file@.file.buffer.wf(),
            old(self).file@.file.buffer.version < usize::MAX,
            line_count(old(self).file@.file.buffer.text()) >= 1,
            delete_ok(old(self).file@.file.buffer, old(self).cursor@, verb@),
            verb@ == "selection"@ ==> selection_deletable(old(self).file@.file),
        ensures
            verb@ == "char"@ ==> r is Done && final(self).file@.file.buffer == after_edit(old(self).file@.file.buffer, byte_span(cursor_byte(old(self).file@.file.buffer.text(), old(self).cursor@), cursor_byte(old(self).file@.file.buffer.text(), old(self).cursor@) + 1))
                && final(self).cursor@ == old(self).cursor@,
            verb@ == "line"@ ==> r is Done && final(self).file@.file.buffer == after_line_deletion(old(self).file@.file.buffer, old(self).cursor@.row)
                && final(self).cursor@ == moved_in(old(self).cursor@, CursorMovement::LineStart, 1, after_line_deletion(old(self).file@.file.buffer, old(self).cursor@.row)),
            verb@ == "word"@ ==> r is Done && final(self).file@.file.buffer == after_word_deletion(old(self).file@.file.buffer, cursor_byte(old(self).file@.file.buffer.text(), old(self).cursor@))
                && final(self).cursor@ == cursor_at_byte(old(self).cursor@, after_word_deletion(old(self).file@.file.buffer, cursor_byte(old(self).file@.file.buffer.text(), old(self).cursor@)).text(), crate::words::word_bounds(old(self).file@.file.buffer.text(), cursor_byte(old(self).file@.file.buffer.text(), old(self).cursor@)).0),
            verb@ == "to_next_word"@ ==> r is Done && final(self).file@.file.buffer == after_edit(old(self).file@.file.buffer, byte_span(cursor_byte(old(self).file@.file.buffer.text(), old(self).cursor@), crate::words::next_word_scan(old(self).file@.file.buffer.text(), cursor_byte(old(self).file@.file.buffer.text(), old(self).cursor@), false)))
                && final(self).cursor@ == old(self).cursor@,
            verb@ == "to_prev_word"@ ==> r is Done && final(self).file@.file.buffer == after_edit(old(self).file@.file.buffer, byte_span(crate::words::prev_word_scan(old(self).file@.file.buffer.text(), cursor_byte(old(self).file@.file.buffer.text(), old(self).cursor@), false)->0, cursor_byte(old(self).file@.file.buffer.text(), old(self).cursor@)))
                && final(self).cursor@ == cursor_at_byte(old(self).cursor@, after_edit(old(self).file@.file.buffer, byte_span(crate::words::prev_word_scan(old(self).file@.file.buffer.text(), cursor_byte(old(self).file@.file.buffer.text(), old(self).cursor@), false)->0, cursor_byte(old(self).file@.file.buffer.text(), old(self).cursor@))).text(), crate::words::prev_word_scan(old(self).file@.file.buffer.text(), cursor_byte(old(self).file@.file.buffer.text(), old(self).cursor@), false)->0),
            verb@ == "to_end_line"@ ==> r is Done && final(self).file@.file.buffer == after_edit(old(self).file@.file.buffer, byte_span(cursor_byte(old(self).file@.file.buffer.text(), old(self).cursor@), cursor_byte(old(self).file@.file.buffer.text(), old(self).cursor@) + crate::rope::raw_line_bytes(old(self).file@.file.buffer.text(), old(self).cursor@.row).len()))
                && final(self).cursor@ == old(self).cursor@,
            verb@ == "to_start_line"@ ==> r is Done && final(self).file@.file.buffer == after_edit(old(self).file@.file.buffer, byte_span(cursor_byte(old(self).file@.file.buffer.text(), old(self).cursor@) - prefix_bytes(old(self).file@.file.buffer.text(), old(self).cursor@), cursor_byte(old(self).file@.file.buffer.text(), old(self).cursor@)))
                && final(self).cursor@ == cursor_at_byte(old(self).cursor@, after_edit(old(self).file@.file.buffer, byte_span(cursor_byte(old(self).file@.file.buffer.text(), old(self).cursor@) - prefix_bytes(old(self).file@.file.buffer.text(), old(self).cursor@), cursor_byte(old(self).file@.file.buffer.text(), old(self).cursor@))).text(), cursor_byte(old(self).file@.file.buffer.text(), old(self).cursor@) - prefix_bytes(old(self).file@.file.buffer.text(), old(self).cursor@)),
            verb@ == "selection"@ ==> r is Done && final(self).file@.file.buffer == after_selection_deletion(old(self).file@.file)
                && final(self).cursor@ == cursor_at_byte(old(self).cursor@, after_selection_deletion(old(self).file@.file).text(), first_highlight(old(self).file@.file)),
            verb@ != "char"@ && verb@ != "line"@ && verb@ != "word"@ && verb@ != "to_next_word"@ && verb@ != "to_prev_word"@
                && verb@ != "to_end_line"@ && verb@ != "to_start_line"@ && verb@ != "selection"@ ==> r is Unknown
                && final(self).file@ == old(self).file@ && final(self).cursor@ == old(self).cursor@,
            final(self).file@.file.highlights == old(self).file@.file.highlights,
    {
        proof {
            lemma_verbs_differ();
        }
        let (col, row) = self.get_cursor();
        if crate::file::str_eq(verb, "char") {
            let at = self.get_current_byte_position();
            self.file.delete(at..at + 1);
            Deleted::Done
        } else if crate::file::str_eq(verb, "line") {
            self.file.delete_line(row);
            self.cursor.to_line_start();
            Deleted::Done
        } else if crate::file::str_eq(verb, "word") {
            let at = self.get_current_byte_position();
            let start = self.file.delete_word(at);
            self.set_cursor_to_byte_position(start);
            Deleted::Done
        } else if crate::file::str_eq(verb, "to_next_word") {
            let at = self.get_current_byte_position();
            match self.file.get_until_next_word(at) {
                Some(w) => {
                    let n = crate::buffer::str_byte_len(w.as_str());
                    self.file.delete(at..at + n);
                },
                None => {},
            }
            Deleted::Done
        } else if crate::file::str_eq(verb, "to_prev_word") {
            let at = self.get_current_byte_position();
            match self.file.get_until_prev_word(at) {
                Some(w) => {
                    let n = crate::buffer::str_byte_len(w.as_str());
                    self.file.delete(at - n..at);
                    self.set_cursor_to_byte_position(at - n);
                },
                None => {},
            }
            Deleted::Done
        } else if crate::file::str_eq(verb, "to_end_line") {
            let at = self.get_current_byte_position();
            match self.file.get_line(row) {
                Some(l) => {
                    let n = crate::buffer::str_byte_len(l.as_str());
                    self.file.delete(at..at + n);
                },
                None => {},
            }
            Deleted::Done
        } else if crate::file::str_eq(verb, "to_start_line") {
            let at = self.get_current_byte_position();
            match self.file.get_line(row) {
                Some(l) => {
                    proof {
                        vstd::utf8::encode_utf8_decode_utf8(l@);
                    }
                    let prefix = crate::line_edit::chars_until(l.as_str(), col);
                    let n = crate::buffer::str_byte_len(prefix.as_str());
                    self.file.delete(at - n..at);
                    self.set_cursor_to_byte_position(at - n);
                },
                None => {},
            }
            Deleted::Done
        } else if crate::file::str_eq(verb, "selection") {
            let ghost f0 = self.file@.file;
            let start = self.file.delete_highlighted();
            proof {
                let rs = runs_below(f0.highlights, f0.buffer.text().len());
                crate::selection::lemma_runs_shape(f0.highlights, f0.buffer.text().len());
                if rs.len() == 0 {
                    assert(f0.highlights =~= Set::<usize>::empty());
                }
                let m = rs[0].0;
                assert(f0.highlights.contains(m));
                if start < m {
                    assert(!f0.highlights.contains(start));
                }
                if m < start {
                    assert(!f0.highlights.contains(m));
                }
                assert(start == first_highlight(f0));
            }
            self.set_cursor_to_byte_position(start);
            Deleted::Done
        } else {
            Deleted::Unknown
        }
    }
}

/// The command verbs differ from each other, by their first or fourth character.
proof fn lemma_verbs_differ()
    ensures
        "char"@ != "line"@,
        "char"@ != "word"@,
        "char"@ != "to_next_word"@,
        "char"@ != "to_prev_word"@,
        "char"@ != "to_end_line"@,
        "char"@ != "to_start_line"@,
        "char"@ != "selection"@,
        "line"@ != "word"@,
        "line"@ != "to_next_word"@,
        "line"@ != "to_prev_word"@,
        "line"@ != "to_end_line"@,
        "line"@ != "to_start_line"@,
        "line"@ != "selection"@,
        "word"@ != "to_next_word"@,
        "word"@ != "to_prev_word"@,
        "word"@ != "to_end_line"@,
        "word"@ != "to_start_line"@,
        "word"@ != "selection"@,
        "to_next_word"@ != "to_prev_word"@,
        "to_next_word"@ != "to_end_line"@,
        "to_next_word"@ != "to_start_line"@,
        "to_next_word"@ != "selection"@,
        "to_prev_word"@ != "to_end_line"@,
        "to_prev_word"@ != "to_start_line"@,
        "to_prev_word"@ != "selection"@,
        "to_end_line"@ != "to_start_line"@,
        "to_end_line"@ != "selection"@,
        "to_start_line"@ != "selection"@,
{
    reveal_strlit("char");
    reveal_strlit("line");
    reveal_strlit("word");
    reveal_strlit("to_next_word");
    reveal_strlit("to_prev_word");
    reveal_strlit("to_end_line");
    reveal_strlit("to_start_line");
    reveal_strlit("selection");
    assert("char"@[0] != "line"@[0]
        && "char"@[0] != "word"@[0]
        && "char"@[0] != "to_next_word"@[0]
        && "char"@[0] != "to_prev_word"@[0]
        && "char"@[0] != "to_end_line"@[0]
        && "char"@[0] != "to_start_line"@[0]
        && "char"@[0] != "selection"@[0]
        && "line"@[0] != "word"@[0]
        && "line"@[0] != "to_next_word"@[0]
        && "line"@[0] != "to_prev_word"@[0]
        && "line"@[0] != "to_end_line"@[0]
        && "line"@[0] != "to_start_line"@[0]
        && "line"@[0] != "selection"@[0]
        && "word"@[0] != "to_next_word"@[0]
        && "word"@[0] != "to_prev_word"@[0]
        && "word"@[0] != "to_end_line"@[0]
        && "word"@[0] != "to_start_line"@[0]
        && "word"@[0] != "selection"@[0]
        && "to_next_word"@[3] != "to_prev_word"@[3]
        && "to_next_word"@[3] != "to_end_line"@[3]
        && "to_next_word"@[3] != "to_start_line"@[3]
        && "to_next_word"@[0] != "selection"@[0]
        && "to_prev_word"@[3] != "to_end_line"@[3]
        && "to_prev_word"@[3] != "to_start_line"@[3]
        && "to_prev_word"@[0] != "selection"@[0]
        && "to_end_line"@[3] != "to_start_line"@[3]
        && "to_end_line"@[0] != "selection"@[0]
        && "to_start_line"@[0] != "selection"@[0]);
}

/// The row and the offset in it of a place that a search of a file answers: an opened file
/// answers the offset first, a file without a path the row first.
pub open spec fn place_parts(p: (usize, usize), opened: bool) -> (usize, usize) {
    if opened {
        (p.1, p.0)
    } else {
        (p.0, p.1)
    }
}

/// The byte at which the match at the place `p` starts in `t`: the start of its row plus its
/// offset in the row.
pub open spec fn place_start(t: Seq<u8>, p: (usize, usize), opened: bool) -> int {
    byte_offset_at(t, 0, place_parts(p, opened).0 as nat) + place_parts(p, opened).1
}

impl TextBuffer {
    /// The bytes at which the places that a search of the file found start: the start of the
    /// row plus the place's offset in it. Nothing where one of them lies past the largest
    /// `usize`.
    pub fn found_starts(&self, found: &Vec<(usize, usize)>) -> (r: Option<Vec<usize>>)
        requires
            self.file@.file.buffer.wf(),
            line_count(self.file@.file.buffer.text()) >= 1,
        ensures
            r is None <==> exists|j: int|
                0 <= j < found@.len() && place_start(self.file@.file.buffer.text(), #[trigger] found@[j], self.file@.opened)
                    > usize::MAX,
            r matches Some(v) ==> v@.len() == found@.len() && forall|j: int|
                0 <= j < found@.len() ==> v@[j] == place_start(
                    self.file@.file.buffer.text(),
                    #[trigger] found@[j],
                    self.file@.opened,
                ),
    {
        let opened = self.file.is_opened();
        let ghost t = self.file@.file.buffer.text();
        let mut out: Vec<usize> = Vec::new();
        let mut j: usize = 0;
        while j < found.len()
            invariant
                j <= found@.len(),
                opened == self.file@.opened,
                t == self.file@.file.buffer.text(),
                self.file@.file.buffer.wf(),
                line_count(t) >= 1,
                out@.len() == j,
                forall|k: int| 0 <= k < j ==> out@[k] == place_start(t, #[trigger] found@[k], opened),
            decreases found.len() - j,
        {
            let p = found[j];
            let (line, index) = if opened {
                (p.1, p.0)
            } else {
                (p.0, p.1)
            };
            let start = match self.file.get_byte_offset(line, 0) {
                Some(s) => s,
                None => 0,
            };
            proof {
                lemma_byte_offset_at_bound(t, 0, line as nat);
            }
            match start.checked_add(index) {
                Some(b) => {
                    let ghost before = out@;
                    out.push(b);
                    proof {
                        assert forall|k: int| 0 <= k < j + 1 implies out@[k] == place_start(t, #[trigger] found@[k], opened) by {
                            if k < j {
                                assert(out@[k] == before[k]);
                            }
                        }
                    }
                },
                None => {
                    assert(place_start(t, found@[j as int], opened) > usize::MAX);
                    return None;
                },
            }
            j = j + 1;
        }
        Some(out)
    }
}

impl TextBuffer {
    /// Whether `delete_text` can run with `verb` here, as `delete_ok` says; for the selection,
    /// whether some byte of the text is highlighted (the rest of what deleting the selection
    /// needs is not tested here).
    pub fn delete_allowed(&self, verb: &str) -> (b: bool)
        requires
            self.file@.file.buffer.wf(),
            line_count(self.file@.file.buffer.text()) >= 1,
        ensures
            verb@ != "selection"@ ==> b == delete_ok(self.file@.file.buffer, self.cursor@, verb@),
            verb@ == "selection"@ ==> (b <==> exists|x: usize|
                x < self.file@.file.buffer.text().len() && #[trigger] self.file@.file.highlights.contains(x)),
    {
        proof {
            lemma_verbs_differ();
        }
        let ghost f = self.file@.file.buffer;
        let ghost t = f.text();
        let n = self.file.byte_count();
        let i = self.get_current_byte_position();
        let (col, row) = self.get_cursor();
        proof {
            lemma_byte_offset_at_bound(t, self.cursor@.col, self.cursor@.row);
        }
        if crate::file::str_eq(verb, "char") {
            i < n && self.file.is_boundary(i) && self.file.is_boundary(i + 1)
        } else if crate::file::str_eq(verb, "line") {
            row <= self.file.get_line_count()
        } else if crate::file::str_eq(verb, "word") {
            let at_word = match self.file.get_char_at(i) {
                Some(c) => crate::chars::is_word(c),
                None => false,
            };
            let (s, e) = self.file.word_bounds_at(i);
            proof {
                assert(after_word_deletion(f, i as int).text() =~= t.take(s as int) + t.skip(e as int));
            }
            (i == n || at_word) && e < n
        } else if crate::file::str_eq(verb, "to_next_word") {
            if i < n && self.file.is_boundary(i) {
                let e = self.file.next_word_end(i);
                proof {
                    crate::words::lemma_next_word_scan(t, i as int, false);
                }
                self.file.is_boundary(e)
            } else {
                false
            }
        } else if crate::file::str_eq(verb, "to_prev_word") {
            if i < n && self.file.is_boundary(i) {
                match self.file.prev_word_start(i) {
                    Some(p) => {
                        proof {
                            crate::words::lemma_prev_word_scan(t, i as int, false);
                            assert(after_edit(f, byte_span(p as int, i as int)).text().len() == n - (i - p));
                        }
                        self.file.is_boundary(p) && p < n - (i - p)
                    },
                    None => false,
                }
            } else {
                false
            }
        } else if crate::file::str_eq(verb, "to_end_line") {
            if row < self.file.get_line_count() {
                match self.file.get_line(row) {
                    Some(l) => {
                        let len = crate::buffer::str_byte_len(l.as_str());
                        len <= n - i && self.file.is_boundary(i) && self.file.is_boundary(i + len)
                    },
                    None => false,
                }
            } else {
                false
            }
        } else if crate::file::str_eq(verb, "to_start_line") {
            if row < self.file.get_line_count() {
                match self.file.get_line(row) {
                    Some(l) => {
                        proof {
                            vstd::utf8::encode_utf8_decode_utf8(l@);
                        }
                        let prefix = crate::line_edit::chars_until(l.as_str(), col);
                        let len = crate::buffer::str_byte_len(prefix.as_str());
                        if len <= i {
                            proof {
                                assert(after_edit(f, byte_span(i - len, i as int)).text().len() == n - len);
                            }
                            self.file.is_boundary(i - len) && self.file.is_boundary(i) && i - len < n - len
                        } else {
                            false
                        }
                    },
                    None => false,
                }
            } else {
                false
            }
        } else if crate::file::str_eq(verb, "selection") {
            let v = self.file.highlighted_bytes();
            proof {
                if v@.len() > 0 {
                    assert(v@.contains(v@[0]));
                } else {
                    assert forall|x: usize| !(x < t.len() && #[trigger] self.file@.file.highlights.contains(x)) by {
                        assert(!v@.contains(x));
                    }
                }
            }
            v.len() > 0
        } else {
            true
        }
    }
}

} // verus!
