use std::collections::HashSet;
use vstd::prelude::*;
use vstd::string::{StrSliceExecFns, StringExecFns, StringSliceAdditionalSpecFns};
use vstd::utf8::*;
use crate::buffer::{
    apply_edit, byte_offset_at, deletion, edit_fits, replace_changes, replace_edit,
    splice, str_byte_len, string_bytes, text_width, Buffer, BufferView,
};
use crate::rope::{line_bytes, line_count, raw_line_bytes};
use crate::settings::Settings;
use crate::selection::{
    bytes_below, delete_selected, deleted_runs, highlights_below, replace_selected, replace_selected_by, run_deletion,
    run_replacements, run_wrappings, runs_below, runs_chars, selected_runs, selected_texts, wrap_selected,
};
use crate::style::{plain_style, Color, Style};
use crate::styled::{string_push, StyledLine, StyledSpan, StyledText};

verus! {

broadcast use {vstd::std_specs::hash::group_hash_axioms, vstd::utf8::group_utf8_lib};

/// Whether `needle` occurs in `hay` at byte `i`.
pub open spec fn occurs_at(hay: Seq<u8>, needle: Seq<u8>, i: int) -> bool {
    &&& 0 <= i
    &&& i + needle.len() <= hay.len()
    &&& hay.subrange(i, i + needle.len()) == needle
}

/// Whether `k` is the first byte at which `needle` occurs in `hay`.
pub open spec fn first_occurrence_is(hay: Seq<u8>, needle: Seq<u8>, k: int) -> bool {
    &&& occurs_at(hay, needle, k)
    &&& forall|j: int| 0 <= j < k ==> !occurs_at(hay, needle, j)
}

/// The byte offset of the first place where `needle` occurs in `hay`, if it occurs.
fn str_find(hay: &str, needle: &str) -> (r: Option<usize>)
    ensures
        r is Some <==> exists|i: int| occurs_at(hay.spec_bytes(), needle.spec_bytes(), i),
        r matches Some(k) ==> first_occurrence_is(hay.spec_bytes(), needle.spec_bytes(), k as int),
{
    let h = hay.as_bytes();
    let n = needle.as_bytes();
    if n.len() > h.len() {
        return None;
    }
    let last = h.len() - n.len();
    let mut i: usize = 0;
    loop
        invariant
            h@ == hay.spec_bytes(),
            n@ == needle.spec_bytes(),
            n.len() <= h.len(),
            last == h.len() - n.len(),
            i <= last,
            forall|j: int| 0 <= j < i ==> !occurs_at(h@, n@, j),
        ensures
            forall|j: int| 0 <= j <= last ==> !occurs_at(h@, n@, j),
        decreases last - i,
    {
        let mut k: usize = 0;
        while k < n.len() && h[i + k] == n[k]
            invariant
                n.len() <= h.len(),
                i <= h.len() - n.len(),
                k <= n.len(),
                forall|m: int| 0 <= m < k ==> h@[i + m] == n@[m],
            decreases n.len() - k,
        {
            k = k + 1;
        }
        if k == n.len() {
            assert(h@.subrange(i as int, i + n.len()) =~= n@);
            assert(occurs_at(hay.spec_bytes(), needle.spec_bytes(), i as int));
            return Some(i);
        }
        assert(!occurs_at(h@, n@, i as int)) by {
            if occurs_at(h@, n@, i as int) {
                assert(h@.subrange(i as int, i + n.len())[k as int] == h@[i + k]);
            }
        }
        if i == last {
            break;
        }
        i = i + 1;
    }
    None
}

/// The bytes `start..=end`; none where `start > end`.
pub open spec fn byte_range(start: usize, end: usize) -> Set<usize> {
    Set::new(|i: usize| start <= i <= end)
}

/// Whether row `i` of `t` holds `needle`, first found at the byte offset of column `col`.
pub open spec fn row_matches(t: Seq<u8>, col: nat, needle: Seq<u8>, i: nat) -> bool {
    &&& i < line_count(t)
    &&& first_occurrence_is(raw_line_bytes(t, i), needle, byte_offset_at(t, col, i) as int)
}

/// The rows `lo..hi` of `t` that match `needle` at column `col`, each with that offset, in order.
pub open spec fn matching_rows(t: Seq<u8>, col: nat, needle: Seq<u8>, lo: nat, hi: nat) -> Seq<
    (usize, usize),
>
    decreases hi,
{
    if hi <= lo {
        Seq::empty()
    } else {
        let prev = matching_rows(t, col, needle, lo, (hi - 1) as nat);
        if row_matches(t, col, needle, (hi - 1) as nat) {
            prev.push(((hi - 1) as usize, byte_offset_at(t, col, (hi - 1) as nat) as usize))
        } else {
            prev
        }
    }
}

/// A span in the model of a display: its text and whether it is highlighted.
pub type SpanModel = (Seq<char>, bool);

/// The state of a display while the text is read: the text gathered for the next span, the
/// spans of the current line, the finished lines, and whether the last character read was
/// highlighted.
pub struct DisplayState {
    pub acc: Seq<char>,
    pub line: Seq<SpanModel>,
    pub lines: Seq<Seq<SpanModel>>,
    pub highlight: bool,
}

/// The state before any character is read.
pub open spec fn display_start() -> DisplayState {
    DisplayState { acc: Seq::empty(), line: Seq::empty(), lines: Seq::empty(), highlight: false }
}

/// Ends the current line at a line feed, the gathered text being its last span.
pub open spec fn end_line(st: DisplayState) -> DisplayState {
    DisplayState {
        acc: Seq::empty(),
        line: Seq::empty(),
        lines: st.lines.push(st.line.push((st.acc, st.highlight))),
        highlight: st.highlight,
    }
}

/// One character of an unopened file's display: a highlighted character marks the span as
/// highlighted; the first character after a highlight closes the highlighted span; a line
/// feed ends the line.
pub open spec fn unopened_step(st: DisplayState, hl: bool, c: char) -> DisplayState {
    let st1 = if hl {
        DisplayState { highlight: true, ..st }
    } else if st.highlight {
        DisplayState {
            line: st.line.push((st.acc, true)),
            acc: Seq::empty(),
            highlight: false,
            ..st
        }
    } else {
        st
    };
    if c == '\n' {
        end_line(st1)
    } else {
        DisplayState { acc: st1.acc.push(c), ..st1 }
    }
}

/// The display state of an unopened file after the first `n` characters of `cs`, `hls`
/// holding the highlighted character indices.
pub open spec fn unopened_display(cs: Seq<char>, hls: Set<usize>, n: nat) -> DisplayState
    decreases n,
{
    if n == 0 || n > cs.len() {
        display_start()
    } else {
        unopened_step(
            unopened_display(cs, hls, (n - 1) as nat),
            hls.contains((n - 1) as usize),
            cs[n - 1],
        )
    }
}

/// One byte of an opened file's display: the first highlighted byte closes the plain span,
/// the first plain byte after a highlight closes the highlighted span, a line feed ends the
/// line, and any other byte adds the character of the same number.
pub open spec fn opened_step(st: DisplayState, hl: bool, b: u8) -> DisplayState {
    let st1 = if hl {
        if !st.highlight {
            DisplayState {
                line: st.line.push((st.acc, false)),
                acc: Seq::empty(),
                highlight: true,
                ..st
            }
        } else {
            st
        }
    } else if st.highlight {
        DisplayState {
            line: st.line.push((st.acc, true)),
            acc: Seq::empty(),
            highlight: false,
            ..st
        }
    } else {
        st
    };
    if b == 10u8 {
        end_line(st1)
    } else {
        DisplayState { acc: st1.acc.push(b as char), ..st1 }
    }
}

/// The display state of an opened file after the first `n` bytes of `bs`, `hls` holding the
/// highlighted byte offsets.
pub open spec fn opened_display(bs: Seq<u8>, hls: Set<usize>, n: nat) -> DisplayState
    decreases n,
{
    if n == 0 || n > bs.len() {
        display_start()
    } else {
        opened_step(opened_display(bs, hls, (n - 1) as nat), hls.contains((n - 1) as usize), bs[n - 1])
    }
}

/// The style of a highlighted span.
pub open spec fn highlight_style() -> Style {
    Style { bg: Some(Color::Magenta), ..plain_style() }
}

/// Whether the span `s` shows the span model `m`.
pub open spec fn span_shows(s: StyledSpan, m: SpanModel) -> bool {
    &&& s.text@ == m.0
    &&& s.style == if m.1 { highlight_style() } else { plain_style() }
}

/// Whether the spans `l` show the line model `m`.
pub open spec fn line_shows(l: Seq<StyledSpan>, m: Seq<SpanModel>) -> bool {
    &&& l.len() == m.len()
    &&& forall|k: int| 0 <= k < l.len() ==> span_shows(#[trigger] l[k], m[k])
}

/// Whether the lines `t` show the lines of the model `m`.
pub open spec fn text_shows(t: Seq<StyledLine>, m: Seq<Seq<SpanModel>>) -> bool {
    &&& t.len() == m.len()
    &&& forall|k: int| 0 <= k < t.len() ==> line_shows(#[trigger] t[k].spans@, m[k])
}

/// A text has at least as many bytes as characters.
pub proof fn lemma_chars_le_bytes(cs: Seq<char>)
    ensures
        cs.len() <= encode_utf8(cs).len(),
    decreases cs.len(),
{
    if cs.len() > 0 {
        lemma_chars_le_bytes(cs.drop_first());
    }
}

/// The span of `acc` in the highlighted or the plain style.
fn make_span(acc: &String, highlight: bool) -> (s: StyledSpan)
    ensures
        span_shows(s, (acc@, highlight)),
{
    if highlight {
        StyledSpan::styled(acc.clone(), Style::default().bg(Color::Magenta))
    } else {
        StyledSpan::raw(acc.clone())
    }
}

/// Adds the span of `acc` to `line`.
fn push_span(line: &mut StyledLine, acc: &String, highlight: bool, Ghost(m): Ghost<Seq<SpanModel>>)
    requires
        line_shows(old(line).spans@, m),
    ensures
        line_shows(final(line).spans@, m.push((acc@, highlight))),
{
    let s = make_span(acc, highlight);
    line.push(s);
    assert(line_shows(line.spans@, m.push((acc@, highlight))));
}

/// A file that has not been saved anywhere yet.
pub struct UnopenedFile {
    buffer: Buffer,
    language: Option<String>,
    highlights: HashSet<usize>,
}

/// The abstract state of a file: its buffer and its highlighted bytes.
pub struct FileView {
    pub buffer: BufferView,
    pub highlights: Set<usize>,
}

impl View for UnopenedFile {
    type V = FileView;

    closed spec fn view(&self) -> FileView {
        FileView { buffer: self.buffer@, highlights: self.highlights@ }
    }
}

/// The highlights after the bytes of row `row` are selected: from the start of the row to the
/// column as wide as the row with its line break.
pub open spec fn select_row_highlights(b: BufferView, h: Set<usize>, row: nat) -> Set<usize> {
    if row < line_count(b.text()) {
        let w = text_width(decode_utf8(raw_line_bytes(b.text(), row)), b.tab_size);
        h.union(
            byte_range(
                byte_offset_at(b.text(), 0, row) as usize,
                byte_offset_at(b.text(), w, row) as usize,
            ),
        )
    } else {
        h
    }
}

/// Whether the width of every row of `b`, with its line break, fits a `usize`.
pub open spec fn rows_fit(b: BufferView) -> bool {
    forall|r: nat|
        r < line_count(b.text()) ==> #[trigger] text_width(
            decode_utf8(raw_line_bytes(b.text(), r)),
            b.tab_size,
        ) <= usize::MAX
}

/// Adds the bytes `start..=end` to the highlights.
fn highlight_range(highlights: &mut HashSet<usize>, start: usize, end: usize)
    ensures
        final(highlights)@ == old(highlights)@.union(byte_range(start, end)),
{
    if start > end {
        assert(byte_range(start, end) =~= Set::<usize>::empty());
        assert(highlights@ =~= old(highlights)@.union(byte_range(start, end)));
        return;
    }
    let mut i = start;
    loop
        invariant
            start <= i <= end,
            highlights@ == old(highlights)@.union(Set::new(|j: usize| start <= j < i)),
        decreases end - i,
    {
        highlights.insert(i);
        if i == end {
            assert(highlights@ =~= old(highlights)@.union(byte_range(start, end)));
            return;
        }
        i = i + 1;
        assert(highlights@ =~= old(highlights)@.union(Set::new(|j: usize| start <= j < i)));
    }
}

/// The highlights of the first row of `row`, a shared step of both kinds of file.
fn select_row_in(buffer: &Buffer, highlights: &mut HashSet<usize>, row: usize)
    requires
        buffer@.wf(),
        rows_fit(buffer@),
    ensures
        final(highlights)@ == select_row_highlights(buffer@, old(highlights)@, row as nat),
{
    if let Some(line) = buffer.get_row(row) {
        proof {
            assert(line.text@ == decode_utf8(raw_line_bytes(buffer@.text(), row as nat))) by {
                assert(decode_utf8(encode_utf8(line.text@)) == line.text@);
            }
            assert(text_width(decode_utf8(raw_line_bytes(buffer@.text(), row as nat)), buffer@.tab_size) <= usize::MAX);
        }
        let len = line.len();
        let start = buffer.get_byte_offset(0, row).unwrap();
        let byte_offset = buffer.get_byte_offset(len, row).unwrap();
        highlight_range(highlights, start, byte_offset);
    }
}

/// The rows that hold `needle` first at the byte offset of column `col`, shared by both kinds of
/// file.
fn find_rows(buffer: &Buffer, col: usize, lo: usize, hi: usize, needle: &str) -> (out: Vec<(usize, usize)>)
    requires
        buffer@.wf(),
    ensures
        out@ == matching_rows(buffer@.text(), col as nat, needle.spec_bytes(), lo as nat, hi as nat),
{
    let ghost t = buffer@.text();
    let mut out: Vec<(usize, usize)> = Vec::new();
    if hi <= lo {
        return out;
    }
    let mut i = lo;
    while i < hi
        invariant
            lo <= i <= hi,
            buffer@.wf(),
            t == buffer@.text(),
            out@ == matching_rows(t, col as nat, needle.spec_bytes(), lo as nat, i as nat),
        decreases hi - i,
    {
        let ghost prev = out@;
        proof {
            assert(matching_rows(t, col as nat, needle.spec_bytes(), lo as nat, (i + 1) as nat) == if row_matches(
                t,
                col as nat,
                needle.spec_bytes(),
                i as nat,
            ) {
                prev.push((i, byte_offset_at(t, col as nat, i as nat) as usize))
            } else {
                prev
            });
        }
        if let Some(line) = buffer.get_row(i) {
            let off = buffer.get_byte_offset(col, i).unwrap();
            let hay = line.text.as_str();
            assert(hay.spec_bytes() == raw_line_bytes(t, i as nat));
            if let Some(index) = str_find(hay, needle) {
                if index == off {
                    out.push((i, index));
                } else {
                    assert(!first_occurrence_is(raw_line_bytes(t, i as nat), needle.spec_bytes(), off as int));
                }
            } else {
                assert(!first_occurrence_is(raw_line_bytes(t, i as nat), needle.spec_bytes(), off as int));
            }
        }
        i = i + 1;
    }
    out
}

impl UnopenedFile {
    /// An empty file with the settings' tab width.
    pub fn new(settings: &Settings) -> (f: Self)
        ensures
            f@.buffer == (BufferView {
                history: seq![Seq::<u8>::empty()],
                current: 0,
                version: 0,
                tab_size: settings.editor_settings.tab_size,
            }),
            f@.buffer.wf(),
            f@.highlights == Set::<usize>::empty(),
    {
        Self { buffer: Buffer::new(settings), language: None, highlights: HashSet::new() }
    }

    /// Highlights the bytes `start..=end`.
    pub fn add_highlight(&mut self, start: usize, end: usize)
        ensures
            final(self)@ == (FileView {
                highlights: old(self)@.highlights.union(byte_range(start, end)),
                ..old(self)@
            }),
    {
        highlight_range(&mut self.highlights, start, end);
    }

    /// Highlights row `row`, if there is one.
    pub fn select_row(&mut self, row: usize)
        requires
            old(self)@.buffer.wf(),
            rows_fit(old(self)@.buffer),
        ensures
            final(self)@ == (FileView {
                highlights: select_row_highlights(old(self)@.buffer, old(self)@.highlights, row as nat),
                ..old(self)@
            }),
    {
        select_row_in(&self.buffer, &mut self.highlights, row);
    }

    /// The rows, after `row` going down or before it going up, whose first occurrence of
    /// `string` lies at the byte offset of column `col`, each with that offset, in order.
    /// Going down, the rows are counted up to the number of bytes of the text.
    pub fn find_occurrences(&mut self, col: usize, row: usize, string: &str, down: bool) -> (out: Vec<(usize, usize)>)
        requires
            old(self)@.buffer.wf(),
        ensures
            final(self)@ == old(self)@,
            out@ == if down {
                matching_rows(
                    old(self)@.buffer.text(),
                    col as nat,
                    string.spec_bytes(),
                    row as nat,
                    old(self)@.buffer.text().len(),
                )
            } else {
                matching_rows(old(self)@.buffer.text(), col as nat, string.spec_bytes(), 0, row as nat)
            },
    {
        if down {
            let n = self.buffer.get_byte_count();
            find_rows(&self.buffer, col, row, n, string)
        } else {
            find_rows(&self.buffer, col, 0, row, string)
        }
    }

    /// The byte offset of column `col` on row `row`.
    pub fn get_byte_offset(&self, row: usize, col: usize) -> (r: Option<usize>)
        requires
            self@.buffer.wf(),
            line_count(self@.buffer.text()) >= 1,
        ensures
            r == Some(byte_offset_at(self@.buffer.text(), col as nat, row as nat) as usize),
    {
        self.buffer.get_byte_offset(col, row)
    }

    /// Inserts `c` at `byte_offset` in the shown version.
    pub fn insert_after_current(&mut self, byte_offset: usize, c: &str)
        requires
            old(self)@.buffer.wf(),
            old(self)@.buffer.version < usize::MAX,
            byte_offset <= old(self)@.buffer.text().len(),
            is_char_boundary(old(self)@.buffer.text(), byte_offset as int),
        ensures
            final(self)@.buffer == old(self)@.buffer.branch_if_first().with_text(
                splice(old(self)@.buffer.text(), byte_offset as int, byte_offset as int, c.spec_bytes()),
            ).bumped(),
            final(self)@.buffer.wf(),
            final(self)@.highlights == old(self)@.highlights,
    {
        self.buffer.insert_current(byte_offset, c);
    }

    /// Inserts `c` one byte before `byte_offset` (at 0 for 0) in the shown version.
    pub fn insert_before_current(&mut self, byte_offset: usize, c: &str)
        requires
            old(self)@.buffer.wf(),
            old(self)@.buffer.version < usize::MAX,
            sub1(byte_offset) <= old(self)@.buffer.text().len(),
            is_char_boundary(old(self)@.buffer.text(), sub1(byte_offset) as int),
        ensures
            final(self)@.buffer == old(self)@.buffer.branch_if_first().with_text(
                splice(
                    old(self)@.buffer.text(),
                    sub1(byte_offset) as int,
                    sub1(byte_offset) as int,
                    c.spec_bytes(),
                ),
            ).bumped(),
            final(self)@.buffer.wf(),
            final(self)@.highlights == old(self)@.highlights,
    {
        let byte_offset = byte_offset.saturating_sub(1);
        self.buffer.insert_current(byte_offset, c);
    }

    /// Inserts `c` at `byte_offset` in a new version.
    pub fn insert_after(&mut self, byte_offset: usize, c: &str)
        requires
            old(self)@.buffer.wf(),
            old(self)@.buffer.version < usize::MAX,
            byte_offset <= old(self)@.buffer.text().len(),
            is_char_boundary(old(self)@.buffer.text(), byte_offset as int),
        ensures
            final(self)@.buffer == old(self)@.buffer.edited(
                splice(old(self)@.buffer.text(), byte_offset as int, byte_offset as int, c.spec_bytes()),
            ),
            final(self)@.buffer.wf(),
            final(self)@.highlights == old(self)@.highlights,
    {
        self.buffer.insert(byte_offset, c);
    }

    /// Inserts `c` one byte before `byte_offset` (at 0 for 0) in a new version.
    pub fn insert_before(&mut self, byte_offset: usize, c: &str)
        requires
            old(self)@.buffer.wf(),
            old(self)@.buffer.version < usize::MAX,
            sub1(byte_offset) <= old(self)@.buffer.text().len(),
            is_char_boundary(old(self)@.buffer.text(), sub1(byte_offset) as int),
        ensures
            final(self)@.buffer == old(self)@.buffer.edited(
                splice(
                    old(self)@.buffer.text(),
                    sub1(byte_offset) as int,
                    sub1(byte_offset) as int,
                    c.spec_bytes(),
                ),
            ),
            final(self)@.buffer.wf(),
            final(self)@.highlights == old(self)@.highlights,
    {
        let byte_offset = byte_offset.saturating_sub(1);
        self.buffer.insert(byte_offset, c);
    }

    /// Deletes the bytes in `range` from the shown version.
    pub fn delete_current(&mut self, range: std::ops::Range<usize>)
        requires
            old(self)@.buffer.wf(),
            old(self)@.buffer.version < usize::MAX,
            edit_fits(old(self)@.buffer.text(), deletion(range)),
        ensures
            final(self)@.buffer == old(self)@.buffer.branch_if_first().with_text(
                apply_edit(old(self)@.buffer.text(), deletion(range)),
            ).bumped(),
            final(self)@.buffer.wf(),
            final(self)@.highlights == old(self)@.highlights,
    {
        self.buffer.delete_current(range);
    }

    /// Deletes the bytes in `range` in a new version.
    pub fn delete(&mut self, range: std::ops::Range<usize>)
        requires
            old(self)@.buffer.wf(),
            old(self)@.buffer.version < usize::MAX,
            edit_fits(old(self)@.buffer.text(), deletion(range)),
        ensures
            final(self)@.buffer == old(self)@.buffer.edited(
                apply_edit(old(self)@.buffer.text(), deletion(range)),
            ),
            final(self)@.buffer.wf(),
            final(self)@.highlights == old(self)@.highlights,
    {
        self.buffer.delete(range);
    }

    /// Replaces the bytes of `range` but its last one by `c` in the shown version, when `c` is
    /// longer than they are.
    pub fn replace_current(&mut self, range: std::ops::Range<usize>, c: &str)
        requires
            old(self)@.buffer.wf(),
            old(self)@.buffer.version + 2 <= usize::MAX,
            1 <= range.end,
            range.start <= range.end - 1,
            replace_changes(range, c) ==> {
                &&& edit_fits(old(self)@.buffer.text(), replace_edit(range, c.spec_bytes()))
                &&& is_char_boundary(c.spec_bytes(), range.end - 1 - range.start)
            },
        ensures
            final(self)@.buffer == if replace_changes(range, c) {
                old(self)@.buffer.branch_if_first().with_text(
                    apply_edit(old(self)@.buffer.text(), replace_edit(range, c.spec_bytes())),
                ).bumped().bumped()
            } else {
                old(self)@.buffer.branch_if_first().bumped()
            },
            final(self)@.buffer.wf(),
            final(self)@.highlights == old(self)@.highlights,
    {
        self.buffer.replace_current(range, c);
    }

    /// Replaces the bytes of `range` but its last one by `c` in a new version, when `c` is
    /// longer than they are.
    pub fn replace(&mut self, range: std::ops::Range<usize>, c: &str)
        requires
            old(self)@.buffer.wf(),
            old(self)@.buffer.version + 2 <= usize::MAX,
            1 <= range.end,
            range.start <= range.end - 1,
            replace_changes(range, c) ==> {
                &&& edit_fits(old(self)@.buffer.text(), replace_edit(range, c.spec_bytes()))
                &&& is_char_boundary(c.spec_bytes(), range.end - 1 - range.start)
            },
        ensures
            final(self)@.buffer == if replace_changes(range, c) {
                old(self)@.buffer.branch().with_text(
                    apply_edit(old(self)@.buffer.text(), replace_edit(range, c.spec_bytes())),
                ).bumped().bumped()
            } else {
                old(self)@.buffer.branch().bumped()
            },
            final(self)@.buffer.wf(),
            final(self)@.highlights == old(self)@.highlights,
    {
        self.buffer.replace(range, c);
    }

    /// The name of the file: empty, as it has no path.
    pub fn get_name(&self) -> (s: String)
        ensures
            s@ == Seq::<char>::empty(),
    {
        String::new()
    }

    /// The text in lines of spans, the highlighted characters in the highlight style; the part
    /// after the last line feed is not shown.
    pub fn display(&self) -> (out: StyledText)
        requires
            self@.buffer.wf(),
        ensures
            text_shows(
                out.lines@,
                unopened_display(
                    decode_utf8(self@.buffer.text()),
                    self@.highlights,
                    decode_utf8(self@.buffer.text()).len(),
                ).lines,
            ),
    {
        let string = self.buffer.to_string();
        let ghost cs = string@;
        let ghost hls = self.highlights@;
        proof {
            assert(decode_utf8(self@.buffer.text()) == cs);
            lemma_chars_le_bytes(cs);
        }
        let total = str_byte_len(string.as_str());
        let mut acc = String::new();
        let mut output = StyledText::new();
        let mut line = StyledLine::new();
        let mut highlight = false;
        let mut i: usize = 0;
        for c in iter: string.as_str().chars()
            invariant
                iter.seq() == cs,
                i == iter.index(),
                cs.len() <= total,
                hls == self.highlights@,
                ({
                    let st = unopened_display(cs, hls, i as nat);
                    &&& acc@ == st.acc
                    &&& line_shows(line.spans@, st.line)
                    &&& text_shows(output.lines@, st.lines)
                    &&& highlight == st.highlight
                }),
        {
            let ghost st = unopened_display(cs, hls, i as nat);
            assert(c == cs[i as int]);
            if self.highlights.contains(&i) {
                highlight = true;
            } else if highlight {
                highlight = false;
                push_span(&mut line, &acc, true, Ghost(st.line));
                acc = String::new();
            }
            let ghost st1 = if hls.contains(i) {
                DisplayState { highlight: true, ..st }
            } else if st.highlight {
                DisplayState { line: st.line.push((st.acc, true)), acc: Seq::empty(), highlight: false, ..st }
            } else {
                st
            };
            if c == '\n' {
                push_span(&mut line, &acc, highlight, Ghost(st1.line));
                let ghost lm = st1.line.push((st1.acc, st1.highlight));
                output.lines.push(line);
                assert(text_shows(output.lines@, st1.lines.push(lm)));
                line = StyledLine::new();
                acc = String::new();
            } else {
                string_push(&mut acc, c);
            }
            i = i + 1;
        }
        output
    }
}


/// The name of the file or directory that a path ends in, if it ends in one.
pub uninterp spec fn file_name_of(path: Seq<char>) -> Option<Seq<char>>;

/// Calls `Path::file_name` of std on `path` and turns the name into a `String`.
/// Claimed: the result is the named final component of the path, and depends on the path
/// alone within one build; which characters separate components is the build target's rule
/// (a backslash does only on Windows).
#[verifier::external_body]
fn path_file_name(path: &str) -> (r: Option<String>)
    ensures
        r matches Some(s) ==> file_name_of(path@) == Some(s@),
        r is None ==> file_name_of(path@) is None,
{
    std::path::Path::new(path).file_name().and_then(|n| n.to_str()).map(|n| n.to_string())
}

/// The language that a file's extension names, if the editor knows it.
pub open spec fn language_of(ext: Seq<char>) -> Option<Seq<char>> {
    if ext == "rs"@ {
        Some("rust"@)
    } else if ext == "c"@ || ext == "h"@ {
        Some("c"@)
    } else if ext == "cpp"@ || ext == "hpp"@ {
        Some("cpp"@)
    } else if ext == "py"@ {
        Some("python"@)
    } else if ext == "lsp"@ {
        Some("commonlisp"@)
    } else if ext == "swift"@ {
        Some("swift"@)
    } else if ext == "go"@ {
        Some("go"@)
    } else if ext == "sh"@ {
        Some("bash"@)
    } else if ext == "js"@ {
        Some("javascript"@)
    } else if ext == "cs"@ {
        Some("csharp"@)
    } else {
        None
    }
}

/// Whether two texts are equal, character by character.
pub fn str_eq(a: &str, b: &str) -> (e: bool)
    ensures
        e == (a@ == b@),
{
    let n = a.unicode_len();
    if n != b.unicode_len() {
        return false;
    }
    let mut i: usize = 0;
    while i < n
        invariant
            n == a@.len(),
            n == b@.len(),
            i <= n,
            forall|j: int| 0 <= j < i ==> a@[j] == b@[j],
        decreases n - i,
    {
        if a.get_char(i) != b.get_char(i) {
            return false;
        }
        i = i + 1;
    }
    assert(a@ =~= b@);
    true
}

/// The language that the extension `ext` names, if the editor knows it.
pub fn language_for_extension(ext: &str) -> (r: Option<String>)
    ensures
        r matches Some(s) ==> language_of(ext@) == Some(s@),
        r is None ==> language_of(ext@) is None,
{
    if str_eq(ext, "rs") {
        Some(String::from_str("rust"))
    } else if str_eq(ext, "c") || str_eq(ext, "h") {
        Some(String::from_str("c"))
    } else if str_eq(ext, "cpp") || str_eq(ext, "hpp") {
        Some(String::from_str("cpp"))
    } else if str_eq(ext, "py") {
        Some(String::from_str("python"))
    } else if str_eq(ext, "lsp") {
        Some(String::from_str("commonlisp"))
    } else if str_eq(ext, "swift") {
        Some(String::from_str("swift"))
    } else if str_eq(ext, "go") {
        Some(String::from_str("go"))
    } else if str_eq(ext, "sh") {
        Some(String::from_str("bash"))
    } else if str_eq(ext, "js") {
        Some(String::from_str("javascript"))
    } else if str_eq(ext, "cs") {
        Some(String::from_str("csharp"))
    } else {
        None
    }
}


/// The first byte at which `needle` occurs in `hay`, if it occurs.
pub open spec fn first_occurrence(hay: Seq<u8>, needle: Seq<u8>) -> Option<int> {
    if exists|k: int| first_occurrence_is(hay, needle, k) {
        Some(choose|k: int| first_occurrence_is(hay, needle, k))
    } else {
        None
    }
}

/// Two first occurrences are the same.
pub proof fn lemma_first_occurrence_unique(hay: Seq<u8>, needle: Seq<u8>, a: int, b: int)
    requires
        first_occurrence_is(hay, needle, a),
        first_occurrence_is(hay, needle, b),
    ensures
        a == b,
{
    if a < b {
        assert(!occurs_at(hay, needle, a));
    } else if b < a {
        assert(!occurs_at(hay, needle, b));
    }
}

/// Where `needle` is first found on row `y` of `t`, relative to the row, if it is.
pub open spec fn row_occurrence(t: Seq<u8>, needle: Seq<u8>, y: nat) -> Option<int> {
    if y < line_count(t) {
        first_occurrence(raw_line_bytes(t, y), needle)
    } else {
        None
    }
}

/// What an opened file finds on the rows `lo..hi` of `t`: for each row where `needle` occurs,
/// the offset in the row and the row, in order.
pub open spec fn opened_matches(t: Seq<u8>, needle: Seq<u8>, lo: nat, hi: nat) -> Seq<(usize, usize)>
    decreases hi,
{
    if hi <= lo {
        Seq::empty()
    } else {
        let prev = opened_matches(t, needle, lo, (hi - 1) as nat);
        match row_occurrence(t, needle, (hi - 1) as nat) {
            Some(k) => prev.push((k as usize, (hi - 1) as usize)),
            None => prev,
        }
    }
}

/// The bytes that an opened file highlights for a match at offset `k` of row `y`: from the byte
/// offset of column `k` on that row, as many bytes as `k` and the needle together.
pub open spec fn match_bytes(t: Seq<u8>, needle: Seq<u8>, k: int, y: nat) -> Set<usize> {
    let b = byte_offset_at(t, k as nat, y);
    Set::new(|i: usize| b <= i < b + k + needle.len())
}

/// The bytes that an opened file highlights for the matches on the rows `lo..hi` of `t`.
pub open spec fn opened_match_bytes(t: Seq<u8>, needle: Seq<u8>, lo: nat, hi: nat) -> Set<usize>
    decreases hi,
{
    if hi <= lo {
        Set::empty()
    } else {
        let prev = opened_match_bytes(t, needle, lo, (hi - 1) as nat);
        match row_occurrence(t, needle, (hi - 1) as nat) {
            Some(k) => prev.union(match_bytes(t, needle, k, (hi - 1) as nat)),
            None => prev,
        }
    }
}

/// Adds the bytes `start..end` to the highlights.
fn highlight_span(highlights: &mut HashSet<usize>, start: usize, end: usize)
    ensures
        final(highlights)@ == old(highlights)@.union(Set::new(|i: usize| start <= i < end)),
{
    let mut i = start;
    while i < end
        invariant
            start <= i,
            i <= end || i == start,
            highlights@ == old(highlights)@.union(Set::new(|j: usize| start <= j < i)),
        decreases end - i,
    {
        highlights.insert(i);
        i = i + 1;
        assert(highlights@ =~= old(highlights)@.union(Set::new(|j: usize| start <= j < i)));
    }
    assert(highlights@ =~= old(highlights)@.union(Set::new(|j: usize| start <= j < end)));
}

/// A file that was read from a path.
pub struct OpenedFile {
    path: String,
    buffer: Buffer,
    lsp_info: Option<String>,
    language: Option<String>,
    highlights: HashSet<usize>,
}

impl View for OpenedFile {
    type V = FileView;

    closed spec fn view(&self) -> FileView {
        FileView { buffer: self.buffer@, highlights: self.highlights@ }
    }
}

impl OpenedFile {
    /// The path of the file.
    pub closed spec fn path_view(&self) -> Seq<char> {
        self.path@
    }

    /// The language of the file, named by its extension.
    pub closed spec fn language_view(&self) -> Option<Seq<char>> {
        match self.language {
            Some(l) => Some(l@),
            None => None,
        }
    }

    /// The file at `path` whose extension is `extension` and whose text is `contents`: the
    /// buffer holds the text with the settings' tab width and starts a second version, and
    /// the extension names the language.
    pub fn open(path: String, extension: &str, contents: &str, settings: &Settings) -> (f: Self)
        ensures
            f.path_view() == path@,
            f.language_view() == language_of(extension@),
            f@.buffer == (BufferView {
                history: seq![contents.spec_bytes(), contents.spec_bytes()],
                current: 1,
                version: 0,
                tab_size: settings.editor_settings.tab_size,
            }),
            f@.buffer.wf(),
            f@.highlights == Set::<usize>::empty(),
    {
        let language = language_for_extension(extension);
        let mut buffer = Buffer::from_str(contents);
        buffer.set_settings(settings);
        buffer.add_new_rope();
        assert(buffer@.history =~= seq![contents.spec_bytes(), contents.spec_bytes()]);
        let f = Self { path, buffer, lsp_info: None, language, highlights: HashSet::new() };
        f
    }

    /// An unopened file that is given the path `path`: it starts a new version unless its shown
    /// version equals the one before, and keeps its highlights; no language is known.
    pub fn from_unopened(file: UnopenedFile, path: String) -> (f: Self)
        requires
            file@.buffer.wf(),
        ensures
            f.path_view() == path@,
            f.language_view() is None,
            f@.buffer == if file@.buffer.current > 0 && file@.buffer.history[file@.buffer.current - 1]
                == file@.buffer.text() {
                file@.buffer
            } else {
                file@.buffer.branch()
            },
            f@.buffer.wf(),
            f@.highlights == file@.highlights,
    {
        let mut buffer = file.buffer;
        buffer.add_new_rope();
        Self { path, buffer, lsp_info: None, language: None, highlights: file.highlights }
    }

    /// Highlights the bytes `start..=end`.
    pub fn add_highlight(&mut self, start: usize, end: usize)
        ensures
            final(self).path_view() == old(self).path_view(),
            final(self)@ == (FileView {
                highlights: old(self)@.highlights.union(byte_range(start, end)),
                ..old(self)@
            }),
    {
        highlight_range(&mut self.highlights, start, end);
    }

    /// Highlights row `row`, if there is one.
    pub fn select_row(&mut self, row: usize)
        requires
            old(self)@.buffer.wf(),
            rows_fit(old(self)@.buffer),
        ensures
            final(self).path_view() == old(self).path_view(),
            final(self)@ == (FileView {
                highlights: select_row_highlights(old(self)@.buffer, old(self)@.highlights, row as nat),
                ..old(self)@
            }),
    {
        select_row_in(&self.buffer, &mut self.highlights, row);
    }

    /// The byte offset of column `col` on row `row`.
    pub fn get_byte_offset(&self, row: usize, col: usize) -> (r: Option<usize>)
        requires
            self@.buffer.wf(),
            line_count(self@.buffer.text()) >= 1,
        ensures
            r == Some(byte_offset_at(self@.buffer.text(), col as nat, row as nat) as usize),
    {
        self.buffer.get_byte_offset(col, row)
    }

    /// Inserts `c` at `byte_offset` in the shown version.
    pub fn insert_after_current(&mut self, byte_offset: usize, c: &str)
        requires
            old(self)@.buffer.wf(),
            old(self)@.buffer.version < usize::MAX,
            byte_offset <= old(self)@.buffer.text().len(),
            is_char_boundary(old(self)@.buffer.text(), byte_offset as int),
        ensures
            final(self).path_view() == old(self).path_view(),
            final(self)@.buffer == old(self)@.buffer.branch_if_first().with_text(
                splice(old(self)@.buffer.text(), byte_offset as int, byte_offset as int, c.spec_bytes()),
            ).bumped(),
            final(self)@.buffer.wf(),
            final(self)@.highlights == old(self)@.highlights,
    {
        self.buffer.insert_current(byte_offset, c);
    }

    /// Inserts `c` one byte before `byte_offset` (at 0 for 0) in the shown version.
    pub fn insert_before_current(&mut self, byte_offset: usize, c: &str)
        requires
            old(self)@.buffer.wf(),
            old(self)@.buffer.version < usize::MAX,
            sub1(byte_offset) <= old(self)@.buffer.text().len(),
            is_char_boundary(old(self)@.buffer.text(), sub1(byte_offset) as int),
        ensures
            final(self).path_view() == old(self).path_view(),
            final(self)@.buffer == old(self)@.buffer.branch_if_first().with_text(
                splice(
                    old(self)@.buffer.text(),
                    sub1(byte_offset) as int,
                    sub1(byte_offset) as int,
                    c.spec_bytes(),
                ),
            ).bumped(),
            final(self)@.buffer.wf(),
            final(self)@.highlights == old(self)@.highlights,
    {
        let byte_offset = byte_offset.saturating_sub(1);
        self.buffer.insert_current(byte_offset, c);
    }

    /// Inserts `c` at `byte_offset` in a new version.
    pub fn insert_after(&mut self, byte_offset: usize, c: &str)
        requires
            old(self)@.buffer.wf(),
            old(self)@.buffer.version < usize::MAX,
            byte_offset <= old(self)@.buffer.text().len(),
            is_char_boundary(old(self)@.buffer.text(), byte_offset as int),
        ensures
            final(self).path_view() == old(self).path_view(),
            final(self)@.buffer == old(self)@.buffer.edited(
                splice(old(self)@.buffer.text(), byte_offset as int, byte_offset as int, c.spec_bytes()),
            ),
            final(self)@.buffer.wf(),
            final(self)@.highlights == old(self)@.highlights,
    {
        self.buffer.insert(byte_offset, c);
    }

    /// Inserts `c` one byte before `byte_offset` (at 0 for 0) in a new version.
    pub fn insert_before(&mut self, byte_offset: usize, c: &str)
        requires
            old(self)@.buffer.wf(),
            old(self)@.buffer.version < usize::MAX,
            sub1(byte_offset) <= old(self)@.buffer.text().len(),
            is_char_boundary(old(self)@.buffer.text(), sub1(byte_offset) as int),
        ensures
            final(self).path_view() == old(self).path_view(),
            final(self)@.buffer == old(self)@.buffer.edited(
                splice(
                    old(self)@.buffer.text(),
                    sub1(byte_offset) as int,
                    sub1(byte_offset) as int,
                    c.spec_bytes(),
                ),
            ),
            final(self)@.buffer.wf(),
            final(self)@.highlights == old(self)@.highlights,
    {
        let byte_offset = byte_offset.saturating_sub(1);
        self.buffer.insert(byte_offset, c);
    }

    /// Deletes the bytes in `range` from the shown version.
    pub fn delete_current(&mut self, range: std::ops::Range<usize>)
        requires
            old(self)@.buffer.wf(),
            old(self)@.buffer.version < usize::MAX,
            edit_fits(old(self)@.buffer.text(), deletion(range)),
        ensures
            final(self).path_view() == old(self).path_view(),
            final(self)@.buffer == old(self)@.buffer.branch_if_first().with_text(
                apply_edit(old(self)@.buffer.text(), deletion(range)),
            ).bumped(),
            final(self)@.buffer.wf(),
            final(self)@.highlights == old(self)@.highlights,
    {
        self.buffer.delete_current(range);
    }

    /// Deletes the bytes in `range` in a new version.
    pub fn delete(&mut self, range: std::ops::Range<usize>)
        requires
            old(self)@.buffer.wf(),
            old(self)@.buffer.version < usize::MAX,
            edit_fits(old(self)@.buffer.text(), deletion(range)),
        ensures
            final(self).path_view() == old(self).path_view(),
            final(self)@.buffer == old(self)@.buffer.edited(
                apply_edit(old(self)@.buffer.text(), deletion(range)),
            ),
            final(self)@.buffer.wf(),
            final(self)@.highlights == old(self)@.highlights,
    {
        self.buffer.delete(range);
    }

    /// Replaces the bytes of `range` but its last one by `c` in the shown version, when `c` is
    /// longer than they are.
    pub fn replace_current(&mut self, range: std::ops::Range<usize>, c: &str)
        requires
            old(self)@.buffer.wf(),
            old(self)@.buffer.version + 2 <= usize::MAX,
            1 <= range.end,
            range.start <= range.end - 1,
            replace_changes(range, c) ==> {
                &&& edit_fits(old(self)@.buffer.text(), replace_edit(range, c.spec_bytes()))
                &&& is_char_boundary(c.spec_bytes(), range.end - 1 - range.start)
            },
        ensures
            final(self).path_view() == old(self).path_view(),
            final(self)@.buffer == if replace_changes(range, c) {
                old(self)@.buffer.branch_if_first().with_text(
                    apply_edit(old(self)@.buffer.text(), replace_edit(range, c.spec_bytes())),
                ).bumped().bumped()
            } else {
                old(self)@.buffer.branch_if_first().bumped()
            },
            final(self)@.buffer.wf(),
            final(self)@.highlights == old(self)@.highlights,
    {
        self.buffer.replace_current(range, c);
    }

    /// Replaces the bytes of `range` but its last one by `c` in a new version, when `c` is
    /// longer than they are.
    pub fn replace(&mut self, range: std::ops::Range<usize>, c: &str)
        requires
            old(self)@.buffer.wf(),
            old(self)@.buffer.version + 2 <= usize::MAX,
            1 <= range.end,
            range.start <= range.end - 1,
            replace_changes(range, c) ==> {
                &&& edit_fits(old(self)@.buffer.text(), replace_edit(range, c.spec_bytes()))
                &&& is_char_boundary(c.spec_bytes(), range.end - 1 - range.start)
            },
        ensures
            final(self).path_view() == old(self).path_view(),
            final(self)@.buffer == if replace_changes(range, c) {
                old(self)@.buffer.branch().with_text(
                    apply_edit(old(self)@.buffer.text(), replace_edit(range, c.spec_bytes())),
                ).bumped().bumped()
            } else {
                old(self)@.buffer.branch().bumped()
            },
            final(self)@.buffer.wf(),
            final(self)@.highlights == old(self)@.highlights,
    {
        self.buffer.replace(range, c);
    }

    /// The rows, after `row` going down or before it going up, where `string` occurs, each as
    /// the offset of its first occurrence in the row and the row, in order; the bytes from the
    /// byte offset of the column of that offset on, as many as the offset and `string`
    /// together, are highlighted.
    pub fn find_occurrences(&mut self, col: usize, row: usize, string: &str, down: bool) -> (out: Vec<(usize, usize)>)
        requires
            old(self)@.buffer.wf(),
            2 * old(self)@.buffer.text().len() <= usize::MAX,
        ensures
            final(self).path_view() == old(self).path_view(),
            final(self)@.buffer == old(self)@.buffer,
            ({
                let t = old(self)@.buffer.text();
                let (lo, hi) = if down { (row as nat, line_count(t)) } else { (0nat, row as nat) };
                &&& out@ == opened_matches(t, string.spec_bytes(), lo, hi)
                &&& final(self)@.highlights == old(self)@.highlights.union(
                    opened_match_bytes(t, string.spec_bytes(), lo, hi),
                )
            }),
    {
        let ghost t = self@.buffer.text();
        let ghost needle = string.spec_bytes();
        let (lo, hi) = if down {
            (row, self.buffer.get_line_count())
        } else {
            (0, row)
        };
        let mut out: Vec<(usize, usize)> = Vec::new();
        let mut y = lo;
        assert(opened_match_bytes(t, needle, lo as nat, lo as nat) =~= Set::<usize>::empty());
        assert(self.highlights@ =~= old(self)@.highlights.union(Set::<usize>::empty()));
        while y < hi
            invariant
                lo <= y,
                y <= hi || y == lo,
                self.buffer@.wf(),
                self.buffer@ == old(self)@.buffer,
                self.path@ == old(self).path_view(),
                t == self.buffer@.text(),
                needle == string.spec_bytes(),
                2 * t.len() <= usize::MAX,
                out@ == opened_matches(t, needle, lo as nat, y as nat),
                self.highlights@ == old(self)@.highlights.union(
                    opened_match_bytes(t, needle, lo as nat, y as nat),
                ),
            decreases hi - y,
        {
            let ghost prev_h = opened_match_bytes(t, needle, lo as nat, y as nat);
            if let Some(line) = self.buffer.get_row(y) {
                let hay = line.text.as_str();
                assert(hay.spec_bytes() == raw_line_bytes(t, y as nat));
                if let Some(index) = str_find(hay, string) {
                    proof {
                        let k = choose|k: int| first_occurrence_is(raw_line_bytes(t, y as nat), needle, k);
                        lemma_first_occurrence_unique(raw_line_bytes(t, y as nat), needle, k, index as int);
                        crate::rope::lemma_line_start_mono(t, y as nat);
                    }
                    out.push((index, y));
                    let b = self.buffer.get_byte_offset(index, y).unwrap();
                    let n = str_byte_len(string);
                    let e = b + index + n;
                    highlight_span(&mut self.highlights, b, e);
                    assert(self.highlights@ =~= old(self)@.highlights.union(
                        opened_match_bytes(t, needle, lo as nat, (y + 1) as nat),
                    ));
                } else {
                    assert(row_occurrence(t, needle, y as nat) is None);
                }
            } else {
                assert(row_occurrence(t, needle, y as nat) is None);
            }
            y = y + 1;
        }
        out
    }

    /// The name of the file: the last component of its path.
    pub fn get_name(&self) -> (s: String)
        requires
            file_name_of(self.path_view()) is Some,
        ensures
            file_name_of(self.path_view()) == Some(s@),
    {
        match path_file_name(self.path.as_str()) {
            Some(s) => s,
            None => String::new(),
        }
    }

    /// The name of the file, if its path ends in one.
    pub fn file_name(&self) -> (r: Option<String>)
        ensures
            r matches Some(s) ==> file_name_of(self.path_view()) == Some(s@),
            r is None ==> file_name_of(self.path_view()) is None,
    {
        match path_file_name(self.path.as_str()) {
            Some(_) => Some(self.get_name()),
            None => None,
        }
    }

    /// The path of the file.
    pub fn get_path(&self) -> (p: String)
        ensures
            p@ == self.path_view(),
    {
        self.path.clone()
    }

    /// The text in lines of spans, the highlighted bytes in the highlight style, each byte
    /// shown as the character of the same number; the part after the last line feed is not
    /// shown.
    pub fn display(&self) -> (out: StyledText)
        requires
            self@.buffer.wf(),
        ensures
            text_shows(
                out.lines@,
                opened_display(self@.buffer.text(), self@.highlights, self@.buffer.text().len()).lines,
            ),
    {
        let string = self.buffer.to_string();
        let bytes = string.as_str().as_bytes();
        let ghost bs = bytes@;
        let ghost hls = self.highlights@;
        assert(bs == self@.buffer.text());
        let mut acc = String::new();
        let mut output = StyledText::new();
        let mut line = StyledLine::new();
        let mut highlight = false;
        let mut i: usize = 0;
        while i < bytes.len()
            invariant
                bs == bytes@,
                i <= bs.len(),
                hls == self.highlights@,
                ({
                    let st = opened_display(bs, hls, i as nat);
                    &&& acc@ == st.acc
                    &&& line_shows(line.spans@, st.line)
                    &&& text_shows(output.lines@, st.lines)
                    &&& highlight == st.highlight
                }),
            decreases bs.len() - i,
        {
            let ghost st = opened_display(bs, hls, i as nat);
            let c = bytes[i];
            if self.highlights.contains(&i) {
                if !highlight {
                    push_span(&mut line, &acc, false, Ghost(st.line));
                    acc = String::new();
                }
                highlight = true;
            } else if highlight {
                push_span(&mut line, &acc, true, Ghost(st.line));
                acc = String::new();
                highlight = false;
            }
            let ghost st1 = if hls.contains(i) {
                if !st.highlight {
                    DisplayState { line: st.line.push((st.acc, false)), acc: Seq::empty(), highlight: true, ..st }
                } else {
                    st
                }
            } else if st.highlight {
                DisplayState { line: st.line.push((st.acc, true)), acc: Seq::empty(), highlight: false, ..st }
            } else {
                st
            };
            if c == 10u8 {
                push_span(&mut line, &acc, highlight, Ghost(st1.line));
                let ghost lm = st1.line.push((st1.acc, st1.highlight));
                output.lines.push(line);
                assert(text_shows(output.lines@, st1.lines.push(lm)));
                line = StyledLine::new();
                acc = String::new();
            } else {
                string_push(&mut acc, c as char);
            }
            i = i + 1;
        }
        output
    }
}

/// A file of either kind.
pub enum FileKind {
    Unopened(UnopenedFile),
    Opened(OpenedFile),
}

/// The abstract state of a file of either kind: its buffer and highlights, whether it has a
/// path and which, and whether it is saved.
pub struct FileState {
    pub file: FileView,
    pub opened: bool,
    pub path: Option<Seq<char>>,
    pub saved: bool,
}

/// A file being edited, which may not have a path yet.
pub struct File {
    file: FileKind,
    saved: bool,
}

impl View for File {
    type V = FileState;

    closed spec fn view(&self) -> FileState {
        match self.file {
            FileKind::Unopened(f) => FileState { file: f@, opened: false, path: None, saved: self.saved },
            FileKind::Opened(f) => FileState {
                file: f@,
                opened: true,
                path: Some(f.path_view()),
                saved: self.saved,
            },
        }
    }
}

impl File {
    /// An empty file without a path, saved.
    pub fn unopened(settings: &Settings) -> (f: Self)
        ensures
            f@.file.buffer == (BufferView {
                history: seq![Seq::<u8>::empty()],
                current: 0,
                version: 0,
                tab_size: settings.editor_settings.tab_size,
            }),
            f@.file.buffer.wf(),
            f@.file.highlights == Set::<usize>::empty(),
            !f@.opened,
            f@.path is None,
            f@.saved,
    {
        Self { file: FileKind::Unopened(UnopenedFile::new(settings)), saved: true }
    }

    /// The file that was read, saved.
    pub fn opened(file: OpenedFile) -> (f: Self)
        ensures
            f@.file == file@,
            f@.opened,
            f@.path == Some(file.path_view()),
            f@.saved,
    {
        Self { file: FileKind::Opened(file), saved: true }
    }

    /// Takes away every highlight.
    pub fn clear_highlights(&mut self)
        ensures
            final(self)@ == (FileState {
                file: FileView { highlights: Set::<usize>::empty(), ..old(self)@.file },
                ..old(self)@
            }),
    {
        match &mut self.file {
            FileKind::Unopened(f) => f.highlights.clear(),
            FileKind::Opened(f) => f.highlights.clear(),
        }
    }

    /// Highlights the bytes `start..=end`.
    pub fn add_highlight(&mut self, start: usize, end: usize)
        ensures
            final(self)@ == (FileState {
                file: FileView {
                    highlights: old(self)@.file.highlights.union(byte_range(start, end)),
                    ..old(self)@.file
                },
                ..old(self)@
            }),
    {
        match &mut self.file {
            FileKind::Unopened(f) => f.add_highlight(start, end),
            FileKind::Opened(f) => f.add_highlight(start, end),
        }
    }

    /// Highlights row `row`, if there is one.
    pub fn select_row(&mut self, row: usize)
        requires
            old(self)@.file.buffer.wf(),
            rows_fit(old(self)@.file.buffer),
        ensures
            final(self)@ == (FileState {
                file: FileView {
                    highlights: select_row_highlights(
                        old(self)@.file.buffer,
                        old(self)@.file.highlights,
                        row as nat,
                    ),
                    ..old(self)@.file
                },
                ..old(self)@
            }),
    {
        match &mut self.file {
            FileKind::Unopened(f) => f.select_row(row),
            FileKind::Opened(f) => f.select_row(row),
        }
    }

    /// The path of the file, if it has one.
    pub fn get_path(&self) -> (p: Option<String>)
        ensures
            p matches Some(s) ==> self@.path == Some(s@),
            p is None ==> self@.path is None,
    {
        match &self.file {
            FileKind::Unopened(_) => None,
            FileKind::Opened(f) => Some(f.get_path()),
        }
    }

    /// Whether nothing changed since the file was last saved.
    pub fn has_saved(&self) -> (b: bool)
        ensures
            b == self@.saved,
    {
        self.saved
    }

    /// The text to write when the file is saved.
    pub fn contents(&self) -> (s: String)
        requires
            self@.file.buffer.wf(),
        ensures
            string_bytes(s) == self@.file.buffer.text(),
    {
        match &self.file {
            FileKind::Unopened(f) => f.buffer.to_string(),
            FileKind::Opened(f) => f.buffer.to_string(),
        }
    }

    /// The byte at `byte_offset`.
    pub fn get_byte(&self, byte_offset: usize) -> (b: u8)
        requires
            self@.file.buffer.wf(),
            byte_offset < self@.file.buffer.text().len(),
        ensures
            b == self@.file.buffer.text()[byte_offset as int],
    {
        match &self.file {
            FileKind::Unopened(f) => f.buffer.get_byte(byte_offset),
            FileKind::Opened(f) => f.buffer.get_byte(byte_offset),
        }
    }

    /// The column and the row of byte `byte_offset`, if it lies inside the text.
    pub fn get_cursor(&self, byte_offset: usize) -> (r: Option<(usize, usize)>)
        requires
            self@.file.buffer.wf(),
        ensures
            r is Some <==> byte_offset < self@.file.buffer.text().len(),
            r matches Some(p) ==> p.0 == crate::words::cursor_of_byte(self@.file.buffer.text(), byte_offset as int).0
                && p.1 == crate::words::cursor_of_byte(self@.file.buffer.text(), byte_offset as int).1,
    {
        match &self.file {
            FileKind::Unopened(f) => f.buffer.get_cursor_from_byte_offset(byte_offset),
            FileKind::Opened(f) => f.buffer.get_cursor_from_byte_offset(byte_offset),
        }
    }

    /// Row `row` with its line break, if there is such a row.
    pub fn get_line(&self, row: usize) -> (r: Option<String>)
        requires
            self@.file.buffer.wf(),
        ensures
            r is Some <==> row < line_count(self@.file.buffer.text()),
            r matches Some(s) ==> string_bytes(s) == raw_line_bytes(self@.file.buffer.text(), row as nat),
    {
        let l = match &self.file {
            FileKind::Unopened(f) => f.buffer.get_row(row),
            FileKind::Opened(f) => f.buffer.get_row(row),
        };
        match l {
            Some(s) => Some(s.text),
            None => None,
        }
    }

    /// Shows the version before, if there is one; the file counts as changed.
    pub fn undo(&mut self)
        requires
            old(self)@.file.buffer.wf(),
            old(self)@.file.buffer.version < usize::MAX,
        ensures
            final(self)@.file.buffer == old(self)@.file.buffer.undone(),
            final(self)@.file.buffer.wf(),
            final(self)@.file.highlights == old(self)@.file.highlights,
            final(self)@.saved == false,
            final(self)@.opened == old(self)@.opened,
            final(self)@.path == old(self)@.path,
    {
        match &mut self.file {
            FileKind::Unopened(f) => f.buffer.undo(),
            FileKind::Opened(f) => f.buffer.undo(),
        }
        self.saved = false;
    }

    /// Shows the version after, if there is one; the file counts as changed.
    pub fn redo(&mut self)
        requires
            old(self)@.file.buffer.wf(),
            old(self)@.file.buffer.version < usize::MAX,
        ensures
            final(self)@.file.buffer == old(self)@.file.buffer.redone(),
            final(self)@.file.buffer.wf(),
            final(self)@.file.highlights == old(self)@.file.highlights,
            final(self)@.saved == false,
            final(self)@.opened == old(self)@.opened,
            final(self)@.path == old(self)@.path,
    {
        match &mut self.file {
            FileKind::Unopened(f) => f.buffer.redo(),
            FileKind::Opened(f) => f.buffer.redo(),
        }
        self.saved = false;
    }

    /// The character that holds byte `byte_offset`, if the offset lies inside the text.
    pub fn get_char_at(&self, byte_offset: usize) -> (c: Option<char>)
        requires
            self@.file.buffer.wf(),
        ensures
            c == crate::words::char_at(self@.file.buffer.text(), byte_offset as int),
    {
        match &self.file {
            FileKind::Unopened(f) => f.buffer.get_char_at(byte_offset),
            FileKind::Opened(f) => f.buffer.get_char_at(byte_offset),
        }
    }

    /// The word around byte `byte_offset`, as `Buffer::get_word` finds it.
    pub fn get_word(&self, byte_offset: usize) -> (r: Option<String>)
        requires
            self@.file.buffer.wf(),
            crate::words::word_walk_ok(self@.file.buffer.text(), byte_offset as int),
        ensures
            r is Some <==> (byte_offset < self@.file.buffer.text().len() && crate::chars::spec_is_alphanumeric(
                crate::words::char_at(self@.file.buffer.text(), byte_offset as int)->0,
            )),
            r matches Some(s) ==> string_bytes(s) == self@.file.buffer.text().subrange(
                crate::words::back_over_word(self@.file.buffer.text(), byte_offset as int)->0,
                crate::words::forward_over_word(self@.file.buffer.text(), byte_offset as int),
            ),
    {
        let w = match &self.file {
            FileKind::Unopened(f) => f.buffer.get_word(byte_offset),
            FileKind::Opened(f) => f.buffer.get_word(byte_offset),
        };
        match w {
            Some(s) => Some(s.text),
            None => None,
        }
    }

    /// The text from byte `byte_offset` to the end of the next word, as
    /// `Buffer::get_until_next_word` finds it.
    pub fn get_until_next_word(&self, byte_offset: usize) -> (r: Option<String>)
        requires
            self@.file.buffer.wf(),
            byte_offset < self@.file.buffer.text().len() ==> is_char_boundary(self@.file.buffer.text(), byte_offset as int)
                && is_char_boundary(
                self@.file.buffer.text(),
                crate::words::next_word_scan(self@.file.buffer.text(), byte_offset as int, false),
            ),
        ensures
            r is Some <==> byte_offset < self@.file.buffer.text().len(),
            r matches Some(s) ==> string_bytes(s) == self@.file.buffer.text().subrange(
                byte_offset as int,
                crate::words::next_word_scan(self@.file.buffer.text(), byte_offset as int, false),
            ),
    {
        let w = match &self.file {
            FileKind::Unopened(f) => f.buffer.get_until_next_word(byte_offset),
            FileKind::Opened(f) => f.buffer.get_until_next_word(byte_offset),
        };
        match w {
            Some(s) => Some(s.text),
            None => None,
        }
    }

    /// The text from the start of the previous word to byte `byte_offset`, as
    /// `Buffer::get_until_prev_word` finds it.
    pub fn get_until_prev_word(&self, byte_offset: usize) -> (r: Option<String>)
        requires
            self@.file.buffer.wf(),
            byte_offset < self@.file.buffer.text().len() ==> (crate::words::prev_word_scan(
                self@.file.buffer.text(),
                byte_offset as int,
                false,
            ) matches Some(p) && is_char_boundary(self@.file.buffer.text(), p) && is_char_boundary(
                self@.file.buffer.text(),
                byte_offset as int,
            )),
        ensures
            r is Some <==> byte_offset < self@.file.buffer.text().len(),
            r matches Some(s) ==> string_bytes(s) == self@.file.buffer.text().subrange(
                crate::words::prev_word_scan(self@.file.buffer.text(), byte_offset as int, false)->0,
                byte_offset as int,
            ),
    {
        let w = match &self.file {
            FileKind::Unopened(f) => f.buffer.get_until_prev_word(byte_offset),
            FileKind::Opened(f) => f.buffer.get_until_prev_word(byte_offset),
        };
        match w {
            Some(s) => Some(s.text),
            None => None,
        }
    }

    /// Deletes the word around byte `byte_offset` in a new version, as `Buffer::delete_word`
    /// does, and answers where the word started.
    pub fn delete_word(&mut self, byte_offset: usize) -> (start: usize)
        requires
            old(self)@.file.buffer.wf(),
            old(self)@.file.buffer.version < usize::MAX,
            byte_offset == old(self)@.file.buffer.text().len() || crate::words::word_at(
                old(self)@.file.buffer.text(),
                byte_offset as int,
            ),
        ensures
            start == crate::words::word_bounds(old(self)@.file.buffer.text(), byte_offset as int).0,
            final(self)@.file.buffer == old(self)@.file.buffer.edited(
                old(self)@.file.buffer.text().take(start as int) + old(self)@.file.buffer.text().skip(
                    crate::words::word_bounds(old(self)@.file.buffer.text(), byte_offset as int).1,
                ),
            ),
            final(self)@.file.buffer.wf(),
            final(self)@.file.highlights == old(self)@.file.highlights,
            final(self)@.saved == false,
            final(self)@.opened == old(self)@.opened,
            final(self)@.path == old(self)@.path,
    {
        let start = match &mut self.file {
            FileKind::Unopened(f) => f.buffer.delete_word(byte_offset),
            FileKind::Opened(f) => f.buffer.delete_word(byte_offset),
        };
        self.saved = false;
        start
    }

    /// Deletes row `row` with its line break in a new version, as `Buffer::delete_line` does.
    pub fn delete_line(&mut self, row: usize)
        requires
            old(self)@.file.buffer.wf(),
            old(self)@.file.buffer.version < usize::MAX,
            1 <= line_count(old(self)@.file.buffer.text()),
            row <= line_count(old(self)@.file.buffer.text()),
        ensures
            final(self)@.file.buffer == old(self)@.file.buffer.edited(
                old(self)@.file.buffer.text().take(crate::rope::line_start(old(self)@.file.buffer.text(), row as nat) as int)
                    + old(self)@.file.buffer.text().skip(
                    crate::words::line_deletion_end(old(self)@.file.buffer.text(), row as nat),
                ),
            ),
            final(self)@.file.buffer.wf(),
            final(self)@.file.highlights == old(self)@.file.highlights,
            final(self)@.saved == false,
            final(self)@.opened == old(self)@.opened,
            final(self)@.path == old(self)@.path,
    {
        match &mut self.file {
            FileKind::Unopened(f) => f.buffer.delete_line(row),
            FileKind::Opened(f) => f.buffer.delete_line(row),
        }
        self.saved = false;
    }

    /// The number of lines.
    pub fn get_line_count(&self) -> (n: usize)
        requires
            self@.file.buffer.wf(),
        ensures
            n == line_count(self@.file.buffer.text()),
    {
        match &self.file {
            FileKind::Unopened(f) => f.buffer.get_line_count(),
            FileKind::Opened(f) => f.buffer.get_line_count(),
        }
    }

    /// The on-screen width of row `row`, if there is one.
    pub fn get_row_len(&self, row: usize) -> (n: Option<usize>)
        requires
            self@.file.buffer.wf(),
            row < line_count(self@.file.buffer.text()) ==> text_width(
                decode_utf8(line_bytes(self@.file.buffer.text(), row as nat)),
                self@.file.buffer.tab_size,
            ) <= usize::MAX,
        ensures
            n == if row < line_count(self@.file.buffer.text()) {
                Some(
                    text_width(
                        decode_utf8(line_bytes(self@.file.buffer.text(), row as nat)),
                        self@.file.buffer.tab_size,
                    ) as usize,
                )
            } else {
                None
            },
    {
        match &self.file {
            FileKind::Unopened(f) => f.buffer.line_len(row),
            FileKind::Opened(f) => f.buffer.line_len(row),
        }
    }

    /// The byte offset of column `col` on row `row`.
    pub fn get_byte_offset(&self, row: usize, col: usize) -> (r: Option<usize>)
        requires
            self@.file.buffer.wf(),
            line_count(self@.file.buffer.text()) >= 1,
        ensures
            r == Some(byte_offset_at(self@.file.buffer.text(), col as nat, row as nat) as usize),
    {
        match &self.file {
            FileKind::Unopened(f) => f.get_byte_offset(row, col),
            FileKind::Opened(f) => f.get_byte_offset(row, col),
        }
    }

    /// Inserts `c` at `byte_offset` in the shown version.
    pub fn insert_after_current(&mut self, byte_offset: usize, c: &str)
        requires
            old(self)@.file.buffer.wf(),
            old(self)@.file.buffer.version < usize::MAX,
            byte_offset <= old(self)@.file.buffer.text().len(),
            is_char_boundary(old(self)@.file.buffer.text(), byte_offset as int),
        ensures
            final(self)@.file.buffer == old(self)@.file.buffer.branch_if_first().with_text(
                splice(old(self)@.file.buffer.text(), byte_offset as int, byte_offset as int, c.spec_bytes()),
            ).bumped(),
            final(self)@.file.buffer.wf(),
            final(self)@.file.highlights == old(self)@.file.highlights,
            final(self)@.saved == false,
            final(self)@.opened == old(self)@.opened,
            final(self)@.path == old(self)@.path,
    {
        match &mut self.file {
            FileKind::Unopened(f) => f.insert_after_current(byte_offset, c),
            FileKind::Opened(f) => f.insert_after_current(byte_offset, c),
        }
        self.saved = false;
    }

    /// Inserts `c` two bytes before `byte_offset` (at 0 where there are fewer) in the shown version.
    pub fn insert_before_current(&mut self, byte_offset: usize, c: &str)
        requires
            old(self)@.file.buffer.wf(),
            old(self)@.file.buffer.version < usize::MAX,
            sub1(sub1(byte_offset)) <= old(self)@.file.buffer.text().len(),
            is_char_boundary(old(self)@.file.buffer.text(), sub1(sub1(byte_offset)) as int),
        ensures
            final(self)@.file.buffer == old(self)@.file.buffer.branch_if_first().with_text(
                splice(
                    old(self)@.file.buffer.text(),
                    sub1(sub1(byte_offset)) as int,
                    sub1(sub1(byte_offset)) as int,
                    c.spec_bytes(),
                ),
            ).bumped(),
            final(self)@.file.buffer.wf(),
            final(self)@.file.highlights == old(self)@.file.highlights,
            final(self)@.saved == false,
            final(self)@.opened == old(self)@.opened,
            final(self)@.path == old(self)@.path,
    {
        let byte_offset = byte_offset.saturating_sub(1);
        match &mut self.file {
            FileKind::Unopened(f) => f.insert_before_current(byte_offset, c),
            FileKind::Opened(f) => f.insert_before_current(byte_offset, c),
        }
        self.saved = false;
    }

    /// Inserts `c` at `byte_offset` in a new version.
    pub fn insert_after(&mut self, byte_offset: usize, c: &str)
        requires
            old(self)@.file.buffer.wf(),
            old(self)@.file.buffer.version < usize::MAX,
            byte_offset <= old(self)@.file.buffer.text().len(),
            is_char_boundary(old(self)@.file.buffer.text(), byte_offset as int),
        ensures
            final(self)@.file.buffer == old(self)@.file.buffer.edited(
                splice(old(self)@.file.buffer.text(), byte_offset as int, byte_offset as int, c.spec_bytes()),
            ),
            final(self)@.file.buffer.wf(),
            final(self)@.file.highlights == old(self)@.file.highlights,
            final(self)@.saved == false,
            final(self)@.opened == old(self)@.opened,
            final(self)@.path == old(self)@.path,
    {
        match &mut self.file {
            FileKind::Unopened(f) => f.insert_after(byte_offset, c),
            FileKind::Opened(f) => f.insert_after(byte_offset, c),
        }
        self.saved = false;
    }

    /// Inserts `c` two bytes before `byte_offset` (at 0 where there are fewer) in a new version.
    pub fn insert_before(&mut self, byte_offset: usize, c: &str)
        requires
            old(self)@.file.buffer.wf(),
            old(self)@.file.buffer.version < usize::MAX,
            sub1(sub1(byte_offset)) <= old(self)@.file.buffer.text().len(),
            is_char_boundary(old(self)@.file.buffer.text(), sub1(sub1(byte_offset)) as int),
        ensures
            final(self)@.file.buffer == old(self)@.file.buffer.edited(
                splice(
                    old(self)@.file.buffer.text(),
                    sub1(sub1(byte_offset)) as int,
                    sub1(sub1(byte_offset)) as int,
                    c.spec_bytes(),
                ),
            ),
            final(self)@.file.buffer.wf(),
            final(self)@.file.highlights == old(self)@.file.highlights,
            final(self)@.saved == false,
            final(self)@.opened == old(self)@.opened,
            final(self)@.path == old(self)@.path,
    {
        let byte_offset = byte_offset.saturating_sub(1);
        match &mut self.file {
            FileKind::Unopened(f) => f.insert_before(byte_offset, c),
            FileKind::Opened(f) => f.insert_before(byte_offset, c),
        }
        self.saved = false;
    }

    /// Deletes the bytes in `range` from the shown version.
    pub fn delete_current(&mut self, range: std::ops::Range<usize>)
        requires
            old(self)@.file.buffer.wf(),
            old(self)@.file.buffer.version < usize::MAX,
            edit_fits(old(self)@.file.buffer.text(), deletion(range)),
        ensures
            final(self)@.file.buffer == old(self)@.file.buffer.branch_if_first().with_text(
                apply_edit(old(self)@.file.buffer.text(), deletion(range)),
            ).bumped(),
            final(self)@.file.buffer.wf(),
            final(self)@.file.highlights == old(self)@.file.highlights,
            final(self)@.saved == false,
            final(self)@.opened == old(self)@.opened,
            final(self)@.path == old(self)@.path,
    {
        match &mut self.file {
            FileKind::Unopened(f) => f.delete_current(range),
            FileKind::Opened(f) => f.delete_current(range),
        }
        self.saved = false;
    }

    /// Deletes the bytes in `range` in a new version.
    pub fn delete(&mut self, range: std::ops::Range<usize>)
        requires
            old(self)@.file.buffer.wf(),
            old(self)@.file.buffer.version < usize::MAX,
            edit_fits(old(self)@.file.buffer.text(), deletion(range)),
        ensures
            final(self)@.file.buffer == old(self)@.file.buffer.edited(
                apply_edit(old(self)@.file.buffer.text(), deletion(range)),
            ),
            final(self)@.file.buffer.wf(),
            final(self)@.file.highlights == old(self)@.file.highlights,
            final(self)@.saved == false,
            final(self)@.opened == old(self)@.opened,
            final(self)@.path == old(self)@.path,
    {
        match &mut self.file {
            FileKind::Unopened(f) => f.delete(range),
            FileKind::Opened(f) => f.delete(range),
        }
        self.saved = false;
    }

    /// Replaces the bytes of `range` but its last one by `c` in the shown version, when `c` is
    /// longer than they are.
    pub fn replace_current(&mut self, range: std::ops::Range<usize>, c: &str)
        requires
            old(self)@.file.buffer.wf(),
            old(self)@.file.buffer.version + 2 <= usize::MAX,
            1 <= range.end,
            range.start <= range.end - 1,
            replace_changes(range, c) ==> {
                &&& edit_fits(old(self)@.file.buffer.text(), replace_edit(range, c.spec_bytes()))
                &&& is_char_boundary(c.spec_bytes(), range.end - 1 - range.start)
            },
        ensures
            final(self)@.file.buffer == if replace_changes(range, c) {
                old(self)@.file.buffer.branch_if_first().with_text(
                    apply_edit(old(self)@.file.buffer.text(), replace_edit(range, c.spec_bytes())),
                ).bumped().bumped()
            } else {
                old(self)@.file.buffer.branch_if_first().bumped()
            },
            final(self)@.file.buffer.wf(),
            final(self)@.file.highlights == old(self)@.file.highlights,
            final(self)@.saved == false,
            final(self)@.opened == old(self)@.opened,
            final(self)@.path == old(self)@.path,
    {
        match &mut self.file {
            FileKind::Unopened(f) => f.replace_current(range, c),
            FileKind::Opened(f) => f.replace_current(range, c),
        }
        self.saved = false;
    }

    /// Replaces the bytes of `range` but its last one by `c` in a new version, when `c` is
    /// longer than they are.
    pub fn replace(&mut self, range: std::ops::Range<usize>, c: &str)
        requires
            old(self)@.file.buffer.wf(),
            old(self)@.file.buffer.version + 2 <= usize::MAX,
            1 <= range.end,
            range.start <= range.end - 1,
            replace_changes(range, c) ==> {
                &&& edit_fits(old(self)@.file.buffer.text(), replace_edit(range, c.spec_bytes()))
                &&& is_char_boundary(c.spec_bytes(), range.end - 1 - range.start)
            },
        ensures
            final(self)@.file.buffer == if replace_changes(range, c) {
                old(self)@.file.buffer.branch().with_text(
                    apply_edit(old(self)@.file.buffer.text(), replace_edit(range, c.spec_bytes())),
                ).bumped().bumped()
            } else {
                old(self)@.file.buffer.branch().bumped()
            },
            final(self)@.file.buffer.wf(),
            final(self)@.file.highlights == old(self)@.file.highlights,
            final(self)@.saved == false,
            final(self)@.opened == old(self)@.opened,
            final(self)@.path == old(self)@.path,
    {
        match &mut self.file {
            FileKind::Unopened(f) => f.replace(range, c),
            FileKind::Opened(f) => f.replace(range, c),
        }
        self.saved = false;
    }

    /// Searches for `string` as the kind of file does: see `UnopenedFile::find_occurrences`
    /// and `OpenedFile::find_occurrences`.
    pub fn find(&mut self, col: usize, row: usize, string: &str, down: bool) -> (out: Vec<(usize, usize)>)
        requires
            old(self)@.file.buffer.wf(),
            2 * old(self)@.file.buffer.text().len() <= usize::MAX,
        ensures
            final(self)@.file.buffer == old(self)@.file.buffer,
            final(self)@.opened == old(self)@.opened,
            final(self)@.path == old(self)@.path,
            final(self)@.saved == old(self)@.saved,
            ({
                let t = old(self)@.file.buffer.text();
                let n = string.spec_bytes();
                if old(self)@.opened {
                    let (lo, hi) = if down { (row as nat, line_count(t)) } else { (0nat, row as nat) };
                    &&& out@ == opened_matches(t, n, lo, hi)
                    &&& final(self)@.file.highlights == old(self)@.file.highlights.union(
                        opened_match_bytes(t, n, lo, hi),
                    )
                } else {
                    &&& out@ == if down {
                        matching_rows(t, col as nat, n, row as nat, t.len())
                    } else {
                        matching_rows(t, col as nat, n, 0, row as nat)
                    }
                    &&& final(self)@.file.highlights == old(self)@.file.highlights
                }
            }),
    {
        match &mut self.file {
            FileKind::Unopened(f) => f.find_occurrences(col, row, string, down),
            FileKind::Opened(f) => f.find_occurrences(col, row, string, down),
        }
    }

    /// The name of the file: empty without a path, else the last component of the path.
    pub fn get_name(&self) -> (s: String)
        requires
            self@.opened ==> file_name_of(self@.path->0) is Some,
        ensures
            self@.opened ==> file_name_of(self@.path->0) == Some(s@),
            !self@.opened ==> s@ == Seq::<char>::empty(),
    {
        match &self.file {
            FileKind::Unopened(f) => f.get_name(),
            FileKind::Opened(f) => f.get_name(),
        }
    }

    /// The name of the file, unless it has a path that ends in no name.
    pub fn name(&self) -> (r: Option<String>)
        ensures
            r matches Some(s) ==> (self@.opened ==> file_name_of(self@.path->0) == Some(s@)) && (
            !self@.opened ==> s@ == Seq::<char>::empty()),
            r is None ==> self@.opened && file_name_of(self@.path->0) is None,
    {
        match &self.file {
            FileKind::Unopened(f) => Some(f.get_name()),
            FileKind::Opened(f) => match f.file_name() {
                Some(_) => Some(self.get_name()),
                None => None,
            },
        }
    }

    /// Records that the text was written: a file without a path takes `path` and starts a new
    /// version as a newly opened file does; the file is then saved.
    pub fn finish_save(&mut self, path: Option<String>)
        requires
            old(self)@.file.buffer.wf(),
            !old(self)@.opened ==> path is Some,
        ensures
            final(self)@.saved,
            final(self)@.opened,
            final(self)@.file.highlights == old(self)@.file.highlights,
            final(self)@.file.buffer.wf(),
            old(self)@.opened ==> final(self)@.file == old(self)@.file && final(self)@.path == old(
                self,
            )@.path,
            !old(self)@.opened ==> {
                &&& final(self)@.path == Some(path->0@)
                &&& final(self)@.file.buffer == if old(self)@.file.buffer.current > 0
                    && old(self)@.file.buffer.history[old(self)@.file.buffer.current - 1]
                    == old(self)@.file.buffer.text() {
                    old(self)@.file.buffer
                } else {
                    old(self)@.file.buffer.branch()
                }
            },
    {
        let mut kind = FileKind::Unopened(UnopenedFile {
            buffer: Buffer::from_str(""),
            language: None,
            highlights: HashSet::new(),
        });
        std::mem::swap(&mut kind, &mut self.file);
        self.file = match kind {
            FileKind::Unopened(f) => {
                let p = path.unwrap();
                FileKind::Opened(OpenedFile::from_unopened(f, p))
            },
            FileKind::Opened(f) => FileKind::Opened(f),
        };
        self.saved = true;
    }

    /// The text in lines of spans, highlighted as the kind of file shows it.
    pub fn display(&self) -> (out: StyledText)
        requires
            self@.file.buffer.wf(),
        ensures
            text_shows(
                out.lines@,
                if self@.opened {
                    opened_display(
                        self@.file.buffer.text(),
                        self@.file.highlights,
                        self@.file.buffer.text().len(),
                    ).lines
                } else {
                    unopened_display(
                        decode_utf8(self@.file.buffer.text()),
                        self@.file.highlights,
                        decode_utf8(self@.file.buffer.text()).len(),
                    ).lines
                },
            ),
    {
        match &self.file {
            FileKind::Unopened(f) => f.display(),
            FileKind::Opened(f) => f.display(),
        }
    }
}

/// `n - 1`, or 0 for 0.
pub open spec fn sub1(n: usize) -> usize {
    if n > 0 {
        (n - 1) as usize
    } else {
        0
    }
}


/// Why a file cannot be opened: there is no file at the path, the path is a directory, or a
/// copy saved for recovery was found beside it (the file opened is handed back).
pub enum FileError {
    FileDoesNotExist,
    Directory,
    RecoverFileFound(File),
}

/// Whether a path can be opened as a file, from whether it is a directory and whether it is
/// a file: a directory cannot, nor can a path that is no file.
pub fn open_check(is_dir: bool, is_file: bool) -> (r: Result<(), FileError>)
    ensures
        is_dir ==> r matches Err(FileError::Directory),
        !is_dir && !is_file ==> r matches Err(FileError::FileDoesNotExist),
        !is_dir && is_file ==> r is Ok,
{
    if is_dir {
        return Err(FileError::Directory);
    }
    if !is_file {
        return Err(FileError::FileDoesNotExist);
    }
    Ok(())
}

/// The path of the copy kept for recovering the file `name` in the directory `parent`: the
/// directory, two number signs and the name.
pub fn recovery_path(parent: Option<&str>, name: &str) -> (p: String)
    ensures
        p@ == match parent {
            Some(d) => d@ + "##"@ + name@,
            None => "##"@ + name@,
        },
{
    let mut p = match parent {
        Some(d) => d.to_string(),
        None => String::new(),
    };
    p.append("##");
    p.append(name);
    p
}

/// The outcome of opening `file`: the file, or the file handed back with the note that a copy
/// for recovering it exists.
pub fn finish_open(file: File, recovery_exists: bool) -> (r: Result<File, FileError>)
    ensures
        recovery_exists ==> (r matches Err(FileError::RecoverFileFound(f)) && f@ == file@),
        !recovery_exists ==> (r matches Ok(f) && f@ == file@),
{
    if recovery_exists {
        Err(FileError::RecoverFileFound(file))
    } else {
        Ok(file)
    }
}

impl File {
    /// Whether the file was opened from a path.
    pub fn is_opened(&self) -> (b: bool)
        ensures
            b == self@.opened,
    {
        match &self.file {
            FileKind::Unopened(_) => false,
            FileKind::Opened(_) => true,
        }
    }

    /// The highlighted bytes that lie in the text, in order.
    pub fn highlighted_bytes(&self) -> (v: Vec<usize>)
        requires
            self@.file.buffer.wf(),
        ensures
            forall|b: usize|
                v@.contains(b) <==> (b < self@.file.buffer.text().len() && self@.file.highlights.contains(b)),
    {
        match &self.file {
            FileKind::Unopened(f) => bytes_below(&f.highlights, f.buffer.get_byte_count()),
            FileKind::Opened(f) => bytes_below(&f.highlights, f.buffer.get_byte_count()),
        }
    }

    /// The texts of the highlighted runs of bytes, each byte taken as the character of that
    /// number: every run but the last where it is one byte long. Nothing where no byte is
    /// highlighted.
    pub fn get_highlighted(&self) -> (r: Option<Vec<String>>)
        requires
            self@.file.buffer.wf(),
            highlights_below(self@.file.highlights, self@.file.buffer.text().len() as int),
        ensures
            r is None <==> self@.file.highlights == Set::<usize>::empty(),
            r matches Some(v) ==> crate::registers::texts_view(v@) == runs_chars(
                self@.file.buffer.text(),
                selected_runs(runs_below(self@.file.highlights, self@.file.buffer.text().len())),
            ),
    {
        match &self.file {
            FileKind::Unopened(f) => selected_texts(&f.buffer, &f.highlights),
            FileKind::Opened(f) => selected_texts(&f.buffer, &f.highlights),
        }
    }

    /// Deletes the highlighted runs of bytes in a new version, from the last run to the first:
    /// every run but the first where it is one byte long. Gives back the first highlighted byte.
    pub fn delete_highlighted(&mut self) -> (start: usize)
        requires
            old(self)@.file.buffer.wf(),
            old(self)@.file.buffer.version < usize::MAX,
            old(self)@.file.highlights != Set::<usize>::empty(),
            highlights_below(old(self)@.file.highlights, old(self)@.file.buffer.text().len() as int),
            crate::buffer::edits_fit(
                old(self)@.file.buffer.text(),
                deleted_runs(runs_below(old(self)@.file.highlights, old(self)@.file.buffer.text().len())).map_values(
                    |r: (usize, usize)| run_deletion(r),
                ),
            ),
        ensures
            final(self)@.file.buffer == old(self)@.file.buffer.branch_if_first().with_text(
                crate::buffer::apply_edits(
                    old(self)@.file.buffer.text(),
                    deleted_runs(runs_below(old(self)@.file.highlights, old(self)@.file.buffer.text().len())).map_values(
                        |r: (usize, usize)| run_deletion(r),
                    ),
                ),
            ).bumped(),
            final(self)@.file.buffer.wf(),
            old(self)@.file.highlights.contains(start),
            forall|b: usize| b < start ==> !old(self)@.file.highlights.contains(b),
            final(self)@.file.highlights == old(self)@.file.highlights,
            final(self)@.saved == false,
            final(self)@.opened == old(self)@.opened,
            final(self)@.path == old(self)@.path,
    {
        let start = match &mut self.file {
            FileKind::Unopened(f) => delete_selected(&mut f.buffer, &f.highlights),
            FileKind::Opened(f) => delete_selected(&mut f.buffer, &f.highlights),
        };
        self.saved = false;
        start
    }

    /// Puts `text` in place of every highlighted run of bytes but the last where it is one byte
    /// long, in a new version.
    pub fn replace_selections(&mut self, text: &str)
        requires
            old(self)@.file.buffer.wf(),
            ({
                let sel = selected_runs(runs_below(old(self)@.file.highlights, old(self)@.file.buffer.text().len()));
                let es = run_replacements(sel, Seq::new(sel.len(), |i: int| text@));
                &&& old(self)@.file.buffer.version + es.len() + 1 <= usize::MAX
                &&& forall|i: int|
                    0 <= i < sel.len() ==> (#[trigger] sel[i].1 - sel[i].0 < encode_utf8(text@).len()
                        ==> is_char_boundary(encode_utf8(text@), sel[i].1 - sel[i].0))
                &&& crate::buffer::edits_rev_fit(old(self)@.file.buffer.text(), es)
            }),
        ensures
            ({
                let sel = selected_runs(runs_below(old(self)@.file.highlights, old(self)@.file.buffer.text().len()));
                let es = run_replacements(sel, Seq::new(sel.len(), |i: int| text@));
                final(self)@.file.buffer == (BufferView {
                    version: old(self)@.file.buffer.version + es.len() + 1,
                    ..old(self)@.file.buffer.branch().with_text(
                        crate::buffer::apply_edits_rev(old(self)@.file.buffer.text(), es),
                    )
                })
            }),
            final(self)@.file.buffer.wf(),
            final(self)@.file.highlights == old(self)@.file.highlights,
            final(self)@.saved == false,
            final(self)@.opened == old(self)@.opened,
            final(self)@.path == old(self)@.path,
    {
        match &mut self.file {
            FileKind::Unopened(f) => replace_selected_by(&mut f.buffer, &f.highlights, text),
            FileKind::Opened(f) => replace_selected_by(&mut f.buffer, &f.highlights, text),
        }
        self.saved = false;
    }

    /// Puts the texts in place of the highlighted runs of bytes, the first text for the first
    /// run and so on as far as both go, in a new version; the last run is left out where it
    /// is one byte long.
    pub fn replace_selections_with(&mut self, texts: Vec<String>)
        requires
            old(self)@.file.buffer.wf(),
            ({
                let sel = selected_runs(runs_below(old(self)@.file.highlights, old(self)@.file.buffer.text().len()));
                let es = run_replacements(sel, crate::registers::texts_view(texts@));
                &&& old(self)@.file.buffer.version + es.len() + 1 <= usize::MAX
                &&& forall|i: int|
                    0 <= i < es.len() ==> (sel[i].1 - sel[i].0 < encode_utf8(#[trigger] texts@[i]@).len()
                        ==> is_char_boundary(encode_utf8(texts@[i]@), sel[i].1 - sel[i].0))
                &&& crate::buffer::edits_rev_fit(old(self)@.file.buffer.text(), es)
            }),
        ensures
            ({
                let sel = selected_runs(runs_below(old(self)@.file.highlights, old(self)@.file.buffer.text().len()));
                let es = run_replacements(sel, crate::registers::texts_view(texts@));
                final(self)@.file.buffer == (BufferView {
                    version: old(self)@.file.buffer.version + es.len() + 1,
                    ..old(self)@.file.buffer.branch().with_text(
                        crate::buffer::apply_edits_rev(old(self)@.file.buffer.text(), es),
                    )
                })
            }),
            final(self)@.file.buffer.wf(),
            final(self)@.file.highlights == old(self)@.file.highlights,
            final(self)@.saved == false,
            final(self)@.opened == old(self)@.opened,
            final(self)@.path == old(self)@.path,
    {
        match &mut self.file {
            FileKind::Unopened(f) => replace_selected(&mut f.buffer, &f.highlights, texts),
            FileKind::Opened(f) => replace_selected(&mut f.buffer, &f.highlights, texts),
        }
        self.saved = false;
    }

    /// Puts `open` before and `close` after every highlighted run of bytes but the last where
    /// it is one byte long, in a new version.
    pub fn insert_pairs(&mut self, open: &str, close: &str)
        requires
            old(self)@.file.buffer.wf(),
            crate::buffer::edits_rev_fit(
                old(self)@.file.buffer.text(),
                run_wrappings(
                    selected_runs(runs_below(old(self)@.file.highlights, old(self)@.file.buffer.text().len())),
                    open@,
                    close@,
                ),
            ),
        ensures
            final(self)@.file.buffer == old(self)@.file.buffer.branch().with_text(
                crate::buffer::apply_edits_rev(
                    old(self)@.file.buffer.text(),
                    run_wrappings(
                        selected_runs(runs_below(old(self)@.file.highlights, old(self)@.file.buffer.text().len())),
                        open@,
                        close@,
                    ),
                ),
            ),
            final(self)@.file.buffer.wf(),
            final(self)@.file.highlights == old(self)@.file.highlights,
            final(self)@.saved == false,
            final(self)@.opened == old(self)@.opened,
            final(self)@.path == old(self)@.path,
    {
        match &mut self.file {
            FileKind::Unopened(f) => wrap_selected(&mut f.buffer, &f.highlights, open, close),
            FileKind::Opened(f) => wrap_selected(&mut f.buffer, &f.highlights, open, close),
        }
        self.saved = false;
    }
}

impl File {
    /// The number of bytes of the shown text.
    pub fn byte_count(&self) -> (n: usize)
        requires
            self@.file.buffer.wf(),
        ensures
            n == self@.file.buffer.text().len(),
    {
        match &self.file {
            FileKind::Unopened(f) => f.buffer.get_byte_count(),
            FileKind::Opened(f) => f.buffer.get_byte_count(),
        }
    }

    /// Whether byte `k` of the shown text starts a character or is its end.
    pub fn is_boundary(&self, k: usize) -> (b: bool)
        requires
            self@.file.buffer.wf(),
        ensures
            b == is_char_boundary(self@.file.buffer.text(), k as int),
    {
        match &self.file {
            FileKind::Unopened(f) => f.buffer.is_boundary(k),
            FileKind::Opened(f) => f.buffer.is_boundary(k),
        }
    }

    /// Where the walk from byte `i` to the end of the next word ends.
    pub fn next_word_end(&self, i: usize) -> (e: usize)
        requires
            self@.file.buffer.wf(),
            i <= self@.file.buffer.text().len(),
        ensures
            e == crate::words::next_word_scan(self@.file.buffer.text(), i as int, false),
    {
        match &self.file {
            FileKind::Unopened(f) => f.buffer.next_word_end(i),
            FileKind::Opened(f) => f.buffer.next_word_end(i),
        }
    }

    /// Where the walk back from byte `i` to the start of the previous word ends, if it ends
    /// before the start of the text.
    pub fn prev_word_start(&self, i: usize) -> (r: Option<usize>)
        requires
            self@.file.buffer.wf(),
        ensures
            match r {
                Some(p) => crate::words::prev_word_scan(self@.file.buffer.text(), i as int, false) == Some(p as int),
                None => crate::words::prev_word_scan(self@.file.buffer.text(), i as int, false) is None,
            },
    {
        match &self.file {
            FileKind::Unopened(f) => f.buffer.prev_word_start(i),
            FileKind::Opened(f) => f.buffer.prev_word_start(i),
        }
    }

    /// The range that deleting the word around byte `i` deletes.
    pub fn word_bounds_at(&self, i: usize) -> (r: (usize, usize))
        requires
            self@.file.buffer.wf(),
            i <= self@.file.buffer.text().len(),
        ensures
            r.0 == crate::words::word_bounds(self@.file.buffer.text(), i as int).0,
            r.1 == crate::words::word_bounds(self@.file.buffer.text(), i as int).1,
            r.0 <= r.1 <= self@.file.buffer.text().len(),
    {
        match &self.file {
            FileKind::Unopened(f) => f.buffer.word_bounds_at(i),
            FileKind::Opened(f) => f.buffer.word_bounds_at(i),
        }
    }
}

} // verus!
