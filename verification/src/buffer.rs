use crop::Rope;
use vstd::prelude::*;
use vstd::string::StringSliceAdditionalSpecFns;
use vstd::utf8::*;
use crate::rope::{
    count_newlines, line_bytes, line_count, line_start, raw_line_bytes, lemma_line_start_bound,
    rope_byte, rope_byte_len, rope_byte_of_line, rope_bytes, rope_char_count, rope_clone, rope_delete,
    rope_eq, rope_from_str, rope_is_char_boundary, rope_line_count, rope_line_prefix,
    rope_line_slice_string, rope_line_string, rope_nth_char, rope_replace, rope_slice_string,
    rope_to_string,
};
use crate::settings::Settings;

verus! {

broadcast use vstd::utf8::group_utf8_lib;

/// `t` with the bytes in `start..end` replaced by `s`.
pub open spec fn splice(t: Seq<u8>, start: int, end: int, s: Seq<u8>) -> Seq<u8> {
    t.take(start) + s + t.skip(end)
}


/// An edit of a text: the bytes in `start..end` give way to `text`.
pub struct Edit {
    pub start: int,
    pub end: int,
    pub text: Seq<u8>,
}

/// Whether `e` can be made on `t`: its ends lie in order inside `t` on character boundaries.
pub open spec fn edit_fits(t: Seq<u8>, e: Edit) -> bool {
    &&& 0 <= e.start <= e.end <= t.len()
    &&& is_char_boundary(t, e.start)
    &&& is_char_boundary(t, e.end)
}

/// `t` after the edit `e`.
pub open spec fn apply_edit(t: Seq<u8>, e: Edit) -> Seq<u8> {
    splice(t, e.start, e.end, e.text)
}

/// `t` after the edits of `es`, made from the last one to the first.
pub open spec fn apply_edits_rev(t: Seq<u8>, es: Seq<Edit>) -> Seq<u8>
    decreases es.len(),
{
    if es.len() == 0 {
        t
    } else {
        apply_edits_rev(apply_edit(t, es.last()), es.drop_last())
    }
}

/// Whether each edit of `es`, made from the last one to the first, fits the text it is made on.
pub open spec fn edits_rev_fit(t: Seq<u8>, es: Seq<Edit>) -> bool
    decreases es.len(),
{
    es.len() == 0 || (edit_fits(t, es.last()) && edits_rev_fit(apply_edit(t, es.last()), es.drop_last()))
}

/// `t` after the edits of `es`, made from the first one to the last.
pub open spec fn apply_edits(t: Seq<u8>, es: Seq<Edit>) -> Seq<u8>
    decreases es.len(),
{
    if es.len() == 0 {
        t
    } else {
        apply_edits(apply_edit(t, es[0]), es.drop_first())
    }
}

/// Whether each edit of `es`, made from the first one to the last, fits the text it is made on.
pub open spec fn edits_fit(t: Seq<u8>, es: Seq<Edit>) -> bool
    decreases es.len(),
{
    es.len() == 0 || (edit_fits(t, es[0]) && edits_fit(apply_edit(t, es[0]), es.drop_first()))
}

/// The deletion of the bytes in `r`.
pub open spec fn deletion(r: std::ops::Range<usize>) -> Edit {
    Edit { start: r.start as int, end: r.end as int, text: Seq::empty() }
}

/// The edit that `Buffer::replace` and `Buffer::replace_current` make for `range` and `text`:
/// the range without its last byte gives way to `text`, when `text` is longer than that; else
/// nothing changes.
pub open spec fn replace_edit(range: std::ops::Range<usize>, text: Seq<u8>) -> Edit {
    Edit { start: range.start as int, end: range.end - 1, text }
}

/// Whether `Buffer::replace` changes the text for `range` and `text`.
pub open spec fn replace_changes(range: std::ops::Range<usize>, text: &str) -> bool {
    range.end - 1 - range.start < text.len()
}


/// The UTF-8 bytes of a string.
pub open spec fn string_bytes(s: String) -> Seq<u8> {
    encode_utf8(s@)
}

/// The edit that `Buffer::replace_bulk` makes for an inclusive byte range and a text: the range
/// gives way to the text.
pub open spec fn bulk_edit(r: (usize, usize), t: String) -> Edit {
    Edit { start: r.0 as int, end: r.1 + 1, text: string_bytes(t) }
}

/// The edits of `Buffer::replace_bulk`: the ranges paired with the texts, as far as both go.
pub open spec fn bulk_edits(ranges: Seq<(usize, usize)>, texts: Seq<String>) -> Seq<Edit> {
    Seq::new(
        if ranges.len() <= texts.len() { ranges.len() } else { texts.len() },
        |i: int| bulk_edit(ranges[i], texts[i]),
    )
}

/// What `Buffer::replace_bulk` needs of a range and its text: the range is in order, and where
/// the text is longer than the range but one byte, it can be cut after that many bytes.
pub open spec fn bulk_pair_ok(r: (usize, usize), t: String) -> bool {
    &&& r.0 <= r.1
    &&& (r.1 - r.0 < string_bytes(t).len() ==> is_char_boundary(string_bytes(t), r.1 - r.0))
}

/// The insertion of `text` at `at`.
pub open spec fn insertion(at: int, text: Seq<u8>) -> Edit {
    Edit { start: at, end: at, text }
}

/// The edits of `Buffer::insert_chain`.
pub open spec fn chain_insertions(values: Seq<(usize, String)>) -> Seq<Edit> {
    values.map_values(|v: (usize, String)| insertion(v.0 as int, string_bytes(v.1)))
}

/// The edits of `Buffer::replace_chain`.
pub open spec fn chain_replacements(values: Seq<(std::ops::Range<usize>, String)>) -> Seq<Edit> {
    values.map_values(
        |v: (std::ops::Range<usize>, String)|
            Edit { start: v.0.start as int, end: v.0.end as int, text: string_bytes(v.1) },
    )
}

/// The two insertions that put a pair of texts around the inclusive range `r`: the second text
/// after it, then the first before it.
pub open spec fn pair_insertions(r: (usize, usize), p: (Seq<u8>, Seq<u8>)) -> Seq<Edit> {
    seq![insertion(r.0 as int, p.0), insertion(r.1 + 1, p.1)]
}

/// The edits of `Buffer::insert_bulk_pair`: the last `k` ranges paired with the last `k` pairs
/// of texts, `k` being the length of the shorter list; for each, the first text before the range
/// and the second after it.
pub open spec fn bulk_pair_insertions(ranges: Seq<(usize, usize)>, texts: Seq<(String, String)>) -> Seq<Edit> {
    let k = if ranges.len() <= texts.len() { ranges.len() } else { texts.len() };
    Seq::new(
        2 * k,
        |i: int|
            {
                let r = ranges[ranges.len() - k + i / 2];
                let t = texts[texts.len() - k + i / 2];
                if i % 2 == 0 {
                    insertion(r.0 as int, string_bytes(t.0))
                } else {
                    insertion(r.1 + 1, string_bytes(t.1))
                }
            },
    )
}

/// The width of a character on screen: a tab takes `tab` columns, any other character one.
pub open spec fn char_width(c: char, tab: u8) -> nat {
    if c == '\t' {
        tab as nat
    } else {
        1
    }
}

/// The width of a run of characters on screen.
pub open spec fn text_width(cs: Seq<char>, tab: u8) -> nat
    decreases cs.len(),
{
    if cs.len() == 0 {
        0
    } else {
        text_width(cs.drop_last(), tab) + char_width(cs.last(), tab)
    }
}

/// A prefix is never wider than a longer prefix.
pub proof fn lemma_text_width_prefix(cs: Seq<char>, tab: u8, i: int, j: int)
    requires
        0 <= i <= j <= cs.len(),
    ensures
        text_width(cs.take(i), tab) <= text_width(cs.take(j), tab),
    decreases j - i,
{
    if i < j {
        lemma_text_width_prefix(cs, tab, i, j - 1);
        assert(cs.take(j).drop_last() =~= cs.take(j - 1));
    }
}

/// The on-screen width of `s`, a tab taking `tab` columns.
pub fn str_width(s: &str, tab: u8) -> (w: usize)
    requires
        text_width(s@, tab) <= usize::MAX,
    ensures
        w == text_width(s@, tab),
{
    let n = s.unicode_len();
    let mut i: usize = 0;
    let mut w: usize = 0;
    assert(s@.take(0) =~= Seq::<char>::empty());
    while i < n
        invariant
            n == s@.len(),
            i <= n,
            w == text_width(s@.take(i as int), tab),
            text_width(s@, tab) <= usize::MAX,
        decreases n - i,
    {
        let c = s.get_char(i);
        proof {
            assert(s@.take(i + 1).drop_last() =~= s@.take(i as int));
            lemma_text_width_prefix(s@, tab, i + 1, n as int);
            assert(s@.take(n as int) =~= s@);
        }
        if c == '\t' {
            w = w + tab as usize;
        } else {
            w = w + 1;
        }
        i = i + 1;
    }
    assert(s@.take(n as int) =~= s@);
    w
}

/// The number of bytes of the UTF-8 encoding of `s`.
pub fn str_byte_len(s: &str) -> (n: usize)
    ensures
        n == s.spec_bytes().len(),
{
    s.as_bytes().len()
}

/// The number of line feeds in `b`.
pub fn count_line_feeds(b: &[u8]) -> (n: usize)
    ensures
        n == count_newlines(b@),
{
    let mut i: usize = 0;
    let mut n: usize = 0;
    assert(b@.take(0) =~= Seq::<u8>::empty());
    while i < b.len()
        invariant
            i <= b.len(),
            n == count_newlines(b@.take(i as int)),
            n <= i,
        decreases b.len() - i,
    {
        assert(b@.take(i + 1).drop_last() =~= b@.take(i as int));
        if b[i] == 10u8 {
            n = n + 1;
        }
        i = i + 1;
    }
    assert(b@.take(i as int) =~= b@);
    n
}

/// A text has no more line feeds than bytes.
pub proof fn lemma_count_newlines_bound(b: Seq<u8>)
    ensures
        count_newlines(b) <= b.len(),
    decreases b.len(),
{
    if b.len() > 0 {
        lemma_count_newlines_bound(b.drop_last());
    }
}

/// Steps back from `base + x` to the nearest character boundary of `t` at or before it, but
/// not before `base`.
pub open spec fn back_to_boundary(t: Seq<u8>, base: int, x: int) -> int
    decreases x,
{
    if x <= 0 || is_char_boundary(t, base + x) {
        base + x
    } else {
        back_to_boundary(t, base, x - 1)
    }
}

/// Stepping back to a boundary of `t` from a point inside it stays inside it.
pub proof fn lemma_back_to_boundary_bound(t: Seq<u8>, base: int, x: int)
    requires
        valid_utf8(t),
        0 <= base <= t.len(),
        x >= 0,
    ensures
        base <= back_to_boundary(t, base, x) <= t.len(),
    decreases x,
{
    if x <= 0 || is_char_boundary(t, base + x) {
    } else {
        lemma_back_to_boundary_bound(t, base, x - 1);
    }
}

/// The first `x` characters of line `y` of `t` (all of them where there are fewer).
pub open spec fn line_prefix(t: Seq<u8>, y: nat, x: nat) -> Seq<char> {
    let cs = decode_utf8(line_bytes(t, y));
    cs.take(if x <= cs.len() { x as int } else { cs.len() as int })
}

/// The byte offset that `Buffer::get_byte_offset` gives for column `x` on line `y` of `t`:
/// the end of the text past the second-to-last line, else the start of line `y` plus the bytes
/// of its first `x` characters, stepped back to a character boundary.
pub open spec fn byte_offset_at(t: Seq<u8>, x: nat, y: nat) -> nat {
    if y + 1 >= line_count(t) {
        t.len()
    } else {
        back_to_boundary(t, line_start(t, y) as int, encode_utf8(line_prefix(t, y, x)).len() as int) as nat
    }
}

/// A piece of a buffer's text, with the width of a tab.
pub struct BufferSlice {
    pub text: String,
    pub tab_size: u8,
}

impl BufferSlice {
    /// A slice that holds `text`.
    pub fn new(text: String, tab_size: u8) -> (s: Self)
        ensures
            s.text@ == text@,
            s.tab_size == tab_size,
    {
        Self { text, tab_size }
    }

    /// The number of lines of the slice, where a final line feed starts one more.
    pub fn get_line_count(&self) -> (n: usize)
        requires
            string_bytes(self.text).len() < usize::MAX,
        ensures
            n == line_count(string_bytes(self.text)) + if self.text@.len() > 0 && self.text@.last()
                == '\n' {
                1nat
            } else {
                0nat
            },
    {
        let b = self.text.as_str().as_bytes();
        let feeds = count_line_feeds(b);
        proof {
            lemma_count_newlines_bound(b@);
            if b@.len() > 0 {
                lemma_count_newlines_bound(b@.drop_last());
            }
        }
        let len = b.len();
        proof {
            let t = string_bytes(self.text);
            assert(b@ == t);
            if self.text@.len() > 0 {
                lemma_last_char_line_feed(self.text@);
            }
        }
        if len == 0 {
            0
        } else if b[len - 1] == 10u8 {
            feeds + 1
        } else {
            feeds + 1
        }
    }

    /// The width of the slice on screen, a tab taking `tab_size` columns.
    pub fn len(&self) -> (n: usize)
        requires
            text_width(self.text@, self.tab_size) <= usize::MAX,
        ensures
            n == text_width(self.text@, self.tab_size),
    {
        str_width(self.text.as_str(), self.tab_size)
    }

    /// The number of bytes of the slice.
    pub fn byte_len(&self) -> (n: usize)
        ensures
            n == string_bytes(self.text).len(),
    {
        str_byte_len(self.text.as_str())
    }

    /// The offset of the slice's first line within the slice, which is where it starts.
    pub fn get_byte_start(&self) -> (n: usize)
        ensures
            n == 0,
    {
        0
    }
}

/// The text ends with a line feed exactly when its UTF-8 bytes do.
pub proof fn lemma_last_char_line_feed(cs: Seq<char>)
    requires
        cs.len() > 0,
    ensures
        encode_utf8(cs).len() > 0,
        (cs.last() == '\n') == (encode_utf8(cs).last() == 10u8),
    decreases cs.len(),
{
    let rest = cs.drop_first();
    let first = encode_scalar(cs[0] as u32);
    assert(encode_utf8(cs) == first + encode_utf8(rest));
    assert(first.len() > 0);
    if rest.len() == 0 {
        assert(encode_utf8(rest) =~= Seq::<u8>::empty());
        assert(encode_utf8(cs) =~= first);
        assert(cs.last() == cs[0]);
        if cs[0] == '\n' {
            assert((10u32 & 0x7F) as u8 == 10u8) by (bit_vector);
            assert(first =~= seq![10u8]);
        } else {
            encode_scalar_last_not_feed(cs[0]);
        }
    } else {
        lemma_last_char_line_feed(rest);
        assert(cs.last() == rest.last());
        assert((first + encode_utf8(rest)).last() == encode_utf8(rest).last());
    }
}

/// The last byte of a character's encoding is a line feed only for a line feed.
pub proof fn encode_scalar_last_not_feed(c: char)
    requires
        c != '\n',
    ensures
        encode_scalar(c as u32).last() != 10u8,
{
    let u = c as u32;
    assert(u != 10) by {
        char_u32_cast(c, u);
    }
    if has_width_1_encoding(u) {
        assert(leading_byte_width_1(u) != 10u8) by (bit_vector)
            requires
                u <= 0x7f,
                u != 10,
        ;
    } else {
        assert(last_continuation_byte(u) != 10u8) by (bit_vector);
    }
}

/// The abstract state of a buffer: every version of its text, the one shown, a counter of
/// changes, and the width of a tab.
pub struct BufferView {
    pub history: Seq<Seq<u8>>,
    pub current: nat,
    pub version: nat,
    pub tab_size: u8,
}

impl BufferView {
    /// The text of the version shown.
    pub open spec fn text(self) -> Seq<u8> {
        self.history[self.current as int]
    }

    /// The version shown exists and every version is valid UTF-8.
    pub open spec fn wf(self) -> bool {
        &&& self.current < self.history.len()
        &&& forall|i: int|
            0 <= i < self.history.len() ==> valid_utf8(#[trigger] self.history[i])
                && self.history[i].len() <= usize::MAX
    }

    /// A new version after the shown one that copies its text; the versions after the shown one
    /// are dropped.
    pub open spec fn branch(self) -> BufferView {
        BufferView {
            history: self.history.take(self.current + 1int).push(self.text()),
            current: self.current + 1,
            ..self
        }
    }

    /// The shown version holds `t`.
    pub open spec fn with_text(self, t: Seq<u8>) -> BufferView {
        BufferView { history: self.history.update(self.current as int, t), ..self }
    }

    /// One change more is counted.
    pub open spec fn bumped(self) -> BufferView {
        BufferView { version: self.version + 1, ..self }
    }

    /// The state after an undo: the version before is shown, if there is one.
    pub open spec fn undone(self) -> BufferView {
        BufferView { current: if self.current > 0 { (self.current - 1) as nat } else { 0 }, ..self }.bumped()
    }

    /// The state after a redo: the version after is shown, if there is one.
    pub open spec fn redone(self) -> BufferView {
        BufferView {
            current: if self.current + 1 < self.history.len() { self.current + 1 } else { self.current },
            ..self
        }.bumped()
    }

    /// A new version in which `t` stands, as an edit through the undo history leaves it.
    pub open spec fn edited(self, t: Seq<u8>) -> BufferView {
        self.branch().with_text(t).bumped()
    }

    /// The shown version, copied into a new one first if the shown version is the first.
    pub open spec fn branch_if_first(self) -> BufferView {
        if self.current == 0 { self.branch() } else { self }
    }
}

/// A text with its undo history.
pub struct Buffer {
    current: usize,
    history: Vec<Rope>,
    tab_size: u8,
    version: usize,
}

impl View for Buffer {
    type V = BufferView;

    closed spec fn view(&self) -> BufferView {
        BufferView {
            history: self.history@.map_values(|r: Rope| rope_bytes(r)),
            current: self.current as nat,
            version: self.version as nat,
            tab_size: self.tab_size,
        }
    }
}

/// Putting valid UTF-8 at character boundaries of valid UTF-8 keeps it valid.
pub proof fn lemma_splice_valid(t: Seq<u8>, start: int, end: int, s: Seq<u8>)
    requires
        valid_utf8(t),
        valid_utf8(s),
        0 <= start <= end <= t.len(),
        is_char_boundary(t, start),
        is_char_boundary(t, end),
    ensures
        valid_utf8(splice(t, start, end, s)),
{
    valid_utf8_split(t, start);
    valid_utf8_split(t, end);
    assert(t.take(start) == t.subrange(0, start));
    assert(t.skip(end) == t.subrange(end, t.len() as int));
    valid_utf8_concat(t.take(start), s);
    valid_utf8_concat(t.take(start) + s, t.skip(end));
}


/// The end of a valid UTF-8 text is a character boundary of any valid UTF-8 text that
/// continues it.
pub proof fn lemma_concat_boundary(x: Seq<u8>, y: Seq<u8>)
    requires
        valid_utf8(x),
        valid_utf8(y),
    ensures
        is_char_boundary(x + y, x.len() as int),
    decreases x.len(),
{
    valid_utf8_concat(x, y);
    if x.len() == 0 {
        assert(x + y =~= y);
    } else {
        let rest = pop_first_scalar(x);
        assert(rest.len() < x.len());
        assert(pop_first_scalar(x + y) =~= rest + y);
        lemma_concat_boundary(rest, y);
    }
}

/// Calls `Rope::new` of crop.
/// Claimed: the new rope is empty.
#[verifier::external_body]
fn rope_new() -> (r: Rope)
    ensures
        rope_bytes(r) == Seq::<u8>::empty(),
        rope_bytes(r).len() <= usize::MAX,
{
    Rope::new()
}

impl Buffer {
    /// An empty buffer with the tab width of the settings.
    pub fn new(settings: &Settings) -> (b: Self)
        ensures
            b@ == (BufferView {
                history: seq![Seq::<u8>::empty()],
                current: 0,
                version: 0,
                tab_size: settings.editor_settings.tab_size,
            }),
            b@.wf(),
    {
        let mut history = Vec::new();
        history.push(rope_new());
        let b = Self { current: 0, history, tab_size: settings.editor_settings.tab_size, version: 0 };
        assert(b@.history =~= seq![Seq::<u8>::empty()]);
        b
    }

    /// A buffer that holds `s`, with a tab four columns wide.
    pub fn from_str(s: &str) -> (b: Self)
        ensures
            b@ == (BufferView { history: seq![s.spec_bytes()], current: 0, version: 0, tab_size: 4 }),
            b@.wf(),
    {
        let mut history = Vec::new();
        history.push(rope_from_str(s));
        let b = Self { current: 0, history, tab_size: 4, version: 0 };
        assert(b@.history =~= seq![s.spec_bytes()]);
        b
    }

    /// Takes the tab width from the settings.
    pub fn set_settings(&mut self, settings: &Settings)
        ensures
            final(self)@ == (BufferView { tab_size: settings.editor_settings.tab_size, ..old(self)@ }),
    {
        self.tab_size = settings.editor_settings.tab_size;
        assert(self@.history =~= old(self)@.history);
    }

    /// The number of changes made so far.
    pub fn get_version(&self) -> (v: usize)
        ensures
            v == self@.version,
    {
        self.version
    }

    /// The number of versions in the undo history.
    pub fn get_version_count(&self) -> (n: usize)
        ensures
            n == self@.history.len(),
    {
        self.history.len()
    }

    /// Shows the version before, if there is one.
    pub fn undo(&mut self)
        requires
            old(self)@.wf(),
            old(self)@.version < usize::MAX,
        ensures
            final(self)@ == old(self)@.undone(),
            final(self)@.wf(),
    {
        self.current = if self.current > 0 { self.current - 1 } else { 0 };
        self.version += 1;
        assert(self@.history =~= old(self)@.history);
    }

    /// Shows the version after, if there is one.
    pub fn redo(&mut self)
        requires
            old(self)@.wf(),
            old(self)@.version < usize::MAX,
        ensures
            final(self)@ == old(self)@.redone(),
            final(self)@.wf(),
    {
        if self.current < self.history.len() - 1 {
            self.current += 1;
        }
        self.version += 1;
        assert(self@.history =~= old(self)@.history);
    }

    /// Copies the shown version into a new version after it, dropping the versions after it,
    /// and shows the copy.
    fn get_new_rope(&mut self)
        requires
            old(self)@.wf(),
        ensures
            final(self)@ == old(self)@.branch(),
            final(self)@.wf(),
    {
        let buffer = rope_clone(&self.history[self.current]);
        if self.current < self.history.len() - 1 {
            self.history.truncate(self.current + 1);
        }
        self.history.push(buffer);
        self.current += 1;
        assert(self@.history =~= old(self)@.branch().history);
    }

    /// Starts a new version that copies the shown one, unless the shown version equals the one
    /// before it.
    pub fn add_new_rope(&mut self)
        requires
            old(self)@.wf(),
        ensures
            final(self)@ == if old(self)@.current > 0 && old(self)@.history[old(self)@.current - 1]
                == old(self)@.text() {
                old(self)@
            } else {
                old(self)@.branch()
            },
            final(self)@.wf(),
    {
        if self.current > 0 {
            if rope_eq(&self.history[self.current - 1], &self.history[self.current]) {
                return;
            }
        }
        self.get_new_rope();
    }


    /// Deletes the bytes in `start..end` of the shown version.
    fn delete_internal(&mut self, start: usize, end: usize)
        requires
            old(self)@.wf(),
            start <= end <= old(self)@.text().len(),
            is_char_boundary(old(self)@.text(), start as int),
            is_char_boundary(old(self)@.text(), end as int),
        ensures
            final(self)@ == old(self)@.with_text(
                splice(old(self)@.text(), start as int, end as int, Seq::empty()),
            ),
            final(self)@.wf(),
    {
        let ghost t = self@.text();
        proof {
            lemma_splice_valid(t, start as int, end as int, Seq::empty());
        }
        let cur = self.current;
        rope_delete(&mut self.history[cur], start, end);
        assert(self@.history =~= old(self)@.with_text(
            splice(t, start as int, end as int, Seq::empty()),
        ).history);
    }

    /// Inserts `text` at `byte_offset` in the shown version; the first version is copied first.
    pub fn insert_current(&mut self, byte_offset: usize, text: &str)
        requires
            old(self)@.wf(),
            old(self)@.version < usize::MAX,
            byte_offset <= old(self)@.text().len(),
            is_char_boundary(old(self)@.text(), byte_offset as int),
        ensures
            final(self)@ == old(self)@.branch_if_first().with_text(
                splice(old(self)@.text(), byte_offset as int, byte_offset as int, text.spec_bytes()),
            ).bumped(),
            final(self)@.wf(),
    {
        if self.current == 0 {
            self.get_new_rope();
        }
        self.splice_current(byte_offset, byte_offset, text);
        self.version += 1;
    }

    /// Inserts `text` at `byte_offset` in a new version.
    pub fn insert(&mut self, byte_offset: usize, text: &str)
        requires
            old(self)@.wf(),
            old(self)@.version < usize::MAX,
            byte_offset <= old(self)@.text().len(),
            is_char_boundary(old(self)@.text(), byte_offset as int),
        ensures
            final(self)@ == old(self)@.edited(
                splice(old(self)@.text(), byte_offset as int, byte_offset as int, text.spec_bytes()),
            ),
            final(self)@.wf(),
    {
        self.get_new_rope();
        self.splice_current(byte_offset, byte_offset, text);
        self.version += 1;
    }

    /// Deletes the bytes in `range` from the shown version; the first version is copied first.
    pub fn delete_current(&mut self, range: std::ops::Range<usize>)
        requires
            old(self)@.wf(),
            old(self)@.version < usize::MAX,
            edit_fits(old(self)@.text(), deletion(range)),
        ensures
            final(self)@ == old(self)@.branch_if_first().with_text(
                apply_edit(old(self)@.text(), deletion(range)),
            ).bumped(),
            final(self)@.wf(),
    {
        if self.current == 0 {
            self.get_new_rope();
        }
        self.delete_internal(range.start, range.end);
        self.version += 1;
    }

    /// Deletes the bytes in `range` in a new version.
    pub fn delete(&mut self, range: std::ops::Range<usize>)
        requires
            old(self)@.wf(),
            old(self)@.version < usize::MAX,
            edit_fits(old(self)@.text(), deletion(range)),
        ensures
            final(self)@ == old(self)@.edited(apply_edit(old(self)@.text(), deletion(range))),
            final(self)@.wf(),
    {
        self.get_new_rope();
        self.delete_internal(range.start, range.end);
        self.version += 1;
    }

    /// Deletes the ranges one after the other from the shown version; the first version is
    /// copied first.
    pub fn bulk_delete(&mut self, ranges: Vec<std::ops::Range<usize>>)
        requires
            old(self)@.wf(),
            old(self)@.version < usize::MAX,
            edits_fit(old(self)@.text(), ranges@.map_values(|r: std::ops::Range<usize>| deletion(r))),
        ensures
            final(self)@ == old(self)@.branch_if_first().with_text(
                apply_edits(old(self)@.text(), ranges@.map_values(|r: std::ops::Range<usize>| deletion(r))),
            ).bumped(),
            final(self)@.wf(),
    {
        let ghost es = ranges@.map_values(|r: std::ops::Range<usize>| deletion(r));
        let ghost goal = apply_edits(old(self)@.text(), es);
        if self.current == 0 {
            self.get_new_rope();
        }
        let ghost start = self@;
        assert(es.skip(0) =~= es);
        assert(self@.text() == old(self)@.text());
        assert(self@.history =~= start.with_text(self@.text()).history);
        let mut i: usize = 0;
        while i < ranges.len()
            invariant
                self@.wf(),
                0 <= i <= ranges.len(),
                es == ranges@.map_values(|r: std::ops::Range<usize>| deletion(r)),
                edits_fit(self@.text(), es.skip(i as int)),
                apply_edits(self@.text(), es.skip(i as int)) == goal,
                self@ == start.with_text(self@.text()),
                start.wf(),
            decreases ranges.len() - i,
        {
            let ghost before = self@.text();
            assert(es.skip(i as int)[0] == deletion(ranges@[i as int]));
            assert(es.skip(i as int).drop_first() =~= es.skip(i + 1));
            let r = &ranges[i];
            self.delete_internal(r.start, r.end);
            assert(self@.history =~= start.with_text(self@.text()).history);
            i += 1;
        }
        assert(es.skip(i as int) =~= Seq::<Edit>::empty());
        self.version += 1;
    }


    /// Replaces the bytes in `start..end` of the shown version by `a` and then inserts `b` after
    /// them, so that `a` and `b` together stand in place of `start..end`.
    fn splice_in_two(&mut self, start: usize, end: usize, text: &str, k: usize)
        requires
            old(self)@.wf(),
            old(self)@.current > 0,
            old(self)@.version < usize::MAX,
            start <= end <= old(self)@.text().len(),
            end - start == k,
            k <= text.spec_bytes().len(),
            is_char_boundary(old(self)@.text(), start as int),
            is_char_boundary(old(self)@.text(), end as int),
            is_char_boundary(text.spec_bytes(), k as int),
        ensures
            final(self)@ == old(self)@.with_text(
                splice(old(self)@.text(), start as int, end as int, text.spec_bytes()),
            ).bumped(),
            final(self)@.wf(),
    {
        let ghost t = self@.text();
        let ghost tb = text.spec_bytes();
        let (a, b) = text.split_at(k);
        proof {
            valid_utf8_split(tb, k as int);
            valid_utf8_split(t, start as int);
            valid_utf8_split(t, end as int);
            assert(a.spec_bytes() == tb.subrange(0, k as int));
            assert(t.take(start as int) == t.subrange(0, start as int));
            assert(t.skip(end as int) == t.subrange(end as int, t.len() as int));
            valid_utf8_concat(t.take(start as int), a.spec_bytes());
            lemma_concat_boundary(t.take(start as int) + a.spec_bytes(), t.skip(end as int));
            assert(splice(t, start as int, end as int, a.spec_bytes()) =~= (t.take(start as int)
                + a.spec_bytes()) + t.skip(end as int));
        }
        self.splice_current(start, end, a);
        let ghost t1 = self@.text();
        self.insert_current(end, b);
        proof {
            assert(t1.take(end as int) =~= t.take(start as int) + a.spec_bytes());
            assert(t1.skip(end as int) =~= t.skip(end as int));
            assert(a.spec_bytes() + b.spec_bytes() =~= tb);
            assert(splice(t1, end as int, end as int, b.spec_bytes()) =~= splice(
                t,
                start as int,
                end as int,
                tb,
            ));
        }
        assert(self@.history =~= old(self)@.with_text(
            splice(old(self)@.text(), start as int, end as int, text.spec_bytes()),
        ).bumped().history);
    }

    /// Replaces the bytes of `range` but its last one by `text` in the shown version, when
    /// `text` is longer than they are; the first version is copied first.
    pub fn replace_current(&mut self, range: std::ops::Range<usize>, text: &str)
        requires
            old(self)@.wf(),
            old(self)@.version + 2 <= usize::MAX,
            1 <= range.end,
            range.start <= range.end - 1,
            replace_changes(range, text) ==> {
                &&& edit_fits(old(self)@.text(), replace_edit(range, text.spec_bytes()))
                &&& is_char_boundary(text.spec_bytes(), range.end - 1 - range.start)
            },
        ensures
            final(self)@ == if replace_changes(range, text) {
                old(self)@.branch_if_first().with_text(
                    apply_edit(old(self)@.text(), replace_edit(range, text.spec_bytes())),
                ).bumped().bumped()
            } else {
                old(self)@.branch_if_first().bumped()
            },
            final(self)@.wf(),
    {
        if self.current == 0 {
            self.get_new_rope();
        }
        assert(self@.text() == old(self)@.text());
        let start = range.start;
        let end = range.end - 1;
        let ghost mid = self@;
        if end - start < text.len() {
            self.splice_in_two(start, end, text, end - start);
        }
        let ghost after = self@;
        self.version += 1;
        assert(self@.history == after.history);
    }

    /// Replaces the bytes of `range` but its last one by `text` in a new version, when `text`
    /// is longer than they are.
    pub fn replace(&mut self, range: std::ops::Range<usize>, text: &str)
        requires
            old(self)@.wf(),
            old(self)@.version + 2 <= usize::MAX,
            1 <= range.end,
            range.start <= range.end - 1,
            replace_changes(range, text) ==> {
                &&& edit_fits(old(self)@.text(), replace_edit(range, text.spec_bytes()))
                &&& is_char_boundary(text.spec_bytes(), range.end - 1 - range.start)
            },
        ensures
            final(self)@ == if replace_changes(range, text) {
                old(self)@.branch().with_text(
                    apply_edit(old(self)@.text(), replace_edit(range, text.spec_bytes())),
                ).bumped().bumped()
            } else {
                old(self)@.branch().bumped()
            },
            final(self)@.wf(),
    {
        self.get_new_rope();
        assert(self@.text() == old(self)@.text());
        let start = range.start;
        let end = range.end - 1;
        if end - start < text.len() {
            self.splice_in_two(start, end, text, end - start);
        }
        let ghost after = self@;
        self.version += 1;
        assert(self@.history == after.history);
    }


    /// Puts `text` in place of the inclusive range `start..=end` of the shown version.
    #[verifier::spinoff_prover]
    #[verifier::rlimit(40)]
    fn replace_inclusive(&mut self, start: usize, end: usize, text: &str)
        requires
            old(self)@.wf(),
            old(self)@.current > 0,
            old(self)@.version < usize::MAX,
            start <= end,
            edit_fits(old(self)@.text(), Edit { start: start as int, end: end + 1, text: text.spec_bytes() }),
            end - start < text.spec_bytes().len() ==> is_char_boundary(text.spec_bytes(), end - start),
        ensures
            final(self)@ == old(self)@.with_text(
                splice(old(self)@.text(), start as int, end + 1, text.spec_bytes()),
            ).bumped(),
            final(self)@.wf(),
    {
        let ghost t = self@.text();
        if end - start < text.len() {
            let k = end - start;
            let (a, b) = text.split_at(k);
            proof {
                let tb = text.spec_bytes();
                valid_utf8_split(tb, k as int);
                valid_utf8_split(t, start as int);
                valid_utf8_split(t, end + 1);
                assert(a.spec_bytes() == tb.subrange(0, k as int));
                assert(t.take(start as int) == t.subrange(0, start as int));
                assert(t.skip(end + 1) == t.subrange(end + 1, t.len() as int));
                valid_utf8_concat(t.take(start as int), a.spec_bytes());
                lemma_concat_boundary(t.take(start as int) + a.spec_bytes(), t.skip(end + 1));
                assert(splice(t, start as int, end + 1, a.spec_bytes()) =~= (t.take(start as int)
                    + a.spec_bytes()) + t.skip(end + 1));
            }
            self.splice_current(start, end + 1, a);
            let ghost t1 = self@.text();
            self.insert_current(end, b);
            proof {
                assert(t1.take(end as int) =~= t.take(start as int) + a.spec_bytes());
                assert(t1.skip(end as int) =~= t.skip(end + 1));
                assert(a.spec_bytes() + b.spec_bytes() =~= text.spec_bytes());
                assert(splice(t1, end as int, end as int, b.spec_bytes()) =~= splice(
                    t,
                    start as int,
                    end + 1,
                    text.spec_bytes(),
                ));
            }
        } else {
            proof {
                valid_utf8_split(t, start as int);
                valid_utf8_split(t, end + 1);
                assert(t.take(start as int) == t.subrange(0, start as int));
                assert(t.skip(end + 1) == t.subrange(end + 1, t.len() as int));
                lemma_concat_boundary(t.take(start as int), t.skip(end + 1));
                assert(splice(t, start as int, end + 1, Seq::empty()) =~= t.take(start as int)
                    + t.skip(end + 1));
            }
            self.delete_internal(start, end + 1);
            let ghost t1 = self@.text();
            self.insert_current(start, text);
            proof {
                assert(splice(t1, start as int, start as int, text.spec_bytes()) =~= splice(
                    t,
                    start as int,
                    end + 1,
                    text.spec_bytes(),
                ));
            }
        }
        assert(self@.history =~= old(self)@.with_text(
            splice(old(self)@.text(), start as int, end + 1, text.spec_bytes()),
        ).bumped().history);
    }

    /// Puts each text in place of its inclusive range, in a new version, from the last pair to
    /// the first; the lists are cut to the shorter one.
    pub fn replace_bulk(&mut self, ranges: Vec<(usize, usize)>, texts: Vec<String>)
        requires
            old(self)@.wf(),
            old(self)@.version + bulk_edits(ranges@, texts@).len() + 1 <= usize::MAX,
            forall|i: int|
                0 <= i < bulk_edits(ranges@, texts@).len() ==> bulk_pair_ok(
                    #[trigger] ranges@[i],
                    texts@[i],
                ),
            edits_rev_fit(old(self)@.text(), bulk_edits(ranges@, texts@)),
        ensures
            final(self)@ == (BufferView {
                version: old(self)@.version + bulk_edits(ranges@, texts@).len() + 1,
                ..old(self)@.branch().with_text(
                    apply_edits_rev(old(self)@.text(), bulk_edits(ranges@, texts@)),
                )
            }),
            final(self)@.wf(),
    {
        let ghost es = bulk_edits(ranges@, texts@);
        let ghost goal = apply_edits_rev(old(self)@.text(), es);
        self.get_new_rope();
        let ghost start = self@;
        let n = if ranges.len() <= texts.len() { ranges.len() } else { texts.len() };
        assert(es.take(n as int) =~= es);
        let mut i = n;
        while i > 0
            invariant
                self@.wf(),
                self@.current > 0,
                0 <= i <= n,
                n == es.len(),
                n <= ranges.len(),
                n <= texts.len(),
                es == bulk_edits(ranges@, texts@),
                forall|j: int| 0 <= j < n ==> bulk_pair_ok(#[trigger] ranges@[j], texts@[j]),
                edits_rev_fit(self@.text(), es.take(i as int)),
                apply_edits_rev(self@.text(), es.take(i as int)) == goal,
                start.wf(),
                self@.history == start.with_text(self@.text()).history,
                self@.current == start.current,
                self@.tab_size == start.tab_size,
                self@.version == start.version + (n - i),
                start.version + n + 1 <= usize::MAX,
            decreases i,
        {
            let ghost before = self@.text();
            assert(es.take(i as int).last() == es[i - 1]);
            assert(es.take(i as int).drop_last() =~= es.take(i - 1));
            let (s, e) = ranges[i - 1];
            let ghost mid = self@;
            self.replace_inclusive(s, e, texts[i - 1].as_str());
            assert(self@.history == mid.history.update(mid.current as int, self@.text()));
            assert(mid.current == start.current);
            assert(mid.history == start.history.update(start.current as int, mid.text()));
            assert(self@.history =~= start.history.update(start.current as int, self@.text()));
            i -= 1;
        }
        assert(es.take(0) =~= Seq::<Edit>::empty());
        self.version += 1;
        assert(self@.history =~= final(self)@.history);
    }

    /// Makes the edits from the last one to the first on the shown version.
    fn apply_rev(&mut self, es: Vec<(usize, usize, &str)>, ghost_es: Ghost<Seq<Edit>>)
        requires
            old(self)@.wf(),
            ghost_es@.len() == es@.len(),
            forall|i: int|
                0 <= i < es@.len() ==> #[trigger] ghost_es@[i] == (Edit {
                    start: es@[i].0 as int,
                    end: es@[i].1 as int,
                    text: es@[i].2.spec_bytes(),
                }),
            edits_rev_fit(old(self)@.text(), ghost_es@),
        ensures
            final(self)@ == old(self)@.with_text(apply_edits_rev(old(self)@.text(), ghost_es@)),
            final(self)@.wf(),
    {
        let ghost goal = apply_edits_rev(old(self)@.text(), ghost_es@);
        let ghost start = self@;
        assert(ghost_es@.take(es.len() as int) =~= ghost_es@);
        assert(self@.history =~= start.with_text(self@.text()).history);
        let mut i = es.len();
        while i > 0
            invariant
                self@.wf(),
                0 <= i <= es@.len(),
                ghost_es@.len() == es@.len(),
                forall|j: int|
                    0 <= j < es@.len() ==> #[trigger] ghost_es@[j] == (Edit {
                        start: es@[j].0 as int,
                        end: es@[j].1 as int,
                        text: es@[j].2.spec_bytes(),
                    }),
                edits_rev_fit(self@.text(), ghost_es@.take(i as int)),
                apply_edits_rev(self@.text(), ghost_es@.take(i as int)) == goal,
                self@ == start.with_text(self@.text()),
                start.wf(),
            decreases i,
        {
            assert(ghost_es@.take(i as int).last() == ghost_es@[i - 1]);
            assert(ghost_es@.take(i as int).drop_last() =~= ghost_es@.take(i - 1));
            let (s, e, t) = es[i - 1];
            let ghost mid = self@;
            self.splice_current(s, e, t);
            assert(self@.history == mid.history.update(mid.current as int, self@.text()));
            assert(mid.current == start.current);
            assert(mid.history == start.history.update(start.current as int, mid.text()));
            assert(self@.history =~= start.history.update(start.current as int, self@.text()));
            i -= 1;
        }
        assert(ghost_es@.take(0) =~= Seq::<Edit>::empty());
    }

    /// Replaces the bytes in `start..end` of the shown version by `text`.
    fn splice_current(&mut self, start: usize, end: usize, text: &str)
        requires
            old(self)@.wf(),
            start <= end <= old(self)@.text().len(),
            is_char_boundary(old(self)@.text(), start as int),
            is_char_boundary(old(self)@.text(), end as int),
        ensures
            final(self)@ == old(self)@.with_text(
                splice(old(self)@.text(), start as int, end as int, text.spec_bytes()),
            ),
            final(self)@.wf(),
    {
        let ghost t = self@.text();
        proof {
            lemma_splice_valid(t, start as int, end as int, text.spec_bytes());
        }
        let cur = self.current;
        rope_replace(&mut self.history[cur], start, end, text);
        assert(self@.history =~= old(self)@.with_text(
            splice(t, start as int, end as int, text.spec_bytes()),
        ).history);
    }
}

/// Undoing an edit brings back the text shown before it.
pub proof fn law_undo_restores(b: BufferView, t: Seq<u8>)
    requires
        b.wf(),
    ensures
        b.edited(t).undone().text() == b.text(),
{
}

/// Redoing an undone edit brings the edited text back.
pub proof fn law_redo_after_undo(b: BufferView, t: Seq<u8>)
    requires
        b.wf(),
    ensures
        b.edited(t).undone().redone().text() == t,
{
}

/// An edit is the newest version: nothing is left to redo after it, so a redo keeps its text.
pub proof fn law_edit_ends_history(b: BufferView, t: Seq<u8>)
    requires
        b.wf(),
    ensures
        b.edited(t).current == b.edited(t).history.len() - 1,
        b.edited(t).redone().text() == t,
{
}

/// An edit made after an undo drops the versions that a redo would have shown.
pub proof fn law_edit_after_undo_drops_redo(b: BufferView, t: Seq<u8>, u: Seq<u8>)
    requires
        b.wf(),
    ensures
        b.edited(t).undone().edited(u).history.len() == b.current + 2,
        b.edited(t).undone().edited(u).text() == u,
{
}

/// Every edit counts as one change, and so do an undo and a redo.
pub proof fn law_version_counts_changes(b: BufferView, t: Seq<u8>)
    ensures
        b.edited(t).version == b.version + 1,
        b.undone().version == b.version + 1,
        b.redone().version == b.version + 1,
{
}

impl Buffer {
    /// The byte at `byte_offset` of the shown text.
    pub fn get_byte(&self, byte_offset: usize) -> (b: u8)
        requires
            self@.wf(),
            byte_offset < self@.text().len(),
        ensures
            b == self@.text()[byte_offset as int],
    {
        rope_byte(&self.history[self.current], byte_offset)
    }

    /// The number of bytes of the shown text.
    pub fn get_byte_count(&self) -> (n: usize)
        requires
            self@.wf(),
        ensures
            n == self@.text().len(),
    {
        rope_byte_len(&self.history[self.current])
    }

    /// The `n`-th byte of the shown text, if there is one.
    pub fn get_nth_byte(&self, n: usize) -> (b: Option<u8>)
        requires
            self@.wf(),
        ensures
            b == if n < self@.text().len() {
                Some(self@.text()[n as int])
            } else {
                None
            },
    {
        let r = &self.history[self.current];
        if n < rope_byte_len(r) {
            Some(rope_byte(r, n))
        } else {
            None
        }
    }

    /// The number of lines of the shown text, where a final line feed starts no empty line.
    pub fn get_line_count(&self) -> (n: usize)
        requires
            self@.wf(),
        ensures
            n == line_count(self@.text()),
    {
        rope_line_count(&self.history[self.current])
    }

    /// The number of characters of the shown text.
    pub fn get_char_count(&self) -> (n: usize)
        requires
            self@.wf(),
        ensures
            n == decode_utf8(self@.text()).len(),
    {
        rope_char_count(&self.history[self.current])
    }

    /// The `n`-th character of the shown text, if there is one.
    pub fn get_nth_char(&self, n: usize) -> (c: Option<char>)
        requires
            self@.wf(),
        ensures
            c == if n < decode_utf8(self@.text()).len() {
                Some(decode_utf8(self@.text())[n as int])
            } else {
                None
            },
    {
        rope_nth_char(&self.history[self.current], n)
    }

    /// The on-screen width of line `row` without its line break, a tab taking `tab_size`
    /// columns; `None` past the last line.
    pub fn line_len(&self, row: usize) -> (n: Option<usize>)
        requires
            self@.wf(),
            row < line_count(self@.text()) ==> text_width(
                decode_utf8(line_bytes(self@.text(), row as nat)),
                self@.tab_size,
            ) <= usize::MAX,
        ensures
            n == if row < line_count(self@.text()) {
                Some(
                    text_width(decode_utf8(line_bytes(self@.text(), row as nat)), self@.tab_size) as usize,
                )
            } else {
                None
            },
    {
        let r = &self.history[self.current];
        if row < rope_line_count(r) {
            let s = rope_line_string(r, row);
            proof {
                assert(decode_utf8(encode_utf8(s@)) == s@);
            }
            Some(str_width(s.as_str(), self.tab_size))
        } else {
            None
        }
    }

    /// The byte offset of column `x` (a count of characters) on line `y`, stepped back to a
    /// character boundary; past the second-to-last line, the end of the text.
    pub fn get_byte_offset(&self, x: usize, y: usize) -> (r: Option<usize>)
        requires
            self@.wf(),
            line_count(self@.text()) >= 1,
        ensures
            r == Some(byte_offset_at(self@.text(), x as nat, y as nat) as usize),
            byte_offset_at(self@.text(), x as nat, y as nat) <= self@.text().len(),
    {
        let ghost t = self@.text();
        let r = &self.history[self.current];
        let lines = rope_line_count(r);
        if y >= lines - 1 {
            return Some(rope_byte_len(r));
        }
        let line_byte = rope_byte_of_line(r, y);
        let s = rope_line_prefix(r, y, x);
        let mut k = str_byte_len(s.as_str());
        let len = rope_byte_len(r);
        proof {
            lemma_line_start_bound(t, y as nat);
        }
        let ghost goal = back_to_boundary(t, line_byte as int, k as int);
        proof {
            lemma_back_to_boundary_bound(t, line_byte as int, k as int);
        }
        while k > 0 && (k > len - line_byte || !rope_is_char_boundary(r, line_byte + k))
            invariant
                t == rope_bytes(*r),
                valid_utf8(t),
                len == t.len(),
                line_byte <= len,
                back_to_boundary(t, line_byte as int, k as int) == goal,
            decreases k,
        {
            k = k - 1;
        }
        Some(line_byte + k)
    }

    /// Line `row` with its line break, if there is such a line.
    pub fn get_row(&self, row: usize) -> (r: Option<BufferSlice>)
        requires
            self@.wf(),
        ensures
            row < line_count(self@.text()) <==> r is Some,
            r matches Some(s) ==> string_bytes(s.text) == raw_line_bytes(self@.text(), row as nat)
                && s.tab_size == self@.tab_size,
    {
        let r = &self.history[self.current];
        if row >= rope_line_count(r) {
            return None;
        }
        let s = rope_line_slice_string(r, row);
        Some(BufferSlice::new(s, self.tab_size))
    }

    /// The number of columns of a tab.
    pub(crate) fn tab_size(&self) -> (t: u8)
        ensures
            t == self@.tab_size,
    {
        self.tab_size
    }

    /// The rope of the shown version.
    pub(crate) fn rope(&self) -> (r: &Rope)
        requires
            self@.wf(),
        ensures
            rope_bytes(*r) == self@.text(),
    {
        &self.history[self.current]
    }

    /// The bytes in `start..end` of the shown text, if the range is in order and inside it.
    pub fn get_slice(&self, start: usize, end: usize) -> (r: Option<BufferSlice>)
        requires
            self@.wf(),
            start <= end <= self@.text().len() ==> is_char_boundary(self@.text(), start as int)
                && is_char_boundary(self@.text(), end as int),
        ensures
            (start <= end && end <= self@.text().len()) <==> r is Some,
            r matches Some(s) ==> string_bytes(s.text) == self@.text().subrange(
                start as int,
                end as int,
            ) && s.tab_size == self@.tab_size,
    {
        let r = &self.history[self.current];
        if start > end {
            return None;
        }
        if end > rope_byte_len(r) {
            return None;
        }
        let s = rope_slice_string(r, start, end);
        Some(BufferSlice::new(s, self.tab_size))
    }

    /// The shown text.
    pub fn to_string(&self) -> (s: String)
        requires
            self@.wf(),
        ensures
            string_bytes(s) == self@.text(),
    {
        rope_to_string(&self.history[self.current])
    }
}

impl Buffer {
    /// Inserts each text at its offset in a new version, from the last pair to the first.
    pub fn insert_chain(&mut self, values: Vec<(usize, String)>)
        requires
            old(self)@.wf(),
            edits_rev_fit(old(self)@.text(), chain_insertions(values@)),
        ensures
            final(self)@ == old(self)@.branch().with_text(
                apply_edits_rev(old(self)@.text(), chain_insertions(values@)),
            ),
            final(self)@.wf(),
    {
        let ghost es = chain_insertions(values@);
        let mut v: Vec<(usize, usize, &str)> = Vec::new();
        let mut i: usize = 0;
        while i < values.len()
            invariant
                i <= values.len(),
                v@.len() == i,
                es == chain_insertions(values@),
                forall|j: int|
                    0 <= j < i ==> #[trigger] es[j] == (Edit {
                        start: v@[j].0 as int,
                        end: v@[j].1 as int,
                        text: v@[j].2.spec_bytes(),
                    }),
            decreases values.len() - i,
        {
            let offset = values[i].0;
            v.push((offset, offset, values[i].1.as_str()));
            i = i + 1;
        }
        self.get_new_rope();
        self.apply_rev(v, Ghost(es));
    }

    /// Deletes each range in a new version, from the last one to the first.
    pub fn delete_chain(&mut self, values: Vec<std::ops::Range<usize>>)
        requires
            old(self)@.wf(),
            edits_rev_fit(
                old(self)@.text(),
                values@.map_values(|r: std::ops::Range<usize>| deletion(r)),
            ),
        ensures
            final(self)@ == old(self)@.branch().with_text(
                apply_edits_rev(
                    old(self)@.text(),
                    values@.map_values(|r: std::ops::Range<usize>| deletion(r)),
                ),
            ),
            final(self)@.wf(),
    {
        let ghost es = values@.map_values(|r: std::ops::Range<usize>| deletion(r));
        let mut v: Vec<(usize, usize, &str)> = Vec::new();
        let mut i: usize = 0;
        while i < values.len()
            invariant
                i <= values.len(),
                v@.len() == i,
                es == values@.map_values(|r: std::ops::Range<usize>| deletion(r)),
                forall|j: int|
                    0 <= j < i ==> #[trigger] es[j] == (Edit {
                        start: v@[j].0 as int,
                        end: v@[j].1 as int,
                        text: v@[j].2.spec_bytes(),
                    }),
            decreases values.len() - i,
        {
            let empty = "";
            proof {
                reveal_strlit("");
            }
            v.push((values[i].start, values[i].end, empty));
            i = i + 1;
        }
        self.get_new_rope();
        self.apply_rev(v, Ghost(es));
    }

    /// Puts each text in place of its range in a new version, from the last pair to the first.
    pub fn replace_chain(&mut self, values: Vec<(std::ops::Range<usize>, String)>)
        requires
            old(self)@.wf(),
            edits_rev_fit(old(self)@.text(), chain_replacements(values@)),
        ensures
            final(self)@ == old(self)@.branch().with_text(
                apply_edits_rev(old(self)@.text(), chain_replacements(values@)),
            ),
            final(self)@.wf(),
    {
        let ghost es = chain_replacements(values@);
        let mut v: Vec<(usize, usize, &str)> = Vec::new();
        let mut i: usize = 0;
        while i < values.len()
            invariant
                i <= values.len(),
                v@.len() == i,
                es == chain_replacements(values@),
                forall|j: int|
                    0 <= j < i ==> #[trigger] es[j] == (Edit {
                        start: v@[j].0 as int,
                        end: v@[j].1 as int,
                        text: v@[j].2.spec_bytes(),
                    }),
            decreases values.len() - i,
        {
            let r = &values[i].0;
            v.push((r.start, r.end, values[i].1.as_str()));
            i = i + 1;
        }
        self.get_new_rope();
        self.apply_rev(v, Ghost(es));
    }

    /// Puts the first text before byte `start` and the second after byte `end`, in a new
    /// version.
    pub fn insert_pair(&mut self, start: usize, end: usize, text: (String, String))
        requires
            old(self)@.wf(),
            end < usize::MAX,
            edits_rev_fit(
                old(self)@.text(),
                pair_insertions((start, end), (string_bytes(text.0), string_bytes(text.1))),
            ),
        ensures
            final(self)@ == old(self)@.branch().with_text(
                apply_edits_rev(
                    old(self)@.text(),
                    pair_insertions((start, end), (string_bytes(text.0), string_bytes(text.1))),
                ),
            ),
            final(self)@.wf(),
    {
        let ghost es = pair_insertions((start, end), (string_bytes(text.0), string_bytes(text.1)));
        let mut v: Vec<(usize, usize, &str)> = Vec::new();
        v.push((start, start, text.0.as_str()));
        v.push((end + 1, end + 1, text.1.as_str()));
        self.get_new_rope();
        self.apply_rev(v, Ghost(es));
    }

    /// For the last ranges and the last pairs of texts, as far as the shorter list goes, puts
    /// each first text before its range and each second text after it, in a new version, from
    /// the last pair to the first.
    pub fn insert_bulk_pair(&mut self, ranges: Vec<(usize, usize)>, texts: Vec<(String, String)>)
        requires
            old(self)@.wf(),
            forall|j: int| 0 <= j < ranges@.len() ==> #[trigger] ranges@[j].1 < usize::MAX,
            edits_rev_fit(old(self)@.text(), bulk_pair_insertions(ranges@, texts@)),
        ensures
            final(self)@ == old(self)@.branch().with_text(
                apply_edits_rev(old(self)@.text(), bulk_pair_insertions(ranges@, texts@)),
            ),
            final(self)@.wf(),
    {
        let ghost es = bulk_pair_insertions(ranges@, texts@);
        let k = if ranges.len() <= texts.len() { ranges.len() } else { texts.len() };
        let rb = ranges.len() - k;
        let tb = texts.len() - k;
        let mut v: Vec<(usize, usize, &str)> = Vec::new();
        let mut i: usize = 0;
        while i < k
            invariant
                i <= k,
                k <= ranges.len(),
                k <= texts.len(),
                k == if ranges@.len() <= texts@.len() { ranges@.len() } else { texts@.len() },
                rb == ranges.len() - k,
                tb == texts.len() - k,
                v@.len() == 2 * i,
                es == bulk_pair_insertions(ranges@, texts@),
                forall|j: int| 0 <= j < ranges@.len() ==> #[trigger] ranges@[j].1 < usize::MAX,
                forall|j: int|
                    0 <= j < 2 * i ==> #[trigger] es[j] == (Edit {
                        start: v@[j].0 as int,
                        end: v@[j].1 as int,
                        text: v@[j].2.spec_bytes(),
                    }),
            decreases k - i,
        {
            let r = ranges[rb + i];
            let t = &texts[tb + i];
            v.push((r.0, r.0, t.0.as_str()));
            v.push((r.1 + 1, r.1 + 1, t.1.as_str()));
            proof {
                assert forall|j: int| 0 <= j < 2 * (i + 1) implies #[trigger] es[j] == (Edit {
                    start: v@[j].0 as int,
                    end: v@[j].1 as int,
                    text: v@[j].2.spec_bytes(),
                }) by {
                    if j >= 2 * i {
                        assert(j / 2 == i as int);
                    }
                }
            }
            i = i + 1;
        }
        self.get_new_rope();
        self.apply_rev(v, Ghost(es));
    }
}

} // verus!
