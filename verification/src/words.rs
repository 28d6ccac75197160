use vstd::prelude::*;
use vstd::utf8::*;
use crate::buffer::{Buffer, BufferSlice, BufferView};
use crate::chars::{char_is_alphanumeric, is_word, is_word_char, len_utf8, spec_is_alphanumeric, spec_len_utf8};
use crate::rope::{
    count_newlines, line_bytes, line_count, line_start, lemma_line_start_bound, lemma_line_start_mono,
    rope_byte_len, rope_byte_of_line, rope_bytes, rope_first_char, rope_is_char_boundary, rope_line_count,
    rope_line_of_byte, rope_line_string,
};
use vstd::string::{StrSliceExecFns, StringSliceAdditionalSpecFns};

verus! {

/// The greatest character boundary of `b` at or before `i`.
pub open spec fn char_start(b: Seq<u8>, i: int) -> int
    decreases i,
{
    if i <= 0 {
        0
    } else if is_char_boundary(b, i) {
        i
    } else {
        char_start(b, i - 1)
    }
}

/// The least character boundary of `b` at or after `j`, or the end of `b`.
pub open spec fn next_boundary(b: Seq<u8>, j: int) -> int
    decreases b.len() - j,
{
    if j >= b.len() {
        b.len() as int
    } else if is_char_boundary(b, j) {
        j
    } else {
        next_boundary(b, j + 1)
    }
}

/// The character whose encoding holds byte `i` of `b`; nothing outside `b`.
pub open spec fn char_at(b: Seq<u8>, i: int) -> Option<char> {
    if i < 0 || i >= b.len() {
        None
    } else {
        let s = char_start(b, i);
        Some(decode_utf8(b.subrange(s, next_boundary(b, s + 1)))[0])
    }
}

/// Whether byte `p` of `b` lies in a word character.
pub open spec fn word_at(b: Seq<u8>, p: int) -> bool {
    char_at(b, p) matches Some(c) && is_word_char(c)
}

/// Walking back byte by byte from `s` while the bytes lie in word characters: the first
/// byte that does not; nothing where the walk reaches the start of the text in a word.
pub open spec fn back_over_word(b: Seq<u8>, s: int) -> Option<int>
    decreases s,
{
    if !word_at(b, s) {
        Some(s)
    } else if s <= 0 {
        None
    } else {
        back_over_word(b, s - 1)
    }
}

/// Walking forward byte by byte from `e` while the bytes lie in word characters: the first
/// byte that does not, or the end of the text.
pub open spec fn forward_over_word(b: Seq<u8>, e: int) -> int
    decreases b.len() - e,
{
    if e >= b.len() || !word_at(b, e) {
        e
    } else {
        forward_over_word(b, e + 1)
    }
}

/// The greatest boundary at or before `i` is a boundary no later than `i`.
pub proof fn lemma_char_start(b: Seq<u8>, i: int)
    requires
        valid_utf8(b),
        0 <= i,
    ensures
        0 <= char_start(b, i) <= i,
        is_char_boundary(b, char_start(b, i)),
    decreases i,
{
    is_char_boundary_start_end_of_seq(b);
    if i > 0 && !is_char_boundary(b, i) {
        lemma_char_start(b, i - 1);
    }
}

/// The next boundary from `j` is a boundary between `j` and the end.
pub proof fn lemma_next_boundary(b: Seq<u8>, j: int)
    requires
        valid_utf8(b),
        0 <= j,
    ensures
        j <= b.len() ==> j <= next_boundary(b, j) <= b.len(),
        is_char_boundary(b, next_boundary(b, j)),
    decreases b.len() - j,
{
    is_char_boundary_start_end_of_seq(b);
    if j < b.len() && !is_char_boundary(b, j) {
        lemma_next_boundary(b, j + 1);
    }
}

/// Two neighbouring bytes with no boundary between them lie in the same character.
pub proof fn lemma_same_char(b: Seq<u8>, p: int)
    requires
        0 <= p,
        p + 1 < b.len(),
        !is_char_boundary(b, p + 1),
    ensures
        char_at(b, p) == char_at(b, p + 1),
{
    assert(char_start(b, p + 1) == char_start(b, p));
}

/// Where the walk back from `i` ends, the byte lies in no word character, and every byte
/// after it up to `i` does.
pub proof fn lemma_back_over_word(b: Seq<u8>, i: int)
    requires
        back_over_word(b, i) is Some,
    ensures
        back_over_word(b, i)->0 <= i,
        0 <= i ==> 0 <= back_over_word(b, i)->0,
        !word_at(b, back_over_word(b, i)->0),
        forall|q: int| back_over_word(b, i)->0 < q <= i ==> word_at(b, q),
    decreases i,
{
    if word_at(b, i) {
        lemma_back_over_word(b, i - 1);
    }
}

/// Where the walk forward from `i` ends, no word character starts there, and every byte
/// from `i` before it lies in one.
pub proof fn lemma_forward_over_word(b: Seq<u8>, i: int)
    requires
        0 <= i <= b.len(),
    ensures
        i <= forward_over_word(b, i) <= b.len(),
        forward_over_word(b, i) < b.len() ==> !word_at(b, forward_over_word(b, i)),
        forall|q: int| i <= q < forward_over_word(b, i) ==> word_at(b, q),
    decreases b.len() - i,
{
    if i < b.len() && word_at(b, i) {
        lemma_forward_over_word(b, i + 1);
    }
}

/// Just after the end of a walk back over a word lies a character boundary.
pub proof fn lemma_after_back_is_boundary(b: Seq<u8>, i: int)
    requires
        valid_utf8(b),
        0 <= i < b.len(),
        word_at(b, i),
        back_over_word(b, i) is Some,
    ensures
        is_char_boundary(b, back_over_word(b, i)->0 + 1),
{
    lemma_back_over_word(b, i);
    let p = back_over_word(b, i)->0;
    if !is_char_boundary(b, p + 1) {
        lemma_same_char(b, p);
        assert(word_at(b, p + 1));
    }
}

/// Where a walk forward over a word that starts in a word ends lies a character boundary.
pub proof fn lemma_forward_end_is_boundary(b: Seq<u8>, i: int)
    requires
        valid_utf8(b),
        0 <= i < b.len(),
        word_at(b, i),
    ensures
        is_char_boundary(b, forward_over_word(b, i)),
{
    lemma_forward_over_word(b, i);
    is_char_boundary_start_end_of_seq(b);
    let e = forward_over_word(b, i);
    if e < b.len() && !is_char_boundary(b, e) {
        lemma_same_char(b, e - 1);
        assert(word_at(b, e - 1));
    }
}

/// Where the word around byte `i` starts: just after the walk back over word characters, or
/// at the start of the text where the walk reaches it.
pub open spec fn word_start(b: Seq<u8>, i: int) -> int {
    match back_over_word(b, i) {
        Some(p) => p + 1,
        None => 0,
    }
}

/// The range that `Buffer::delete_word` deletes around byte `i`: from the start of the word
/// to the end of the walk forward; nothing where `i` is the end.
pub open spec fn word_bounds(b: Seq<u8>, i: int) -> (int, int) {
    if word_at(b, i) {
        (word_start(b, i), forward_over_word(b, i))
    } else {
        (i, i)
    }
}

/// Walking forward from `e` to the end of the next word: over the characters that are not
/// in a word, then over those of a word (`found` once one was met), and one byte past the
/// first byte after it that is not; or to the end of the text.
pub open spec fn next_word_scan(b: Seq<u8>, e: int, found: bool) -> int
    decreases b.len() - e,
{
    if e >= b.len() {
        e
    } else if !word_at(b, e) {
        if found {
            e + 1
        } else {
            next_word_scan(b, e + 1, false)
        }
    } else {
        next_word_scan(b, e + 1, true)
    }
}

/// Walking back from `s` over the characters that are not in a word, then over those of a
/// word (`found` once one was met), to the first byte after it that is in none; nothing
/// where the walk reaches the start of the text first.
pub open spec fn prev_word_scan(b: Seq<u8>, s: int, found: bool) -> Option<int>
    decreases s,
{
    if !word_at(b, s) && found {
        Some(s)
    } else if s <= 0 {
        None
    } else {
        prev_word_scan(b, s - 1, found || word_at(b, s))
    }
}

/// The walk forward to the end of the next word stays inside the text.
pub proof fn lemma_next_word_scan(b: Seq<u8>, e: int, found: bool)
    requires
        0 <= e <= b.len(),
    ensures
        e <= next_word_scan(b, e, found) <= b.len(),
    decreases b.len() - e,
{
    if e < b.len() && (word_at(b, e) || !found) {
        lemma_next_word_scan(b, e + 1, found || word_at(b, e));
    }
}

/// The walk back to the start of the previous word ends no later than where it starts.
pub proof fn lemma_prev_word_scan(b: Seq<u8>, s: int, found: bool)
    requires
        prev_word_scan(b, s, found) is Some,
    ensures
        prev_word_scan(b, s, found)->0 <= s,
    decreases s,
{
    if !(!word_at(b, s) && found) && s > 0 {
        lemma_prev_word_scan(b, s - 1, found || word_at(b, s));
    }
}

impl Buffer {
    /// The character whose encoding holds byte `byte_offset` of the shown text, if the
    /// offset lies inside it.
    pub fn get_char_at(&self, byte_offset: usize) -> (c: Option<char>)
        requires
            self@.wf(),
        ensures
            c == char_at(self@.text(), byte_offset as int),
    {
        let r = self.rope();
        let ghost b = self@.text();
        let n = rope_byte_len(r);
        if byte_offset >= n {
            return None;
        }
        proof {
            is_char_boundary_start_end_of_seq(b);
        }
        let mut start = byte_offset;
        while start > 0 && !rope_is_char_boundary(r, start)
            invariant
                rope_bytes(*r) == b,
                valid_utf8(b),
                n == b.len(),
                start <= byte_offset < n,
                char_start(b, start as int) == char_start(b, byte_offset as int),
            decreases start,
        {
            start = start - 1;
        }
        let mut total: usize = 1;
        while start + total < n && !rope_is_char_boundary(r, start + total)
            invariant
                rope_bytes(*r) == b,
                n == b.len(),
                start < n,
                1 <= total,
                start + total <= n,
                next_boundary(b, (start + total) as int) == next_boundary(b, start + 1),
            decreases n - start - total,
        {
            total = total + 1;
        }
        proof {
            lemma_next_boundary(b, start + total);
        }
        Some(rope_first_char(r, start, start + total))
    }

    /// Whether byte `p` of the shown text lies in a word character.
    fn is_word_at(&self, p: usize) -> (w: bool)
        requires
            self@.wf(),
        ensures
            w == word_at(self@.text(), p as int),
    {
        match self.get_char_at(p) {
            Some(c) => is_word(c),
            None => false,
        }
    }

    /// The byte at which the walk back over word characters from `i` stops.
    fn walk_back_over_word(&self, i: usize) -> (p: usize)
        requires
            self@.wf(),
            back_over_word(self@.text(), i as int) is Some,
        ensures
            p == back_over_word(self@.text(), i as int)->0,
    {
        let ghost b = self@.text();
        let mut s = i;
        while self.is_word_at(s)
            invariant
                self@.wf(),
                b == self@.text(),
                back_over_word(b, s as int) == back_over_word(b, i as int),
                back_over_word(b, i as int) is Some,
            decreases s,
        {
            s = s - 1;
        }
        s
    }

    /// Where the word around byte `i`, a word character, starts.
    fn word_start_at(&self, i: usize) -> (p: usize)
        requires
            self@.wf(),
            i < self@.text().len(),
        ensures
            p == word_start(self@.text(), i as int),
    {
        let ghost b = self@.text();
        let mut s = i;
        while self.is_word_at(s)
            invariant
                self@.wf(),
                b == self@.text(),
                s <= i < b.len(),
                back_over_word(b, s as int) == back_over_word(b, i as int),
            decreases s,
        {
            if s == 0 {
                return 0;
            }
            s = s - 1;
        }
        s + 1
    }

    /// The byte at which the walk forward over word characters from `i` stops.
    fn walk_forward_over_word(&self, i: usize) -> (e: usize)
        requires
            self@.wf(),
            i <= self@.text().len(),
        ensures
            e == forward_over_word(self@.text(), i as int),
    {
        let ghost b = self@.text();
        let n = rope_byte_len(self.rope());
        let mut e = i;
        while e < n && self.is_word_at(e)
            invariant
                self@.wf(),
                b == self@.text(),
                n == b.len(),
                i <= e <= n,
                forward_over_word(b, e as int) == forward_over_word(b, i as int),
            decreases n - e,
        {
            e = e + 1;
        }
        e
    }

    /// The word around byte `byte_offset`, when the character there is alphanumeric: from
    /// the byte where the walk back over word characters stops (which the slice holds) to
    /// the end of the walk forward.
    pub fn get_word(&self, byte_offset: usize) -> (r: Option<BufferSlice>)
        requires
            self@.wf(),
            word_walk_ok(self@.text(), byte_offset as int),
        ensures
            r is Some <==> (byte_offset < self@.text().len() && spec_is_alphanumeric(
                char_at(self@.text(), byte_offset as int)->0,
            )),
            r matches Some(s) ==> crate::buffer::string_bytes(s.text) == self@.text().subrange(
                back_over_word(self@.text(), byte_offset as int)->0,
                forward_over_word(self@.text(), byte_offset as int),
            ) && s.tab_size == self@.tab_size,
    {
        let ghost b = self@.text();
        let n = rope_byte_len(self.rope());
        if byte_offset >= n {
            return None;
        }
        let c = match self.get_char_at(byte_offset) {
            Some(c) => c,
            None => {
                return None;
            },
        };
        if !char_is_alphanumeric(c) {
            return None;
        }
        let start = self.walk_back_over_word(byte_offset);
        let end = self.walk_forward_over_word(byte_offset);
        proof {
            lemma_back_over_word(b, byte_offset as int);
            lemma_forward_over_word(b, byte_offset as int);
            lemma_forward_end_is_boundary(b, byte_offset as int);
        }
        if start == end {
            return None;
        }
        self.get_slice(start, end)
    }

    /// Deletes the word around byte `byte_offset` in a new version: from just after the
    /// walk back over word characters to the end of the walk forward. Returns where the
    /// deleted word started.
    pub fn delete_word(&mut self, byte_offset: usize) -> (start: usize)
        requires
            old(self)@.wf(),
            old(self)@.version < usize::MAX,
            byte_offset == old(self)@.text().len() || word_at(old(self)@.text(), byte_offset as int),
        ensures
            start == word_bounds(old(self)@.text(), byte_offset as int).0,
            final(self)@ == old(self)@.edited(
                old(self)@.text().take(start as int) + old(self)@.text().skip(
                    word_bounds(old(self)@.text(), byte_offset as int).1,
                ),
            ),
            final(self)@.wf(),
    {
        let ghost b = self@.text();
        proof {
            is_char_boundary_start_end_of_seq(b);
        }
        if self.is_word_at(byte_offset) {
            let start = self.word_start_at(byte_offset);
            let end = self.walk_forward_over_word(byte_offset);
            proof {
                lemma_forward_over_word(b, byte_offset as int);
                lemma_forward_end_is_boundary(b, byte_offset as int);
                if back_over_word(b, byte_offset as int) is Some {
                    lemma_back_over_word(b, byte_offset as int);
                    lemma_after_back_is_boundary(b, byte_offset as int);
                }
            }
            self.delete(start..end);
            start
        } else {
            self.delete(byte_offset..byte_offset);
            proof {
                assert(b.take(byte_offset as int) + b.skip(byte_offset as int) =~= b);
            }
            byte_offset
        }
    }
}

/// Whether the walks of `Buffer::get_word` from byte `i` of `b` end, and its slice starts
/// on a character boundary.
pub open spec fn word_walk_ok(b: Seq<u8>, i: int) -> bool {
    (0 <= i < b.len() && spec_is_alphanumeric(char_at(b, i)->0)) ==> (back_over_word(b, i) matches Some(p)
        && is_char_boundary(b, p))
}


impl Buffer {
    /// The text from byte `byte_offset` to the end of the next word: over the characters
    /// that are not in a word, then over those of a word, and one byte past the first byte
    /// after it; nothing where the offset is not inside the text.
    pub fn get_until_next_word(&self, byte_offset: usize) -> (r: Option<BufferSlice>)
        requires
            self@.wf(),
            byte_offset < self@.text().len() ==> is_char_boundary(self@.text(), byte_offset as int)
                && is_char_boundary(self@.text(), next_word_scan(self@.text(), byte_offset as int, false)),
        ensures
            r is Some <==> byte_offset < self@.text().len(),
            r matches Some(s) ==> crate::buffer::string_bytes(s.text) == self@.text().subrange(
                byte_offset as int,
                next_word_scan(self@.text(), byte_offset as int, false),
            ) && s.tab_size == self@.tab_size,
    {
        let ghost b = self@.text();
        let n = rope_byte_len(self.rope());
        if byte_offset >= n {
            return None;
        }
        let mut end = byte_offset;
        let mut found = false;
        let mut done = false;
        while end < n && !done
            invariant
                self@.wf(),
                b == self@.text(),
                n == b.len(),
                byte_offset <= end <= n,
                next_word_scan(b, byte_offset as int, false) == if done {
                    end as int
                } else {
                    next_word_scan(b, end as int, found)
                },
            decreases n - end,
        {
            if !self.is_word_at(end) {
                end = end + 1;
                if found {
                    done = true;
                }
            } else {
                found = true;
                end = end + 1;
            }
        }
        self.get_slice(byte_offset, end)
    }

    /// The text from the start of the previous word to byte `byte_offset`: back over the
    /// characters that are not in a word, then over those of a word, to the first byte
    /// before it that is in none (which the slice holds); nothing where the offset is not
    /// inside the text.
    pub fn get_until_prev_word(&self, byte_offset: usize) -> (r: Option<BufferSlice>)
        requires
            self@.wf(),
            byte_offset < self@.text().len() ==> (prev_word_scan(self@.text(), byte_offset as int, false) matches Some(p)
                && is_char_boundary(self@.text(), p) && is_char_boundary(self@.text(), byte_offset as int)),
        ensures
            r is Some <==> byte_offset < self@.text().len(),
            r matches Some(s) ==> crate::buffer::string_bytes(s.text) == self@.text().subrange(
                prev_word_scan(self@.text(), byte_offset as int, false)->0,
                byte_offset as int,
            ) && s.tab_size == self@.tab_size,
    {
        let ghost b = self@.text();
        let n = rope_byte_len(self.rope());
        if byte_offset >= n {
            return None;
        }
        let mut start = byte_offset;
        let mut found = false;
        let mut done = false;
        while !done
            invariant
                self@.wf(),
                b == self@.text(),
                start <= byte_offset,
                prev_word_scan(b, byte_offset as int, false) is Some,
                prev_word_scan(b, byte_offset as int, false) == if done {
                    Some(start as int)
                } else {
                    prev_word_scan(b, start as int, found)
                },
            decreases start + if done { 0int } else { 1int },
        {
            let w = self.is_word_at(start);
            if !w && found {
                done = true;
            } else {
                start = start - 1;
                found = found || w;
            }
        }
        proof {
            lemma_prev_word_scan(b, byte_offset as int, false);
        }
        self.get_slice(start, byte_offset)
    }
}


/// Just after a one-byte character that starts on a boundary lies a boundary.
pub proof fn lemma_after_ascii_boundary(b: Seq<u8>, q: int)
    requires
        valid_utf8(b),
        0 <= q < b.len(),
        is_char_boundary(b, q),
        b[q] < 0x80,
    ensures
        is_char_boundary(b, q + 1),
    decreases b.len(),
{
    let l = length_of_first_scalar(b);
    let rest = pop_first_scalar(b);
    if q == 0 {
        assert(l == 1);
        assert(is_char_boundary(rest, 0));
    } else {
        assert(is_char_boundary(rest, q - l));
        assert(q - l >= 0);
        assert(rest[q - l] == b[q]);
        lemma_after_ascii_boundary(rest, q - l);
    }
}

/// Where a later line starts, a line feed ends the line before, or the text ends.
pub proof fn lemma_line_start_after_feed(b: Seq<u8>, k: nat)
    requires
        k >= 1,
    ensures
        line_start(b, k) == b.len() || (line_start(b, k) >= 1 && b[line_start(b, k) - 1] == 10u8),
    decreases b.len(),
{
    if b.len() > 0 {
        let t = b.drop_first();
        if b[0] == 10u8 {
            if k >= 2 {
                lemma_line_start_after_feed(t, (k - 1) as nat);
                lemma_line_start_bound(t, (k - 1) as nat);
                let x = line_start(t, (k - 1) as nat) as int;
                if x < t.len() {
                    assert(t[x - 1] == b[x]);
                }
            }
        } else {
            lemma_line_start_after_feed(t, k);
            lemma_line_start_bound(t, k);
            let x = line_start(t, k) as int;
            if x < t.len() {
                assert(t[x - 1] == b[x]);
            }
        }
    }
}

/// Every line starts on a character boundary.
pub proof fn lemma_line_start_boundary(b: Seq<u8>, k: nat)
    requires
        valid_utf8(b),
    ensures
        is_char_boundary(b, line_start(b, k) as int),
{
    is_char_boundary_start_end_of_seq(b);
    lemma_line_start_bound(b, k);
    if k >= 1 {
        lemma_line_start_after_feed(b, k);
        let p = line_start(b, k) as int;
        if p < b.len() {
            is_char_boundary_iff_not_is_continuation_byte(b, p - 1);
            lemma_after_ascii_boundary(b, p - 1);
        }
    }
}

/// The range that `Buffer::delete_line` deletes for row `row` of a text of `count` lines:
/// from the start of the row to the start of the next one, or to the end of the text where
/// the next row is the last one or lies past it.
pub open spec fn line_deletion_end(b: Seq<u8>, row: nat) -> int {
    if row + 1 < line_count(b) - 1 {
        line_start(b, row + 1) as int
    } else {
        b.len() as int
    }
}

impl Buffer {
    /// Deletes row `row` with its line break in a new version; the row before the last one
    /// is deleted to the end of the text.
    pub fn delete_line(&mut self, row: usize)
        requires
            old(self)@.wf(),
            old(self)@.version < usize::MAX,
            1 <= line_count(old(self)@.text()),
            row <= line_count(old(self)@.text()),
        ensures
            final(self)@ == old(self)@.edited(
                old(self)@.text().take(line_start(old(self)@.text(), row as nat) as int) + old(
                    self,
                )@.text().skip(line_deletion_end(old(self)@.text(), row as nat)),
            ),
            final(self)@.wf(),
    {
        let ghost b = self@.text();
        let r = self.rope();
        let line_byte = rope_byte_of_line(r, row);
        let lines = rope_line_count(r) - 1;
        let next = if row < lines && row + 1 < lines {
            rope_byte_of_line(r, row + 1)
        } else {
            rope_byte_len(r)
        };
        proof {
            lemma_line_start_mono(b, row as nat);
            lemma_line_start_bound(b, row as nat);
            lemma_line_start_boundary(b, row as nat);
            lemma_line_start_boundary(b, (row + 1) as nat);
            is_char_boundary_start_end_of_seq(b);
        }
        self.delete(line_byte..next);
    }
}


/// The number of bytes of the encoding of the character that holds byte `s` of `b`.
pub open spec fn char_len_at(b: Seq<u8>, s: int) -> int {
    spec_len_utf8(char_at(b, s)->0) as int
}

/// A character is one to four bytes long.
pub proof fn lemma_char_len_at(b: Seq<u8>, s: int)
    ensures
        1 <= char_len_at(b, s) <= 4,
{
}

/// Byte `s` of `b` less the length of the character that holds it, and no less than zero.
pub open spec fn back_step(b: Seq<u8>, s: int) -> int {
    if s - char_len_at(b, s) < 0 {
        0
    } else {
        s - char_len_at(b, s)
    }
}

/// Walking forward from byte `s` by the lengths of the characters met: over word
/// characters, and just past the first character that is in none; or to where the text ends.
pub open spec fn scan_word_forward(b: Seq<u8>, s: int) -> int
    decreases b.len() + 4 - s,
{
    if s < 0 || s >= b.len() {
        s
    } else if !word_at(b, s) {
        s + char_len_at(b, s)
    } else {
        proof {
            lemma_char_len_at(b, s);
        }
        scan_word_forward(b, s + char_len_at(b, s))
    }
}

/// Walking forward from byte `s` over word characters, then one character's length back
/// from the first one that is in none (to no less than zero); or to where the text ends.
pub open spec fn skip_word_then_back(b: Seq<u8>, s: int) -> int
    decreases b.len() + 4 - s,
{
    if s < 0 || s >= b.len() {
        s
    } else if word_at(b, s) {
        proof {
            lemma_char_len_at(b, s);
        }
        skip_word_then_back(b, s + char_len_at(b, s))
    } else {
        back_step(b, s)
    }
}

/// Walking back from byte `s` by the lengths of the characters met: over word characters,
/// and one step past the first character that is in none; nothing where the walk stays at
/// the start of the text in a word for ever.
pub open spec fn scan_word_backward(b: Seq<u8>, s: int) -> Option<int>
    decreases s,
{
    if s < 0 || s >= b.len() {
        Some(s)
    } else if !word_at(b, s) {
        Some(back_step(b, s))
    } else if s == 0 {
        None
    } else {
        scan_word_backward(b, back_step(b, s))
    }
}

/// Walking back from byte `s` over word characters, then forward by the length of the first
/// character that is in none; nothing where the walk stays at the start of the text in a
/// word for ever.
pub open spec fn back_to_word_start(b: Seq<u8>, s: int) -> Option<int>
    decreases s,
{
    if s < 0 || s >= b.len() {
        Some(s)
    } else if word_at(b, s) {
        if s == 0 {
            None
        } else {
            back_to_word_start(b, back_step(b, s))
        }
    } else if s + char_len_at(b, s) > usize::MAX {
        Some(usize::MAX as int)
    } else {
        Some(s + char_len_at(b, s))
    }
}

/// Where a move to the front of the next word from byte `p` of `b` lands: from the boundary
/// at or before `p`, past one character that is in no word, then over a word and past the
/// character after it.
pub open spec fn front_of_next_word(b: Seq<u8>, p: int) -> int {
    let p0 = char_start(b, p);
    let s1 = if p0 < b.len() && !word_at(b, p0) {
        p0 + char_len_at(b, p0)
    } else {
        p0
    };
    scan_word_forward(b, s1)
}

/// Where a move to the back of the next word from byte `p` of `b` lands: past one character
/// that is in no word, over a word and past the character after it, then over the next
/// word and one character back from its end.
pub open spec fn back_of_next_word(b: Seq<u8>, p: int) -> int {
    let s1 = if 0 <= p < b.len() && !word_at(b, p) {
        p + char_len_at(b, p)
    } else {
        p
    };
    skip_word_then_back(b, scan_word_forward(b, s1))
}

/// Where a move back to the previous word from byte `p` of `b` lands: one step back over a
/// character that is in no word, back over a word and one step past the character before
/// it, then back over the word there and forward by the character before it; nothing where
/// the walk stays at the start of the text for ever.
pub open spec fn start_of_prev_word(b: Seq<u8>, p: int) -> Option<int> {
    let s1 = if 0 <= p < b.len() && !word_at(b, p) {
        back_step(b, p)
    } else {
        p
    };
    match scan_word_backward(b, s1) {
        Some(s2) => back_to_word_start(b, s2),
        None => None,
    }
}

/// The walk forward over a word from `s` ends at most three bytes past the end of the text.
pub proof fn lemma_scan_word_forward(b: Seq<u8>, s: int)
    requires
        0 <= s <= b.len() + 3,
    ensures
        s <= scan_word_forward(b, s) <= b.len() + 3,
    decreases b.len() + 4 - s,
{
    lemma_char_len_at(b, s);
    if 0 <= s < b.len() && word_at(b, s) {
        lemma_scan_word_forward(b, s + char_len_at(b, s));
    }
}

/// The walk from `s` over a word and one step back ends at most three bytes past the end
/// of the text.
pub proof fn lemma_skip_word_then_back(b: Seq<u8>, s: int)
    requires
        0 <= s <= b.len() + 3,
    ensures
        0 <= skip_word_then_back(b, s) <= b.len() + 3,
    decreases b.len() + 4 - s,
{
    lemma_char_len_at(b, s);
    if 0 <= s < b.len() && word_at(b, s) {
        lemma_skip_word_then_back(b, s + char_len_at(b, s));
    }
}

/// The walk back over a word from `s` stays between zero and `s`.
pub proof fn lemma_scan_word_backward(b: Seq<u8>, s: int)
    requires
        0 <= s,
        scan_word_backward(b, s) is Some,
    ensures
        0 <= scan_word_backward(b, s)->0 <= s,
    decreases s,
{
    if 0 <= s < b.len() && word_at(b, s) && s != 0 {
        lemma_scan_word_backward(b, back_step(b, s));
    }
}

/// The walk back to the start of a word from `s` ends between zero and the largest `usize`.
pub proof fn lemma_back_to_word_start(b: Seq<u8>, s: int)
    requires
        0 <= s <= usize::MAX,
        back_to_word_start(b, s) is Some,
    ensures
        0 <= back_to_word_start(b, s)->0 <= usize::MAX,
    decreases s,
{
    if 0 <= s < b.len() && word_at(b, s) && s != 0 {
        lemma_back_to_word_start(b, back_step(b, s));
    }
}

impl Buffer {
    /// Walks forward from byte `s` as `scan_word_forward` says.
    fn walk_word_forward(&self, s: usize) -> (e: usize)
        requires
            self@.wf(),
            s <= self@.text().len() + 3,
            self@.text().len() + 4 <= usize::MAX,
        ensures
            e == scan_word_forward(self@.text(), s as int),
    {
        let ghost b = self@.text();
        let mut start = s;
        let mut done = false;
        while !done
            invariant
                self@.wf(),
                b == self@.text(),
                b.len() + 4 <= usize::MAX,
                s <= start <= b.len() + 3,
                scan_word_forward(b, s as int) == if done {
                    start as int
                } else {
                    scan_word_forward(b, start as int)
                },
            decreases b.len() + 4 - start + if done { 0int } else { 1int },
        {
            match self.get_char_at(start) {
                None => {
                    done = true;
                },
                Some(c) => {
                    let n = len_utf8(c);
                    if !is_word(c) {
                        done = true;
                    }
                    start = start + n;
                },
            }
        }
        start
    }

    /// One character's length back from byte `s`, to no less than zero.
    fn step_back(&self, s: usize, c: char) -> (r: usize)
        requires
            self@.wf(),
            char_at(self@.text(), s as int) == Some(c),
        ensures
            r == back_step(self@.text(), s as int),
    {
        s.saturating_sub(len_utf8(c))
    }

    /// Walks back from byte `s` as `scan_word_backward` says.
    fn walk_word_backward(&self, s: usize) -> (r: usize)
        requires
            self@.wf(),
            scan_word_backward(self@.text(), s as int) is Some,
        ensures
            r == scan_word_backward(self@.text(), s as int)->0,
    {
        let ghost b = self@.text();
        let mut start = s;
        let mut done = false;
        while !done
            invariant
                self@.wf(),
                b == self@.text(),
                scan_word_backward(b, s as int) is Some,
                scan_word_backward(b, s as int) == if done {
                    Some(start as int)
                } else {
                    scan_word_backward(b, start as int)
                },
            decreases start + if done { 0int } else { 1int },
        {
            match self.get_char_at(start) {
                None => {
                    done = true;
                },
                Some(c) => {
                    let w = is_word(c);
                    start = self.step_back(start, c);
                    if !w {
                        done = true;
                    }
                },
            }
        }
        start
    }

    /// Where a move to the front of the next word from byte `byte_position` lands.
    pub fn next_word_front(&self, byte_position: usize) -> (r: usize)
        requires
            self@.wf(),
            byte_position <= self@.text().len(),
            self@.text().len() + 4 <= usize::MAX,
        ensures
            r == front_of_next_word(self@.text(), byte_position as int),
    {
        let ghost b = self@.text();
        let rope = self.rope();
        proof {
            is_char_boundary_start_end_of_seq(b);
        }
        let mut pos = byte_position;
        while !rope_is_char_boundary(rope, pos)
            invariant
                self@.wf(),
                b == self@.text(),
                rope_bytes(*rope) == b,
                valid_utf8(b),
                pos <= byte_position <= b.len(),
                char_start(b, pos as int) == char_start(b, byte_position as int),
            decreases pos,
        {
            pos = pos - 1;
        }
        let mut start = pos;
        match self.get_char_at(pos) {
            Some(c) => {
                if !is_word(c) {
                    start = pos + len_utf8(c);
                }
            },
            None => {},
        }
        self.walk_word_forward(start)
    }

    /// Where a move to the back of the next word from byte `byte_position` lands.
    pub fn next_word_back(&self, byte_position: usize) -> (r: usize)
        requires
            self@.wf(),
            self@.text().len() + 4 <= usize::MAX,
        ensures
            r == back_of_next_word(self@.text(), byte_position as int),
    {
        let ghost b = self@.text();
        let mut start = byte_position;
        match self.get_char_at(byte_position) {
            Some(c) => {
                if !is_word(c) {
                    start = byte_position + len_utf8(c);
                }
            },
            None => {},
        }
        if start >= rope_byte_len(self.rope()) {
            return start;
        }
        let mid = self.walk_word_forward(start);
        proof {
            lemma_scan_word_forward(b, start as int);
        }
        let mut end = mid;
        let mut done = false;
        while !done
            invariant
                self@.wf(),
                b == self@.text(),
                b.len() + 4 <= usize::MAX,
                end <= b.len() + 3,
                skip_word_then_back(b, mid as int) == if done {
                    end as int
                } else {
                    skip_word_then_back(b, end as int)
                },
            decreases if done { 0int } else { b.len() + 5 - end },
        {
            match self.get_char_at(end) {
                None => {
                    done = true;
                },
                Some(c) => {
                    if is_word(c) {
                        end = end + len_utf8(c);
                    } else {
                        end = self.step_back(end, c);
                        done = true;
                    }
                },
            }
        }
        end
    }

    /// Where a move back to the front of the previous word from byte `byte_position` lands.
    pub fn prev_word_front(&self, byte_position: usize) -> (r: usize)
        requires
            self@.wf(),
            start_of_prev_word(self@.text(), byte_position as int) is Some,
        ensures
            r == start_of_prev_word(self@.text(), byte_position as int)->0,
    {
        let ghost b = self@.text();
        let mut start = byte_position;
        match self.get_char_at(byte_position) {
            Some(c) => {
                if !is_word(c) {
                    start = self.step_back(byte_position, c);
                }
            },
            None => {},
        }
        let mid = self.walk_word_backward(start);
        let mut end = mid;
        let mut done = false;
        while !done
            invariant
                self@.wf(),
                b == self@.text(),
                back_to_word_start(b, mid as int) is Some,
                back_to_word_start(b, mid as int) == if done {
                    Some(end as int)
                } else {
                    back_to_word_start(b, end as int)
                },
            decreases if done { 0int } else { end + 1 },
        {
            match self.get_char_at(end) {
                None => {
                    done = true;
                },
                Some(c) => {
                    if is_word(c) {
                        end = self.step_back(end, c);
                    } else {
                        end = end.saturating_add(len_utf8(c));
                        done = true;
                    }
                },
            }
        }
        end
    }

    /// Where a move back to the back of the previous word from byte `byte_position` lands:
    /// the same walk as that of `prev_word_front`.
    pub fn prev_word_back(&self, byte_position: usize) -> (r: usize)
        requires
            self@.wf(),
            start_of_prev_word(self@.text(), byte_position as int) is Some,
        ensures
            r == start_of_prev_word(self@.text(), byte_position as int)->0,
    {
        self.prev_word_front(byte_position)
    }
}


/// The line feeds of a text are those of its first byte and those after it.
pub proof fn lemma_count_newlines_first(b: Seq<u8>)
    requires
        b.len() > 0,
    ensures
        count_newlines(b) == count_newlines(b.drop_first()) + if b[0] == 10u8 {
            1nat
        } else {
            0nat
        },
    decreases b.len(),
{
    if b.len() == 1 {
        assert(b.drop_first().len() == 0);
        assert(b.drop_last().len() == 0);
        assert(count_newlines(b) == count_newlines(b.drop_last()) + if b.last() == 10u8 {
            1nat
        } else {
            0nat
        });
    } else {
        lemma_count_newlines_first(b.drop_last());
        assert(b.drop_last().drop_first() =~= b.drop_first().drop_last());
        assert(b.drop_last()[0] == b[0]);
        assert(b.drop_first().last() == b.last());
        assert(count_newlines(b.drop_first()) == count_newlines(b.drop_first().drop_last())
            + if b.drop_first().last() == 10u8 {
            1nat
        } else {
            0nat
        });
    }
}

/// A prefix of a text holds no more line feeds than the text.
pub proof fn lemma_count_newlines_prefix(b: Seq<u8>, i: int)
    requires
        0 <= i <= b.len(),
    ensures
        count_newlines(b.take(i)) <= count_newlines(b),
    decreases b.len(),
{
    if i == b.len() {
        assert(b.take(i) =~= b);
    } else {
        lemma_count_newlines_prefix(b.drop_last(), i);
        assert(b.drop_last().take(i) =~= b.take(i));
    }
}

/// The line that holds byte `i` starts no later than `i`.
pub proof fn lemma_line_of_byte_start(b: Seq<u8>, i: int)
    requires
        0 <= i <= b.len(),
    ensures
        line_start(b, count_newlines(b.take(i))) <= i,
    decreases b.len(),
{
    if i == 0 {
        assert(b.take(0).len() == 0);
    } else {
        let t = b.take(i);
        lemma_count_newlines_first(t);
        assert(t.drop_first() =~= b.drop_first().take(i - 1));
        lemma_line_of_byte_start(b.drop_first(), i - 1);
    }
}

/// The column and the row of byte `i` of `b`: the row is the number of line feeds before
/// it, the column the greatest character boundary of the text at or before its distance
/// from the start of that row.
pub open spec fn cursor_of_byte(b: Seq<u8>, i: int) -> (int, int) {
    let y = count_newlines(b.take(i));
    (char_start(b, i - line_start(b, y)), y as int)
}

/// Where the slice of `Buffer::get_row_special` ends in a line of bytes `lb`: its end where
/// `cols + col_offset` passes the number of characters of the line, one byte before its end
/// where it equals that number, and `cols + col_offset` otherwise.
pub open spec fn special_row_end(lb: Seq<u8>, col_offset: int, cols: int) -> int {
    let chars = decode_utf8(lb).len();
    if cols + col_offset > chars {
        lb.len() as int
    } else if cols + col_offset == chars {
        lb.len() - 1
    } else {
        cols + col_offset
    }
}

/// Whether `Buffer::get_row_special` returns on `b` and its arguments: the text has a line,
/// the sum of the columns fits a `usize`, and in a row before the last the end is not before
/// the start of the line and both ends of the slice are character boundaries of it.
pub open spec fn row_special_ok(b: Seq<u8>, row: int, col_offset: int, cols: int) -> bool {
    &&& line_count(b) >= 1
    &&& cols + col_offset <= usize::MAX
    &&& row < line_count(b) - 1 ==> {
        let lb = line_bytes(b, row as nat);
        let end = special_row_end(lb, col_offset, cols);
        &&& end >= 0
        &&& col_offset <= end ==> is_char_boundary(lb, col_offset) && is_char_boundary(lb, end)
    }
}

impl Buffer {
    /// The column and the row of byte `byte_offset`, if it lies inside the shown text.
    pub fn get_cursor_from_byte_offset(&self, byte_offset: usize) -> (r: Option<(usize, usize)>)
        requires
            self@.wf(),
        ensures
            r is Some <==> byte_offset < self@.text().len(),
            r matches Some(p) ==> p.0 == cursor_of_byte(self@.text(), byte_offset as int).0 && p.1
                == cursor_of_byte(self@.text(), byte_offset as int).1,
    {
        let ghost b = self@.text();
        let rope = self.rope();
        let n = rope_byte_len(rope);
        if byte_offset >= n {
            return None;
        }
        let y = rope_line_of_byte(rope, byte_offset);
        proof {
            lemma_count_newlines_prefix(b, byte_offset as int);
            lemma_line_of_byte_start(b, byte_offset as int);
            is_char_boundary_start_end_of_seq(b);
        }
        let line = rope_byte_of_line(rope, y);
        let mut x = byte_offset - line;
        while !rope_is_char_boundary(rope, x)
            invariant
                rope_bytes(*rope) == b,
                valid_utf8(b),
                x <= byte_offset - line,
                byte_offset < b.len(),
                char_start(b, x as int) == char_start(b, byte_offset - line),
            decreases x,
        {
            x = x - 1;
        }
        Some((x, y))
    }

    /// Part of row `row`, which is not the last: from byte `col_offset` of the line to where
    /// `special_row_end` says; nothing in the last row or after it, or where the end comes
    /// before the start.
    pub fn get_row_special(&self, row: usize, col_offset: usize, cols: usize) -> (r: Option<BufferSlice>)
        requires
            self@.wf(),
            row_special_ok(self@.text(), row as int, col_offset as int, cols as int),
        ensures
            r is Some <==> (row < line_count(self@.text()) - 1 && col_offset <= special_row_end(
                line_bytes(self@.text(), row as nat),
                col_offset as int,
                cols as int,
            )),
            r matches Some(s) ==> crate::buffer::string_bytes(s.text) == line_bytes(
                self@.text(),
                row as nat,
            ).subrange(
                col_offset as int,
                special_row_end(line_bytes(self@.text(), row as nat), col_offset as int, cols as int),
            ) && s.tab_size == self@.tab_size,
    {
        let ghost b = self@.text();
        let rope = self.rope();
        if row >= rope_line_count(rope) - 1 {
            return None;
        }
        let line = rope_line_string(rope, row);
        let ghost lb = line_bytes(b, row as nat);
        proof {
            encode_utf8_decode_utf8(line@);
            encode_utf8_valid_utf8(line@);
        }
        let text = line.as_str();
        let chars = text.unicode_len();
        let bytes = text.len();
        assert(text.spec_bytes() == lb);
        assert(chars == decode_utf8(lb).len());
        proof {
            lemma_line_start_mono(b, row as nat);
        }
        assert(lb.len() <= b.len());
        let sum = cols + col_offset;
        let len = if sum > chars {
            bytes
        } else if sum == chars {
            bytes - 1
        } else {
            sum
        };
        if col_offset > len {
            return None;
        }
        let (head, _) = text.split_at(len);
        proof {
            valid_utf8_split(lb, len as int);
            if col_offset < len {
                is_char_boundary_iff_not_is_continuation_byte(lb, col_offset as int);
                is_char_boundary_iff_not_is_continuation_byte(head.spec_bytes(), col_offset as int);
            } else {
                is_char_boundary_start_end_of_seq(head.spec_bytes());
            }
        }
        let (_, piece) = head.split_at(col_offset);
        proof {
            assert(piece.spec_bytes() =~= lb.subrange(col_offset as int, len as int));
        }
        Some(BufferSlice::new(piece.to_owned(), self.tab_size()))
    }
}


/// A move to the front of the next word from a character boundary inside the text goes
/// forward.
pub proof fn law_next_word_front_moves_forward(b: Seq<u8>, p: int)
    requires
        0 <= p < b.len(),
        is_char_boundary(b, p),
    ensures
        front_of_next_word(b, p) > p,
{
    assert(char_start(b, p) == p);
    lemma_char_len_at(b, p);
    if word_at(b, p) {
        lemma_scan_word_forward(b, p + char_len_at(b, p));
        assert(scan_word_forward(b, p) == scan_word_forward(b, p + char_len_at(b, p)));
    } else {
        lemma_scan_word_forward(b, p + char_len_at(b, p));
    }
}

impl Buffer {
    /// Whether byte `k` of the shown text starts a character or is its end.
    pub fn is_boundary(&self, k: usize) -> (b: bool)
        requires
            self@.wf(),
        ensures
            b == is_char_boundary(self@.text(), k as int),
    {
        let r = self.rope();
        let n = rope_byte_len(r);
        if k > n {
            return false;
        }
        rope_is_char_boundary(r, k)
    }

    /// Where the walk from byte `i` to the end of the next word ends.
    pub fn next_word_end(&self, i: usize) -> (e: usize)
        requires
            self@.wf(),
            i <= self@.text().len(),
        ensures
            e == next_word_scan(self@.text(), i as int, false),
    {
        let ghost b = self@.text();
        let n = rope_byte_len(self.rope());
        let mut end = i;
        let mut found = false;
        let mut done = false;
        while end < n && !done
            invariant
                self@.wf(),
                b == self@.text(),
                n == b.len(),
                i <= end <= n,
                next_word_scan(b, i as int, false) == if done {
                    end as int
                } else {
                    next_word_scan(b, end as int, found)
                },
            decreases n - end,
        {
            if !self.is_word_at(end) {
                end = end + 1;
                if found {
                    done = true;
                }
            } else {
                found = true;
                end = end + 1;
            }
        }
        end
    }

    /// Where the walk back from byte `i` to the start of the previous word ends, if it ends
    /// before the start of the text.
    pub fn prev_word_start(&self, i: usize) -> (r: Option<usize>)
        requires
            self@.wf(),
        ensures
            match r {
                Some(p) => prev_word_scan(self@.text(), i as int, false) == Some(p as int),
                None => prev_word_scan(self@.text(), i as int, false) is None,
            },
    {
        let ghost b = self@.text();
        let mut start = i;
        let mut found = false;
        loop
            invariant
                self@.wf(),
                b == self@.text(),
                prev_word_scan(b, i as int, false) == prev_word_scan(b, start as int, found),
            decreases start,
        {
            let w = self.is_word_at(start);
            if !w && found {
                return Some(start);
            }
            if start == 0 {
                return None;
            }
            found = found || w;
            start = start - 1;
        }
    }

    /// The range that deleting the word around byte `i` deletes.
    pub fn word_bounds_at(&self, i: usize) -> (r: (usize, usize))
        requires
            self@.wf(),
            i <= self@.text().len(),
        ensures
            r.0 == word_bounds(self@.text(), i as int).0,
            r.1 == word_bounds(self@.text(), i as int).1,
            r.0 <= r.1 <= self@.text().len(),
    {
        if self.is_word_at(i) {
            let s = self.word_start_at(i);
            let e = self.walk_forward_over_word(i);
            proof {
                lemma_forward_over_word(self@.text(), i as int);
                if back_over_word(self@.text(), i as int) is Some {
                    lemma_back_over_word(self@.text(), i as int);
                }
            }
            (s, e)
        } else {
            (i, i)
        }
    }
}

/// Deleting one of the last two rows (or a row past them) removes everything from the
/// start of that row to the end of the text.
pub proof fn law_delete_last_lines_removes_to_the_end(b: Seq<u8>, k: nat)
    requires
        k + 1 >= line_count(b) - 1,
    ensures
        b.take(line_start(b, k) as int) + b.skip(line_deletion_end(b, k)) == b.take(line_start(b, k) as int),
{
    assert(b.skip(b.len() as int) =~= Seq::<u8>::empty());
    assert(b.take(line_start(b, k) as int) + Seq::<u8>::empty() =~= b.take(line_start(b, k) as int));
}

/// Deleting a row that is neither of the last two removes exactly that row with its line
/// feed: the bytes from its start to the start of the next row, and nothing else.
pub proof fn law_delete_line_removes_the_row(b: Seq<u8>, k: nat)
    requires
        k + 1 < line_count(b) - 1,
    ensures
        line_deletion_end(b, k) == line_start(b, k) + crate::rope::raw_line_bytes(b, k).len(),
        b.take(line_start(b, k) as int) + b.skip(line_deletion_end(b, k)) == b.take(line_start(b, k) as int)
            + b.skip(line_start(b, k + 1) as int),
{
    lemma_line_start_mono(b, k);
}

/// Whether every byte of `b` encodes an ASCII character.
pub open spec fn all_ascii(b: Seq<u8>) -> bool {
    forall|i: int| 0 <= i < b.len() ==> #[trigger] b[i] < 0x80
}

/// An ASCII text is valid UTF-8, every place in it is a character boundary, and the
/// character at each byte is that byte, one byte long.
proof fn lemma_ascii_chars(b: Seq<u8>)
    requires
        all_ascii(b),
    ensures
        valid_utf8(b),
        forall|i: int| 0 <= i <= b.len() ==> #[trigger] is_char_boundary(b, i),
        forall|i: int|
            0 <= i < b.len() ==> #[trigger] char_at(b, i) == Some(b[i] as char) && char_len_at(b, i) == 1,
{
    let cs = Seq::new(b.len(), |i: int| b[i] as char);
    assert forall|i: int| 0 <= i < cs.len() implies '\0' <= #[trigger] cs[i] <= '\u{7f}' by {
        let x = b[i];
        assert(x < 0x80);
        assert((x as char) as u32 == x as u32);
    }
    assert(is_ascii_chars(cs));
    is_ascii_chars_encode_utf8(cs);
    assert forall|i: int| 0 <= i < b.len() implies encode_utf8(cs)[i] == b[i] by {
        assert(cs[i] as u8 == encode_utf8(cs)[i]);
        let x = b[i];
        assert(((x as char) as u8) == x);
    }
    assert(encode_utf8(cs) =~= b);
    encode_utf8_valid_utf8(cs);
    is_char_boundary_start_end_of_seq(b);
    assert forall|i: int| 0 <= i <= b.len() implies #[trigger] is_char_boundary(b, i) by {
        if i < b.len() {
            is_char_boundary_iff_is_leading_byte(b, i);
        }
    }
    assert forall|i: int| 0 <= i < b.len() implies #[trigger] char_at(b, i) == Some(b[i] as char) && char_len_at(
        b,
        i,
    ) == 1 by {
        assert(is_char_boundary(b, i));
        assert(char_start(b, i) == i);
        assert(is_char_boundary(b, i + 1));
        assert(next_boundary(b, i + 1) == i + 1);
        let one = seq![b[i] as char];
        assert(is_ascii_chars(one)) by {
            assert((b[i] as char) as u32 == b[i] as u32);
        }
        is_ascii_chars_encode_utf8(one);
        assert(encode_utf8(one) =~= b.subrange(i, i + 1)) by {
            assert(one[0] as u8 == encode_utf8(one)[0]);
            assert(((b[i] as char) as u8) == b[i]);
        }
        encode_utf8_decode_utf8(one);
        assert(decode_utf8(b.subrange(i, i + 1)) == one);
        assert(((b[i] as char) as u32) < 0x80);
    }
}

/// In an ASCII text, the walk over a word and one step back ends on the last character of a
/// word whenever it ends on a word character.
proof fn lemma_skip_word_then_back_ends_a_word(b: Seq<u8>, s: int)
    requires
        all_ascii(b),
        0 <= s,
    ensures
        ({
            let r = skip_word_then_back(b, s);
            &&& (0 <= r < b.len() && word_at(b, r)) ==> (r + 1 == b.len() || !word_at(b, r + 1))
            &&& (0 < s && 0 <= r < b.len() && !word_at(b, r)) ==> (r + 1 < b.len() && !word_at(b, r + 1))
        }),
    decreases b.len() + 4 - s,
{
    lemma_ascii_chars(b);
    if s < b.len() {
        assert(char_len_at(b, s) == 1);
        if word_at(b, s) {
            lemma_skip_word_then_back_ends_a_word(b, s + 1);
        }
    }
}

/// In an ASCII text, a move to the back of the next word that lands on a word character lands
/// on the last character of its word: the character after it lies in no word, or the text
/// ends there. Where it lands inside the text on a character in no word, the character after
/// it is in none either (there was no word to reach). A word character is a letter, a digit or
/// `_`.
pub proof fn law_back_of_next_word_ends_a_word(b: Seq<u8>, p: int)
    requires
        all_ascii(b),
        0 <= p,
    ensures
        ({
            let r = back_of_next_word(b, p);
            &&& (0 <= r < b.len() && word_at(b, r)) ==> (r + 1 == b.len() || !word_at(b, r + 1))
            &&& (0 <= r < b.len() && !word_at(b, r)) ==> (r + 1 < b.len() && !word_at(b, r + 1))
        }),
{
    lemma_ascii_chars(b);
    lemma_char_len_at(b, p);
    let s1 = if 0 <= p < b.len() && !word_at(b, p) {
        p + char_len_at(b, p)
    } else {
        p
    };
    if s1 <= b.len() + 3 {
        lemma_scan_word_forward(b, s1);
    }
    lemma_scan_word_forward_after_a_gap(b, s1);
    lemma_skip_word_then_back_ends_a_word(b, scan_word_forward(b, s1));
}

/// In an ASCII text, the walk over a word and past the character after it ends just after a
/// character that lies in no word, or at or past the end of the text.
proof fn lemma_scan_word_forward_after_a_gap(b: Seq<u8>, s: int)
    requires
        all_ascii(b),
        0 <= s,
    ensures
        ({
            let r = scan_word_forward(b, s);
            &&& s <= r
            &&& s < b.len() ==> s < r
            &&& r < b.len() ==> 0 < r && !word_at(b, r - 1)
        }),
    decreases b.len() + 4 - s,
{
    lemma_ascii_chars(b);
    if s < b.len() {
        assert(char_len_at(b, s) == 1);
        if word_at(b, s) {
            lemma_scan_word_forward_after_a_gap(b, s + 1);
        }
    }
}

/// In an ASCII text, a move to the front of the next word from a byte of the text moves
/// forward, and where it stays inside the text it lands just after a character that lies in
/// no word: on the front of a word, or on the next character that is in none.
pub proof fn law_front_of_next_word_follows_a_gap(b: Seq<u8>, p: int)
    requires
        all_ascii(b),
        0 <= p < b.len(),
    ensures
        ({
            let r = front_of_next_word(b, p);
            &&& p < r
            &&& r < b.len() ==> !word_at(b, r - 1)
        }),
{
    lemma_ascii_chars(b);
    assert(char_start(b, p) == p);
    let s1 = if !word_at(b, p) {
        p + 1
    } else {
        p
    };
    lemma_scan_word_forward_after_a_gap(b, s1);
}

/// In an ASCII text, a move to the back of the next word from a byte of the text does not
/// move back.
pub proof fn law_back_of_next_word_moves_forward(b: Seq<u8>, p: int)
    requires
        all_ascii(b),
        0 <= p < b.len(),
    ensures
        p <= back_of_next_word(b, p),
{
    lemma_ascii_chars(b);
    let s1 = if !word_at(b, p) {
        p + 1
    } else {
        p
    };
    lemma_scan_word_forward_after_a_gap(b, s1);
    let s2 = scan_word_forward(b, s1);
    lemma_skip_word_then_back_bound(b, s2);
}

/// In an ASCII text, the walk over a word and one step back from `s` ends no earlier than one
/// byte before `s`.
proof fn lemma_skip_word_then_back_bound(b: Seq<u8>, s: int)
    requires
        all_ascii(b),
        0 <= s,
    ensures
        s - 1 <= skip_word_then_back(b, s),
    decreases b.len() + 4 - s,
{
    lemma_ascii_chars(b);
    if s < b.len() {
        assert(char_len_at(b, s) == 1);
        if word_at(b, s) {
            lemma_skip_word_then_back_bound(b, s + 1);
        }
    }
}

/// In an ASCII text, the walk back over a word and forward past the character before it
/// ends just after a character that lies in no word, or where it started outside the text.
proof fn lemma_back_to_word_start_after_a_gap(b: Seq<u8>, s: int)
    requires
        all_ascii(b),
        0 <= s,
        b.len() < usize::MAX,
        back_to_word_start(b, s) is Some,
    ensures
        ({
            let r = back_to_word_start(b, s)->0;
            &&& r <= s + 1
            &&& 0 < r < b.len() ==> !word_at(b, r - 1)
            &&& r < b.len() ==> 0 < r
        }),
    decreases s,
{
    lemma_ascii_chars(b);
    if s < b.len() {
        assert(char_len_at(b, s) == 1);
        if word_at(b, s) && s > 0 {
            lemma_back_to_word_start_after_a_gap(b, s - 1);
        }
    }
}

/// In an ASCII text, a move back to the previous word that lands inside the text lands on
/// the front of a word or on the character after one that is in no word: the character
/// before it lies in no word.
pub proof fn law_start_of_prev_word_follows_a_gap(b: Seq<u8>, p: int)
    requires
        all_ascii(b),
        0 <= p < b.len(),
        b.len() < usize::MAX,
        start_of_prev_word(b, p) is Some,
    ensures
        ({
            let r = start_of_prev_word(b, p)->0;
            0 < r < b.len() ==> !word_at(b, r - 1)
        }),
{
    lemma_ascii_chars(b);
    let s1 = if !word_at(b, p) {
        back_step(b, p)
    } else {
        p
    };
    lemma_scan_word_backward(b, s1);
    lemma_back_to_word_start_after_a_gap(b, scan_word_backward(b, s1)->0);
}

} // verus!
