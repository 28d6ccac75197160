use crop::Rope;
use vstd::prelude::*;
use vstd::string::StringSliceAdditionalSpecFns;
use vstd::utf8::*;

verus! {

#[verifier::external_type_specification]
#[verifier::external_body]
pub struct ExRope(Rope);

/// The bytes that a rope holds.
pub uninterp spec fn rope_bytes(r: Rope) -> Seq<u8>;

/// The number of line feeds in `b`.
pub open spec fn count_newlines(b: Seq<u8>) -> nat
    decreases b.len(),
{
    if b.len() == 0 {
        0
    } else {
        count_newlines(b.drop_last()) + if b.last() == 10u8 { 1nat } else { 0nat }
    }
}

/// The number of lines of a text: a final line feed does not start an empty line,
/// and the empty text has no line.
pub open spec fn line_count(b: Seq<u8>) -> nat {
    if b.len() == 0 {
        0
    } else if b.last() == 10u8 {
        count_newlines(b)
    } else {
        count_newlines(b) + 1
    }
}

/// The byte offset at which line `k` starts: just after the `k`-th line feed, or the end
/// of the text where there are fewer line feeds.
pub open spec fn line_start(b: Seq<u8>, k: nat) -> nat
    decreases b.len(),
{
    if k == 0 || b.len() == 0 {
        0
    } else if b[0] == 10u8 {
        1 + line_start(b.drop_first(), (k - 1) as nat)
    } else {
        1 + line_start(b.drop_first(), k)
    }
}

/// `s` without its final `\n` or `\r\n`.
pub open spec fn strip_line_break(s: Seq<u8>) -> Seq<u8> {
    if s.len() > 0 && s.last() == 10u8 {
        let t = s.drop_last();
        if t.len() > 0 && t.last() == 13u8 {
            t.drop_last()
        } else {
            t
        }
    } else {
        s
    }
}

/// The bytes of line `k` with its line break.
pub open spec fn raw_line_bytes(b: Seq<u8>, k: nat) -> Seq<u8> {
    b.subrange(line_start(b, k) as int, line_start(b, k + 1) as int)
}

/// The bytes of line `k` without its line break.
pub open spec fn line_bytes(b: Seq<u8>, k: nat) -> Seq<u8> {
    strip_line_break(raw_line_bytes(b, k))
}

/// A line starts no later than the next one.
pub proof fn lemma_line_start_mono(b: Seq<u8>, k: nat)
    ensures
        line_start(b, k) <= line_start(b, k + 1),
        line_start(b, k + 1) <= b.len(),
    decreases b.len(),
{
    if k == 0 || b.len() == 0 {
        if b.len() > 0 {
            lemma_line_start_bound(b.drop_first(), k);
            if b[0] == 10u8 {
            } else {
                lemma_line_start_bound(b.drop_first(), k + 1);
            }
        }
    } else {
        if b[0] == 10u8 {
            lemma_line_start_mono(b.drop_first(), (k - 1) as nat);
        } else {
            lemma_line_start_mono(b.drop_first(), k);
        }
    }
}

/// A line starts inside the text.
pub proof fn lemma_line_start_bound(b: Seq<u8>, k: nat)
    ensures
        line_start(b, k) <= b.len(),
    decreases b.len(),
{
    if k == 0 || b.len() == 0 {
    } else if b[0] == 10u8 {
        lemma_line_start_bound(b.drop_first(), (k - 1) as nat);
    } else {
        lemma_line_start_bound(b.drop_first(), k);
    }
}

/// Calls `Rope::from(&str)` of crop.
/// Claimed: the rope holds the UTF-8 bytes of `s`; a rope never holds more bytes than a `usize`
/// counts.
#[verifier::external_body]
pub fn rope_from_str(s: &str) -> (r: Rope)
    ensures
        rope_bytes(r) == s.spec_bytes(),
        rope_bytes(r).len() <= usize::MAX,
{
    Rope::from(s)
}

/// Calls `Rope::clone` of crop.
/// Claimed: the copy holds the same bytes; a rope never holds more bytes than a `usize` counts.
#[verifier::external_body]
pub fn rope_clone(r: &Rope) -> (c: Rope)
    ensures
        rope_bytes(c) == rope_bytes(*r),
        rope_bytes(c).len() <= usize::MAX,
{
    r.clone()
}

/// Calls `Rope::eq` of crop.
/// Claimed: two ropes are equal exactly when they hold the same bytes.
#[verifier::external_body]
pub fn rope_eq(a: &Rope, b: &Rope) -> (e: bool)
    ensures
        e == (rope_bytes(*a) == rope_bytes(*b)),
{
    a == b
}

/// Calls `Rope::byte_len` of crop.
/// Claimed: the number of bytes of the rope.
#[verifier::external_body]
pub fn rope_byte_len(r: &Rope) -> (n: usize)
    ensures
        n == rope_bytes(*r).len(),
{
    r.byte_len()
}

/// Calls `Rope::byte` of crop, which panics past the end.
/// Claimed: the byte at index `i`.
#[verifier::external_body]
pub fn rope_byte(r: &Rope, i: usize) -> (b: u8)
    requires
        i < rope_bytes(*r).len(),
    ensures
        b == rope_bytes(*r)[i as int],
{
    r.byte(i)
}

/// Calls `Rope::is_char_boundary` of crop, which panics past the end.
/// Claimed: whether a character's encoding starts at `i` (or `i` is the end).
#[verifier::external_body]
pub fn rope_is_char_boundary(r: &Rope, i: usize) -> (b: bool)
    requires
        i <= rope_bytes(*r).len(),
    ensures
        b == is_char_boundary(rope_bytes(*r), i as int),
{
    r.is_char_boundary(i)
}

/// Calls `Rope::raw_lines` of crop and counts the lines it yields.
/// Claimed: the number of lines, where a final line feed starts no empty line.
#[verifier::external_body]
pub fn rope_line_count(r: &Rope) -> (n: usize)
    ensures
        n == line_count(rope_bytes(*r)),
{
    r.raw_lines().count()
}

/// Calls `Rope::line_of_byte` of crop, which panics past the end.
/// Claimed: the number of line feeds before byte `i`.
#[verifier::external_body]
pub fn rope_line_of_byte(r: &Rope, i: usize) -> (n: usize)
    requires
        i <= rope_bytes(*r).len(),
    ensures
        n == count_newlines(rope_bytes(*r).take(i as int)),
{
    r.line_of_byte(i)
}

/// Calls `Rope::byte_of_line` of crop, which panics past the last line.
/// Claimed: the byte offset at which line `k` starts.
#[verifier::external_body]
pub fn rope_byte_of_line(r: &Rope, k: usize) -> (n: usize)
    requires
        k <= line_count(rope_bytes(*r)),
    ensures
        n == line_start(rope_bytes(*r), k as nat),
{
    r.byte_of_line(k)
}

/// Calls `Rope::line` of crop and turns the slice into a `String`.
/// Claimed: the UTF-8 bytes of the result are those of line `k` without its line break.
#[verifier::external_body]
pub fn rope_line_string(r: &Rope, k: usize) -> (s: String)
    requires
        k < line_count(rope_bytes(*r)),
    ensures
        encode_utf8(s@) == line_bytes(rope_bytes(*r), k as nat),
{
    r.line(k).to_string()
}

/// Calls `Rope::byte_slice` of crop and turns the slice into a `String`; crop panics unless
/// both ends are character boundaries in order.
/// Claimed: the UTF-8 bytes of the result are the bytes in `start..end`.
#[verifier::external_body]
pub fn rope_slice_string(r: &Rope, start: usize, end: usize) -> (s: String)
    requires
        start <= end <= rope_bytes(*r).len(),
        is_char_boundary(rope_bytes(*r), start as int),
        is_char_boundary(rope_bytes(*r), end as int),
    ensures
        encode_utf8(s@) == rope_bytes(*r).subrange(start as int, end as int),
{
    r.byte_slice(start..end).to_string()
}

/// Calls `Rope::byte_slice` of crop and takes the first character of the slice; crop panics
/// unless both ends are character boundaries in order.
/// Claimed: the first character decoded from the bytes in `start..end`.
#[verifier::external_body]
pub fn rope_first_char(r: &Rope, start: usize, end: usize) -> (c: char)
    requires
        start < end <= rope_bytes(*r).len(),
        is_char_boundary(rope_bytes(*r), start as int),
        is_char_boundary(rope_bytes(*r), end as int),
    ensures
        c == decode_utf8(rope_bytes(*r).subrange(start as int, end as int))[0],
{
    r.byte_slice(start..end).chars().next().unwrap()
}

/// Calls the `Display` of a crop rope through `to_string`.
/// Claimed: the UTF-8 bytes of the result are the bytes of the rope.
#[verifier::external_body]
pub fn rope_to_string(r: &Rope) -> (s: String)
    ensures
        encode_utf8(s@) == rope_bytes(*r),
{
    r.to_string()
}

/// Calls `Rope::replace` of crop, which panics unless both ends are character boundaries in
/// order.
/// Claimed: the bytes in `start..end` give way to the UTF-8 bytes of `text`; the length still
/// fits a `usize`.
#[verifier::external_body]
pub fn rope_replace(r: &mut Rope, start: usize, end: usize, text: &str)
    requires
        start <= end <= rope_bytes(*old(r)).len(),
        is_char_boundary(rope_bytes(*old(r)), start as int),
        is_char_boundary(rope_bytes(*old(r)), end as int),
    ensures
        rope_bytes(*final(r)) == rope_bytes(*old(r)).take(start as int) + text.spec_bytes()
            + rope_bytes(*old(r)).skip(end as int),
        rope_bytes(*final(r)).len() <= usize::MAX,
{
    r.replace(start..end, text)
}

/// Calls `Rope::delete` of crop, which panics unless both ends are character boundaries in
/// order.
/// Claimed: the bytes in `start..end` are removed, and the rest is kept.
#[verifier::external_body]
pub fn rope_delete(r: &mut Rope, start: usize, end: usize)
    requires
        start <= end <= rope_bytes(*old(r)).len(),
        is_char_boundary(rope_bytes(*old(r)), start as int),
        is_char_boundary(rope_bytes(*old(r)), end as int),
    ensures
        rope_bytes(*final(r)) == rope_bytes(*old(r)).take(start as int) + rope_bytes(
            *old(r),
        ).skip(end as int),
        rope_bytes(*final(r)).len() <= usize::MAX,
{
    r.delete(start..end)
}

/// Calls `Rope::chars` of crop and counts the characters.
/// Claimed: the number of characters that the bytes of the rope decode to.
#[verifier::external_body]
pub fn rope_char_count(r: &Rope) -> (n: usize)
    ensures
        n == decode_utf8(rope_bytes(*r)).len(),
{
    r.chars().count()
}

/// Calls `Rope::chars` of crop and takes the `n`-th character.
/// Claimed: the `n`-th character that the bytes of the rope decode to, or `None` past the end.
#[verifier::external_body]
pub fn rope_nth_char(r: &Rope, n: usize) -> (c: Option<char>)
    ensures
        c == if n < decode_utf8(rope_bytes(*r)).len() {
            Some(decode_utf8(rope_bytes(*r))[n as int])
        } else {
            None
        },
{
    r.chars().nth(n)
}

/// Calls `Rope::line_slice` of crop for the one line `k` and turns the slice into a `String`.
/// Claimed: the UTF-8 bytes of the result are those of line `k` with its line break.
#[verifier::external_body]
pub fn rope_line_slice_string(r: &Rope, k: usize) -> (s: String)
    requires
        k < line_count(rope_bytes(*r)),
    ensures
        encode_utf8(s@) == raw_line_bytes(rope_bytes(*r), k as nat),
{
    r.line_slice(k..k + 1).to_string()
}

/// Calls `Rope::line` of crop and collects the first `x` characters of line `k`.
/// Claimed: the characters are the first `x` that the bytes of line `k`, without its line
/// break, decode to (all of them where there are fewer).
#[verifier::external_body]
pub fn rope_line_prefix(r: &Rope, k: usize, x: usize) -> (s: String)
    requires
        k < line_count(rope_bytes(*r)),
    ensures
        s@ == decode_utf8(line_bytes(rope_bytes(*r), k as nat)).take(
            if x <= decode_utf8(line_bytes(rope_bytes(*r), k as nat)).len() {
                x as int
            } else {
                decode_utf8(line_bytes(rope_bytes(*r), k as nat)).len() as int
            },
        ),
{
    r.line(k).chars().take(x).collect::<String>()
}

} // verus!
