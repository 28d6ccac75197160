use vstd::prelude::*;
use vstd::utf8::*;
use crate::buffer::{str_byte_len, string_bytes};
use crate::file::str_eq;
use crate::words::next_boundary;
use crate::styled::string_push;
use vstd::string::StrSliceExecFns;

verus! {

/// Calls `String::insert` of std, which panics unless `idx` lies on a character boundary of
/// the text. Claimed: the encoding of `c` is put at byte `idx`, the rest of the text kept.
#[verifier::external_body]
pub(crate) fn string_insert(s: &mut String, idx: usize, c: char)
    requires
        is_char_boundary(string_bytes(*old(s)), idx as int),
    ensures
        string_bytes(*final(s)) == string_bytes(*old(s)).take(idx as int) + encode_utf8(seq![c])
            + string_bytes(*old(s)).skip(idx as int),
{
    s.insert(idx, c)
}

/// `b` without the character whose encoding starts at byte `i`.
pub open spec fn remove_at(b: Seq<u8>, i: int) -> Seq<u8> {
    b.take(i) + b.skip(next_boundary(b, i + 1))
}

/// Calls `String::remove` of std, which panics unless `idx` lies on a character boundary
/// before the end of the text. Claimed: the character that starts at byte `idx` is taken
/// out, the rest of the text kept.
#[verifier::external_body]
pub(crate) fn string_remove(s: &mut String, idx: usize)
    requires
        idx < string_bytes(*old(s)).len(),
        is_char_boundary(string_bytes(*old(s)), idx as int),
    ensures
        string_bytes(*final(s)) == remove_at(string_bytes(*old(s)), idx as int),
{
    s.remove(idx);
}

/// What the line editing command `name` does to the text with the bytes `b` and the place of
/// editing `p`, a byte offset: `left` and `right` move one byte (not before the start, nor
/// past the end), `up` and `down` go to the start and the end, `backspace` takes out the
/// character before the place and `delete` the one at it. Other commands change nothing.
pub open spec fn line_edit(name: Seq<char>, b: Seq<u8>, p: int) -> (Seq<u8>, int) {
    if name == "left"@ {
        (b, if p > 0 { p - 1 } else { 0 })
    } else if name == "right"@ {
        (b, if p < b.len() { p + 1 } else { p })
    } else if name == "up"@ {
        (b, 0)
    } else if name == "down"@ {
        (b, b.len() as int)
    } else if name == "backspace"@ {
        if p > 0 {
            (remove_at(b, p - 1), p - 1)
        } else {
            (b, p)
        }
    } else if name == "delete"@ {
        if p < b.len() {
            (remove_at(b, p), p)
        } else {
            (b, p)
        }
    } else {
        (b, p)
    }
}

/// Whether the line editing command `name` can be done: a character is taken out only where
/// one starts.
pub open spec fn line_edit_ok(name: Seq<char>, b: Seq<u8>, p: int) -> bool {
    &&& (name == "backspace"@ && p > 0) ==> (p - 1 < b.len() && is_char_boundary(b, p - 1))
    &&& (name == "delete"@ && p < b.len()) ==> is_char_boundary(b, p)
}

/// Does the line editing command `name` on `text` at the place `pos`.
pub fn edit_line(name: &str, text: &mut String, pos: &mut usize)
    requires
        line_edit_ok(name@, string_bytes(*old(text)), *old(pos) as int),
    ensures
        (string_bytes(*final(text)), *final(pos) as int) == line_edit(
            name@,
            string_bytes(*old(text)),
            *old(pos) as int,
        ),
{
    let n = str_byte_len(text.as_str());
    if str_eq(name, "left") {
        if *pos > 0 {
            *pos = *pos - 1;
        }
    } else if str_eq(name, "right") {
        if *pos < n {
            *pos = *pos + 1;
        }
    } else if str_eq(name, "up") {
        *pos = 0;
    } else if str_eq(name, "down") {
        *pos = n;
    } else if str_eq(name, "backspace") {
        if *pos > 0 {
            *pos = *pos - 1;
            string_remove(text, *pos);
        }
    } else if str_eq(name, "delete") {
        if *pos < n {
            string_remove(text, *pos);
        }
    }
}

/// Puts `c` into `text` at the place `pos` and moves the place one byte on.
pub fn insert_at(text: &mut String, pos: &mut usize, c: char)
    requires
        is_char_boundary(string_bytes(*old(text)), *old(pos) as int),
    ensures
        string_bytes(*final(text)) == string_bytes(*old(text)).take(*old(pos) as int) + encode_utf8(
            seq![c],
        ) + string_bytes(*old(text)).skip(*old(pos) as int),
        *final(pos) == *old(pos) + 1,
{
    string_insert(text, *pos, c);
    let n = str_byte_len(text.as_str());
    proof {
        let b = string_bytes(*old(text));
        encode_utf8_valid_utf8(old(text)@);
        assert(0 <= *old(pos) <= b.len()) by {
            if *old(pos) > b.len() {
                assert(!is_char_boundary(b, *old(pos) as int));
            }
        }
        assert(encode_utf8(seq![c]).len() >= 1) by {
            assert(encode_utf8(seq![c]) == encode_scalar(c as u32) + encode_utf8(seq![c].drop_first()));
        }
    }
    *pos = *pos + 1;
}

/// The characters of `line` from the `n`-th on; none where the line has no more than `n`.
pub fn chars_from(line: &str, n: usize) -> (s: String)
    ensures
        s@ == (if n <= line@.len() {
            line@.skip(n as int)
        } else {
            Seq::<char>::empty()
        }),
{
    let len = line.unicode_len();
    let mut s = String::new();
    if n >= len {
        proof {
            assert(line@.skip(len as int) =~= Seq::<char>::empty());
        }
        return s;
    }
    let mut k: usize = n;
    while k < len
        invariant
            n <= k <= len,
            len == line@.len(),
            s@ == line@.subrange(n as int, k as int),
        decreases len - k,
    {
        let c = line.get_char(k);
        string_push(&mut s, c);
        k = k + 1;
        proof {
            assert(s@ =~= line@.subrange(n as int, k as int));
        }
    }
    proof {
        assert(s@ =~= line@.skip(n as int));
    }
    s
}

/// The first `n` characters of `line`; all of them where it has fewer.
pub fn chars_until(line: &str, n: usize) -> (s: String)
    ensures
        s@ == line@.take(if n <= line@.len() {
            n as int
        } else {
            line@.len() as int
        }),
{
    let len = line.unicode_len();
    let end = if n <= len {
        n
    } else {
        len
    };
    let mut s = String::new();
    let mut k: usize = 0;
    while k < end
        invariant
            k <= end <= len,
            len == line@.len(),
            s@ == line@.take(k as int),
        decreases end - k,
    {
        let c = line.get_char(k);
        string_push(&mut s, c);
        k = k + 1;
        proof {
            assert(s@ =~= line@.take(k as int));
        }
    }
    s
}

} // verus!
