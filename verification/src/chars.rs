use vstd::prelude::*;

verus! {

/// What `char::is_alphanumeric` answers for a character: whether it has the Unicode
/// `Alphabetic` property or is a numeric character.
pub uninterp spec fn spec_is_alphanumeric(c: char) -> bool;

/// Whether `c` belongs to a word: an alphanumeric character or an underscore.
pub open spec fn is_word_char(c: char) -> bool {
    spec_is_alphanumeric(c) || c == '_'
}

/// Calls `char::is_alphanumeric` of std.
/// Claimed: the answer is the named property of `c`, and depends on `c` alone; among the
/// ASCII characters exactly the letters and the digits are alphanumeric.
#[verifier::external_body]
pub fn char_is_alphanumeric(c: char) -> (b: bool)
    ensures
        b == spec_is_alphanumeric(c),
        (c as u32) < 128 ==> (b <==> (('a' <= c && c <= 'z') || ('A' <= c && c <= 'Z') || ('0' <= c && c
            <= '9'))),
{
    c.is_alphanumeric()
}

/// Whether `c` belongs to a word: an alphanumeric character or an underscore.
pub fn is_word(c: char) -> (b: bool)
    ensures
        b == is_word_char(c),
{
    char_is_alphanumeric(c) || c == '_'
}

/// The number of bytes of the UTF-8 encoding of `c`.
pub open spec fn spec_len_utf8(c: char) -> nat {
    if (c as u32) < 0x80 {
        1
    } else if (c as u32) < 0x800 {
        2
    } else if (c as u32) < 0x10000 {
        3
    } else {
        4
    }
}

/// The number of bytes of the UTF-8 encoding of `c`.
pub fn len_utf8(c: char) -> (n: usize)
    ensures
        n == spec_len_utf8(c),
        1 <= n <= 4,
{
    let u = c as u32;
    if u < 0x80 {
        1
    } else if u < 0x800 {
        2
    } else if u < 0x10000 {
        3
    } else {
        4
    }
}

} // verus!
