use vstd::prelude::*;
use vstd::utf8::*;
use crate::file::str_eq;
use crate::pane_commands::{all_digits, digits_value};
use crate::style::Color;
use crate::styled::string_push;

verus! {

/// What `str::to_lowercase` gives for `s`: each character in its lowercase form, as the
/// Unicode `Lowercase` mapping has it.
pub uninterp spec fn lowercase(s: Seq<char>) -> Seq<char>;

/// The ASCII character `c` in lowercase: `A` to `Z` become `a` to `z`, the others stay.
pub open spec fn ascii_lower(c: char) -> char {
    if 'A' <= c && c <= 'Z' {
        ((c as u32) + 32) as char
    } else {
        c
    }
}

/// Calls `str::to_lowercase` of std.
/// Claimed: the result is the named lowercase form of `s`, and depends on `s` alone; a text of
/// ASCII characters has `A` to `Z` turned into `a` to `z` and keeps the rest.
#[verifier::external_body]
fn str_to_lowercase(s: &str) -> (r: String)
    ensures
        r@ == lowercase(s@),
        vstd::utf8::is_ascii_chars(s@) ==> r@ == s@.map_values(|c: char| ascii_lower(c)),
{
    s.to_lowercase()
}

/// Whether `c` is a space, a hyphen or an underscore.
pub open spec fn is_separator(c: char) -> bool {
    c == ' ' || c == '-' || c == '_'
}

/// `cs` without its spaces, hyphens and underscores.
pub open spec fn without_separators(cs: Seq<char>) -> Seq<char>
    decreases cs.len(),
{
    if cs.len() == 0 {
        Seq::empty()
    } else if is_separator(cs.last()) {
        without_separators(cs.drop_last())
    } else {
        without_separators(cs.drop_last()).push(cs.last())
    }
}

/// `s` without its spaces, hyphens and underscores.
fn remove_separators(s: &str) -> (r: String)
    ensures
        r@ == without_separators(s@),
{
    let n = s.unicode_len();
    let mut out = String::new();
    let mut i: usize = 0;
    while i < n
        invariant
            n == s@.len(),
            i <= n,
            out@ == without_separators(s@.take(i as int)),
        decreases n - i,
    {
        let c = s.get_char(i);
        assert(s@.take(i + 1).drop_last() =~= s@.take(i as int));
        if !(c == ' ' || c == '-' || c == '_') {
            string_push(&mut out, c);
        }
        i = i + 1;
    }
    assert(s@.take(n as int) =~= s@);
    out
}

/// `cs` with each match of `from`, found from the left without overlap, replaced by `to`,
/// as `str::replace` does for a pattern that is not empty.
pub open spec fn replaced(cs: Seq<char>, from: Seq<char>, to: Seq<char>) -> Seq<char>
    decreases cs.len(),
{
    if cs.len() == 0 || from.len() == 0 {
        cs
    } else if cs.len() >= from.len() && cs.take(from.len() as int) == from {
        to + replaced(cs.skip(from.len() as int), from, to)
    } else {
        seq![cs[0]] + replaced(cs.drop_first(), from, to)
    }
}

/// Whether `from` occurs in `s` at character `i`.
fn matches_at(s: &str, i: usize, from: &str) -> (b: bool)
    requires
        i <= s@.len(),
    ensures
        b == (s@.len() - i >= from@.len() && s@.skip(i as int).take(from@.len() as int) == from@),
{
    let n = s.unicode_len();
    let m = from.unicode_len();
    if n - i < m {
        return false;
    }
    let mut k: usize = 0;
    while k < m
        invariant
            n == s@.len(),
            m == from@.len(),
            i + m <= n,
            k <= m,
            forall|j: int| 0 <= j < k ==> s@[i + j] == from@[j],
        decreases m - k,
    {
        if s.get_char(i + k) != from.get_char(k) {
            assert(s@.skip(i as int).take(m as int)[k as int] != from@[k as int]);
            return false;
        }
        k = k + 1;
    }
    assert(s@.skip(i as int).take(m as int) =~= from@);
    true
}

/// `s` with each match of `from` replaced by `to`.
pub(crate) fn replace_all(s: &str, from: &str, to: &str) -> (r: String)
    requires
        from@.len() > 0,
    ensures
        r@ == replaced(s@, from@, to@),
{
    let n = s.unicode_len();
    let m = from.unicode_len();
    let mut out = String::new();
    let mut i: usize = 0;
    assert(s@.skip(0) =~= s@);
    while i < n
        invariant
            n == s@.len(),
            m == from@.len(),
            m > 0,
            i <= n,
            replaced(s@, from@, to@) == out@ + replaced(s@.skip(i as int), from@, to@),
        decreases n - i,
    {
        let ghost rest = s@.skip(i as int);
        if matches_at(s, i, from) {
            out.append(to);
            proof {
                assert(rest.skip(m as int) =~= s@.skip(i + m));
                assert(out@ + replaced(s@.skip(i + m), from@, to@) =~= (out@.subrange(0, out@.len() - to@.len())
                    + (to@ + replaced(rest.skip(m as int), from@, to@))));
            }
            i = i + m;
        } else {
            let c = s.get_char(i);
            let ghost before = out@;
            string_push(&mut out, c);
            proof {
                assert(rest[0] == c);
                assert(rest.drop_first() =~= s@.skip(i + 1));
                assert(out@ + replaced(s@.skip(i + 1), from@, to@) =~= before + (seq![c] + replaced(
                    rest.drop_first(),
                    from@,
                    to@,
                )));
            }
            i = i + 1;
        }
    }
    assert(s@.skip(n as int) =~= Seq::<char>::empty());
    assert(out@ + Seq::<char>::empty() =~= out@);
    out
}

/// The name that a color text is matched by: lowercased, without separators, with `bright`
/// read as `light`, `grey` and `silver` as `gray`, `lightblack` as `darkgray`, and
/// `lightwhite` and `lightgray` as `white`.
pub open spec fn normalized_color(s: Seq<char>) -> Seq<char> {
    let a = without_separators(lowercase(s));
    let b = replaced(a, "bright"@, "light"@);
    let c = replaced(b, "grey"@, "gray"@);
    let d = replaced(c, "silver"@, "gray"@);
    let e = replaced(d, "lightblack"@, "darkgray"@);
    let f = replaced(e, "lightwhite"@, "white"@);
    replaced(f, "lightgray"@, "white"@)
}

/// The color that a normalized name names.
pub open spec fn color_word(n: Seq<char>) -> Option<Color> {
    if n == "black"@ {
        Some(Color::Black)
    } else if n == "red"@ {
        Some(Color::Red)
    } else if n == "green"@ {
        Some(Color::Green)
    } else if n == "yellow"@ {
        Some(Color::Yellow)
    } else if n == "blue"@ {
        Some(Color::Blue)
    } else if n == "magenta"@ {
        Some(Color::Magenta)
    } else if n == "cyan"@ {
        Some(Color::Cyan)
    } else if n == "gray"@ {
        Some(Color::Gray)
    } else if n == "darkgray"@ {
        Some(Color::DarkGray)
    } else if n == "lightred"@ {
        Some(Color::LightRed)
    } else if n == "lightgreen"@ {
        Some(Color::LightGreen)
    } else if n == "lightyellow"@ {
        Some(Color::LightYellow)
    } else if n == "lightblue"@ {
        Some(Color::LightBlue)
    } else if n == "lightmagenta"@ {
        Some(Color::LightMagenta)
    } else if n == "lightcyan"@ {
        Some(Color::LightCyan)
    } else if n == "white"@ {
        Some(Color::White)
    } else {
        None
    }
}

/// The `u8` that `str::parse` reads from `s`: decimal digits after an optional `+`, whose
/// value is at most 255.
pub open spec fn parsed_u8(s: Seq<char>) -> Option<u8> {
    let ds = if s.len() > 0 && s[0] == '+' { s.drop_first() } else { s };
    if ds.len() > 0 && all_digits(ds) && digits_value(ds) <= 255 {
        Some(digits_value(ds) as u8)
    } else {
        None
    }
}

/// The value of a hexadecimal digit.
pub open spec fn hex_digit(c: char) -> Option<nat> {
    if '0' <= c <= '9' {
        Some((c as nat - '0' as nat) as nat)
    } else if 'a' <= c <= 'f' {
        Some((c as nat - 'a' as nat + 10) as nat)
    } else if 'A' <= c <= 'F' {
        Some((c as nat - 'A' as nat + 10) as nat)
    } else {
        None
    }
}

/// The `u8` that `u8::from_str_radix(x, 16)` reads from a text of one or two characters: a
/// hexadecimal digit after a `+`, or two hexadecimal digits.
pub open spec fn hex_byte(x: Seq<char>) -> Option<u8> {
    if x.len() == 2 && x[0] == '+' {
        match hex_digit(x[1]) {
            Some(d) => Some(d as u8),
            None => None,
        }
    } else if x.len() == 2 {
        match (hex_digit(x[0]), hex_digit(x[1])) {
            (Some(a), Some(b)) => Some((a * 16 + b) as u8),
            _ => None,
        }
    } else if x.len() == 1 {
        match hex_digit(x[0]) {
            Some(d) => Some(d as u8),
            None => None,
        }
    } else {
        None
    }
}

/// Whether every character of `cs` is ASCII.
pub open spec fn all_ascii(cs: Seq<char>) -> bool {
    is_ascii_chars(cs)
}

/// The color `#rrggbb` that `s` writes in hexadecimal: seven ASCII characters, a `#` and
/// three pairs of hexadecimal digits (a pair may also be a `+` and one digit).
pub open spec fn hex_color(s: Seq<char>) -> Option<Color> {
    if s.len() == 7 && s[0] == '#' && all_ascii(s) {
        match (hex_byte(s.subrange(1, 3)), hex_byte(s.subrange(3, 5)), hex_byte(s.subrange(5, 7))) {
            (Some(r), Some(g), Some(b)) => Some(Color::Rgb(r, g, b)),
            _ => None,
        }
    } else {
        None
    }
}

/// The color that `s` names, as `Color::from_str` reads it: a color name, else a palette
/// index, else a hexadecimal `#rrggbb`; nothing otherwise.
pub open spec fn color_from_text(s: Seq<char>) -> Option<Color> {
    match color_word(normalized_color(s)) {
        Some(c) => Some(c),
        None => match parsed_u8(s) {
            Some(i) => Some(Color::Indexed(i)),
            None => hex_color(s),
        },
    }
}

/// Whether reading `s` as a color goes through: a text of seven bytes that starts with `#`
/// and names no color and no index is cut at bytes 1, 3 and 5, which must be character
/// boundaries.
pub open spec fn color_text_ok(s: Seq<char>) -> bool {
    (color_word(normalized_color(s)) is None && parsed_u8(s) is None && encode_utf8(s).len() == 7 && s.len()
        > 0 && s[0] == '#') ==> (is_char_boundary(encode_utf8(s), 3) && is_char_boundary(encode_utf8(s), 5))
}

/// The color named `n`.
fn color_by_word(n: &str) -> (c: Option<Color>)
    ensures
        c == color_word(n@),
{
    if str_eq(n, "black") {
        Some(Color::Black)
    } else if str_eq(n, "red") {
        Some(Color::Red)
    } else if str_eq(n, "green") {
        Some(Color::Green)
    } else if str_eq(n, "yellow") {
        Some(Color::Yellow)
    } else if str_eq(n, "blue") {
        Some(Color::Blue)
    } else if str_eq(n, "magenta") {
        Some(Color::Magenta)
    } else if str_eq(n, "cyan") {
        Some(Color::Cyan)
    } else if str_eq(n, "gray") {
        Some(Color::Gray)
    } else if str_eq(n, "darkgray") {
        Some(Color::DarkGray)
    } else if str_eq(n, "lightred") {
        Some(Color::LightRed)
    } else if str_eq(n, "lightgreen") {
        Some(Color::LightGreen)
    } else if str_eq(n, "lightyellow") {
        Some(Color::LightYellow)
    } else if str_eq(n, "lightblue") {
        Some(Color::LightBlue)
    } else if str_eq(n, "lightmagenta") {
        Some(Color::LightMagenta)
    } else if str_eq(n, "lightcyan") {
        Some(Color::LightCyan)
    } else if str_eq(n, "white") {
        Some(Color::White)
    } else {
        None
    }
}


/// Reads a `u8` from `s` as `str::parse` does.
fn parse_u8(s: &str) -> (r: Option<u8>)
    ensures
        r == parsed_u8(s@),
{
    match crate::pane_commands::parse_usize(s) {
        Some(v) => if v <= 255 {
            Some(v as u8)
        } else {
            None
        },
        None => None,
    }
}

/// The value of a hexadecimal digit.
fn hex_digit_of(c: char) -> (d: Option<u8>)
    ensures
        match d {
            Some(v) => hex_digit(c) == Some(v as nat) && v < 16,
            None => hex_digit(c) is None,
        },
{
    if '0' <= c && c <= '9' {
        Some((c as u32 - '0' as u32) as u8)
    } else if 'a' <= c && c <= 'f' {
        Some((c as u32 - 'a' as u32 + 10) as u8)
    } else if 'A' <= c && c <= 'F' {
        Some((c as u32 - 'A' as u32 + 10) as u8)
    } else {
        None
    }
}

/// Reads the byte written by the two characters of `s` from `i`.
fn hex_pair(s: &str, i: usize) -> (r: Option<u8>)
    requires
        i + 2 <= s@.len(),
        i < 100,
    ensures
        r == hex_byte(s@.subrange(i as int, i + 2)),
{
    let a = s.get_char(i);
    let b = s.get_char(i + 1);
    let ghost x = s@.subrange(i as int, i + 2);
    assert(x[0] == a && x[1] == b);
    if a == '+' {
        match hex_digit_of(b) {
            Some(d) => Some(d),
            None => None,
        }
    } else {
        match (hex_digit_of(a), hex_digit_of(b)) {
            (Some(p), Some(q)) => Some(p * 16 + q),
            _ => None,
        }
    }
}

/// Whether every character of `s` is ASCII.
fn is_all_ascii(s: &str) -> (b: bool)
    ensures
        b == all_ascii(s@),
{
    let n = s.unicode_len();
    let mut i: usize = 0;
    while i < n
        invariant
            n == s@.len(),
            i <= n,
            forall|k: int| 0 <= k < i ==> '\0' <= #[trigger] s@[k] <= '\u{7f}',
        decreases n - i,
    {
        if s.get_char(i) > '\u{7f}' {
            return false;
        }
        i = i + 1;
    }
    true
}

/// The color that `s` names: a color name, else a palette index, else a hexadecimal
/// `#rrggbb`.
pub fn color_from_str(s: &str) -> (r: Result<Color, ()>)
    requires
        color_text_ok(s@),
    ensures
        match color_from_text(s@) {
            Some(c) => r == Ok::<Color, ()>(c),
            None => r is Err,
        },
{
    proof {
        reveal_strlit("bright");
        reveal_strlit("grey");
        reveal_strlit("silver");
        reveal_strlit("lightblack");
        reveal_strlit("lightwhite");
        reveal_strlit("lightgray");
    }
    let lower = str_to_lowercase(s);
    let a = remove_separators(lower.as_str());
    let b = replace_all(a.as_str(), "bright", "light");
    let c = replace_all(b.as_str(), "grey", "gray");
    let d = replace_all(c.as_str(), "silver", "gray");
    let e = replace_all(d.as_str(), "lightblack", "darkgray");
    let f = replace_all(e.as_str(), "lightwhite", "white");
    let g = replace_all(f.as_str(), "lightgray", "white");
    if let Some(color) = color_by_word(g.as_str()) {
        return Ok(color);
    }
    if let Some(i) = parse_u8(s) {
        return Ok(Color::Indexed(i));
    }
    let n = s.unicode_len();
    if !is_all_ascii(s) {
        return Err(());
    }
    proof {
        is_ascii_chars_encode_utf8(s@);
    }
    if n != 7 || s.get_char(0) != '#' {
        return Err(());
    }
    match (hex_pair(s, 1), hex_pair(s, 3), hex_pair(s, 5)) {
        (Some(r), Some(g), Some(b)) => Ok(Color::Rgb(r, g, b)),
        _ => Err(()),
    }
}

} // verus!
