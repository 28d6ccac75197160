use vstd::prelude::*;
use vstd::string::StringExecFns;
use crate::config::{int_of, lookup, ConfigValue};
use crate::file::str_eq;
use crate::style::{color_config, flag_bit, flag_name, plain_style, set_names, Color, Modifier, Style};

verus! {

/// How reading a value of a configuration file ends: `None` where the reader gives up on
/// the file altogether, else the value read or the message of the error.
pub type Outcome<T> = Option<Result<T, Seq<char>>>;

/// Whether `r`, as a reader returns it, is the outcome `o`.
pub open spec fn same_outcome<T>(r: Option<Result<T, String>>, o: Option<Result<T, Seq<char>>>) -> bool {
    match (r, o) {
        (None, None) => true,
        (Some(Ok(a)), Some(Ok(b))) => a == b,
        (Some(Err(e)), Some(Err(f))) => e@ == f,
        _ => false,
    }
}

/// The color that a configuration file names `s`.
pub open spec fn color_named(s: Seq<char>) -> Option<Color> {
    if s == "reset"@ {
        Some(Color::Reset)
    } else if s == "black"@ {
        Some(Color::Black)
    } else if s == "red"@ {
        Some(Color::Red)
    } else if s == "green"@ {
        Some(Color::Green)
    } else if s == "yellow"@ {
        Some(Color::Yellow)
    } else if s == "blue"@ {
        Some(Color::Blue)
    } else if s == "magenta"@ {
        Some(Color::Magenta)
    } else if s == "cyan"@ {
        Some(Color::Cyan)
    } else if s == "white"@ {
        Some(Color::White)
    } else if s == "dark-grey"@ {
        Some(Color::DarkGray)
    } else if s == "light-red"@ {
        Some(Color::LightRed)
    } else if s == "light-green"@ {
        Some(Color::LightGreen)
    } else if s == "light-yellow"@ {
        Some(Color::LightYellow)
    } else if s == "light-blue"@ {
        Some(Color::LightBlue)
    } else if s == "light-magenta"@ {
        Some(Color::LightMagenta)
    } else if s == "light-cyan"@ {
        Some(Color::LightCyan)
    } else if s == "grey"@ {
        Some(Color::Gray)
    } else {
        None
    }
}

/// How a color value is read: a name, three integers taken modulo 256 as red, green and
/// blue, or an integer taken modulo 256 as a palette index. An unknown name, or a list of
/// three that holds something other than integers, makes the reader give up.
pub open spec fn color_outcome(v: ConfigValue) -> Outcome<Color> {
    match v {
        ConfigValue::String(s) => match color_named(s@) {
            Some(c) => Some(Ok(c)),
            None => None,
        },
        ConfigValue::Array(a) => if a@.len() != 3 {
            Some(Err("color array was not of length 3"@))
        } else if a@[0] is Integer && a@[1] is Integer && a@[2] is Integer {
            Some(
                Ok(
                    Color::Rgb(
                        int_of(a@[0])->0 as u8,
                        int_of(a@[1])->0 as u8,
                        int_of(a@[2])->0 as u8,
                    ),
                ),
            )
        } else {
            None
        },
        ConfigValue::Integer(i) => Some(Ok(Color::Indexed(i as u8))),
        _ => Some(Err("color was not a string or array"@)),
    }
}

/// The color named `s`.
fn color_by_name(s: &str) -> (c: Option<Color>)
    ensures
        c == color_named(s@),
{
    if str_eq(s, "reset") {
        Some(Color::Reset)
    } else if str_eq(s, "black") {
        Some(Color::Black)
    } else if str_eq(s, "red") {
        Some(Color::Red)
    } else if str_eq(s, "green") {
        Some(Color::Green)
    } else if str_eq(s, "yellow") {
        Some(Color::Yellow)
    } else if str_eq(s, "blue") {
        Some(Color::Blue)
    } else if str_eq(s, "magenta") {
        Some(Color::Magenta)
    } else if str_eq(s, "cyan") {
        Some(Color::Cyan)
    } else if str_eq(s, "white") {
        Some(Color::White)
    } else if str_eq(s, "dark-grey") {
        Some(Color::DarkGray)
    } else if str_eq(s, "light-red") {
        Some(Color::LightRed)
    } else if str_eq(s, "light-green") {
        Some(Color::LightGreen)
    } else if str_eq(s, "light-yellow") {
        Some(Color::LightYellow)
    } else if str_eq(s, "light-blue") {
        Some(Color::LightBlue)
    } else if str_eq(s, "light-magenta") {
        Some(Color::LightMagenta)
    } else if str_eq(s, "light-cyan") {
        Some(Color::LightCyan)
    } else if str_eq(s, "grey") {
        Some(Color::Gray)
    } else {
        None
    }
}

/// Reads a color value; `None` where the value makes the reader give up.
pub fn try_parse_color(value: &ConfigValue) -> (r: Option<Result<Color, String>>)
    ensures
        same_outcome(r, color_outcome(*value)),
{
    match value {
        ConfigValue::String(s) => match color_by_name(s.as_str()) {
            Some(c) => Some(Ok(c)),
            None => None,
        },
        ConfigValue::Array(a) => {
            if a.len() != 3 {
                return Some(Err(String::from_str("color array was not of length 3")));
            }
            match (a[0].as_integer(), a[1].as_integer(), a[2].as_integer()) {
                (Some(r), Some(g), Some(b)) => Some(
                    Ok(
                        Color::Rgb(
                            #[verifier::truncate]
                            (r as u8),
                            #[verifier::truncate]
                            (g as u8),
                            #[verifier::truncate]
                            (b as u8),
                        ),
                    ),
                ),
                _ => None,
            }
        },
        ConfigValue::Integer(i) => Some(Ok(Color::Indexed(#[verifier::truncate] (*i as u8)))),
        _ => Some(Err(String::from_str("color was not a string or array"))),
    }
}

/// Reads a color value that does not make the reader give up.
pub fn parse_color(value: &ConfigValue) -> (r: Result<Color, String>)
    requires
        color_outcome(*value) is Some,
    ensures
        same_outcome(Some(r), color_outcome(*value)),
{
    match try_parse_color(value) {
        Some(r) => r,
        None => Err(String::new()),
    }
}

/// The bit of the modifier that a configuration file names `s`.
pub open spec fn modifier_named(s: Seq<char>) -> Option<u16> {
    if s == "bold"@ {
        Some(1u16)
    } else if s == "dim"@ {
        Some(2u16)
    } else if s == "italic"@ {
        Some(4u16)
    } else if s == "underline"@ {
        Some(8u16)
    } else if s == "slow_blink"@ {
        Some(16u16)
    } else if s == "rapid_blink"@ {
        Some(32u16)
    } else if s == "reversed"@ {
        Some(64u16)
    } else if s == "hidden"@ {
        Some(128u16)
    } else if s == "crossed_out"@ {
        Some(256u16)
    } else {
        None
    }
}

/// How the rest `vs` of a list of modifiers is read, with the bits `acc` read so far: each
/// name adds its bit; the first value that is no text ends it with an error, and a name
/// that is no modifier before that makes the reader give up.
pub open spec fn modifier_scan(vs: Seq<ConfigValue>, acc: u16) -> Outcome<Modifier>
    decreases vs.len(),
{
    if vs.len() == 0 {
        Some(Ok(Modifier { bits: acc }))
    } else {
        match vs[0] {
            ConfigValue::String(s) => match modifier_named(s@) {
                Some(bit) => modifier_scan(vs.drop_first(), acc | bit),
                None => None,
            },
            _ => Some(Err("modifier was not a string"@)),
        }
    }
}

/// How a modifiers value is read: a list of modifier names.
pub open spec fn modifier_outcome(v: ConfigValue) -> Outcome<Modifier> {
    match v {
        ConfigValue::Array(a) => modifier_scan(a@, 0),
        _ => Some(Err("modifier was not an array"@)),
    }
}

/// The bit of the modifier named `s`.
fn modifier_by_name(s: &str) -> (b: Option<u16>)
    ensures
        b == modifier_named(s@),
{
    if str_eq(s, "bold") {
        Some(1)
    } else if str_eq(s, "dim") {
        Some(2)
    } else if str_eq(s, "italic") {
        Some(4)
    } else if str_eq(s, "underline") {
        Some(8)
    } else if str_eq(s, "slow_blink") {
        Some(16)
    } else if str_eq(s, "rapid_blink") {
        Some(32)
    } else if str_eq(s, "reversed") {
        Some(64)
    } else if str_eq(s, "hidden") {
        Some(128)
    } else if str_eq(s, "crossed_out") {
        Some(256)
    } else {
        None
    }
}

/// Reads a modifiers value; `None` where the value makes the reader give up.
pub fn try_parse_modifier(list: &ConfigValue) -> (r: Option<Result<Modifier, String>>)
    ensures
        same_outcome(r, modifier_outcome(*list)),
{
    match list {
        ConfigValue::Array(a) => {
            let mut modifier = Modifier::empty();
            let mut i: usize = 0;
            assert(a@.skip(0) =~= a@);
            while i < a.len()
                invariant
                    i <= a@.len(),
                    modifier_outcome(*list) == modifier_scan(a@, 0),
                    modifier_scan(a@, 0) == modifier_scan(a@.skip(i as int), modifier.bits),
                decreases a.len() - i,
            {
                assert(a@.skip(i as int)[0] == a@[i as int]);
                assert(a@.skip(i as int).drop_first() =~= a@.skip(i + 1));
                match a[i].as_str() {
                    Some(s) => match modifier_by_name(s) {
                        Some(bit) => {
                            modifier = modifier.union(Modifier { bits: bit });
                        },
                        None => {
                            return None;
                        },
                    },
                    None => {
                        return Some(Err(String::from_str("modifier was not a string")));
                    },
                }
                i = i + 1;
            }
            Some(Ok(modifier))
        },
        _ => Some(Err(String::from_str("modifier was not an array"))),
    }
}

/// Reads a modifiers value that does not make the reader give up.
pub fn parse_modifier(list: &ConfigValue) -> (r: Result<Modifier, String>)
    requires
        modifier_outcome(*list) is Some,
    ensures
        same_outcome(Some(r), modifier_outcome(*list)),
{
    match try_parse_modifier(list) {
        Some(r) => r,
        None => Err(String::new()),
    }
}

/// `s` with the color `c` in the place `which`: 0 the foreground, 1 the background, else
/// the underline.
pub open spec fn set_color(s: Style, which: int, c: Color) -> Style {
    if which == 0 {
        Style { fg: Some(c), ..s }
    } else if which == 1 {
        Style { bg: Some(c), ..s }
    } else {
        Style { underline_color: Some(c), ..s }
    }
}

/// The reading `o` of a style, followed by the color value `entry`, if there is one, put in
/// the place `which`.
pub open spec fn color_step(o: Outcome<Style>, entry: Option<ConfigValue>, which: int) -> Outcome<Style> {
    match o {
        Some(Ok(s)) => match entry {
            None => Some(Ok(s)),
            Some(v) => match color_outcome(v) {
                Some(Ok(c)) => Some(Ok(set_color(s, which, c))),
                Some(Err(e)) => Some(Err(e)),
                None => None,
            },
        },
        _ => o,
    }
}

/// The reading `o` of a style, followed by the modifiers value `entry`, if there is one,
/// whose modifiers the style adds.
pub open spec fn modifier_step(o: Outcome<Style>, entry: Option<ConfigValue>) -> Outcome<Style> {
    match o {
        Some(Ok(s)) => match entry {
            None => Some(Ok(s)),
            Some(v) => match modifier_outcome(v) {
                Some(Ok(m)) => Some(
                    Ok(
                        Style {
                            add_modifier: Modifier { bits: s.add_modifier.bits | m.bits },
                            sub_modifier: Modifier { bits: s.sub_modifier.bits & !m.bits },
                            ..s
                        },
                    ),
                ),
                Some(Err(e)) => Some(Err(e)),
                None => None,
            },
        },
        _ => o,
    }
}

/// How a style value is read: a table whose `fg`, `bg` and `underline_color` are colors and
/// whose `modifiers` the style adds, read in that order up to the first error.
pub open spec fn style_outcome(v: ConfigValue) -> Outcome<Style> {
    if v is Table {
        modifier_step(
            color_step(
                color_step(
                    color_step(Some(Ok(plain_style())), lookup(v, "fg"@), 0),
                    lookup(v, "bg"@),
                    1,
                ),
                lookup(v, "underline_color"@),
                2,
            ),
            lookup(v, "modifiers"@),
        )
    } else {
        Some(Err("style was not a table"@))
    }
}

/// Reads a style value; `None` where the value makes the reader give up.
pub fn try_parse_style(table: &ConfigValue) -> (r: Option<Result<Style, String>>)
    ensures
        same_outcome(r, style_outcome(*table)),
{
    if !table.is_table() {
        return Some(Err(String::from_str("style was not a table")));
    }
    let mut style = Style::new();
    let ghost o0: Outcome<Style> = Some(Ok(plain_style()));
    match table.get("fg") {
        Some(v) => match try_parse_color(v) {
            Some(Ok(c)) => {
                style = style.fg(c);
            },
            Some(Err(e)) => {
                return Some(Err(e));
            },
            None => {
                return None;
            },
        },
        None => {},
    }
    let ghost o1 = color_step(o0, lookup(*table, "fg"@), 0);
    assert(o1 == Some(Ok::<Style, Seq<char>>(style)));
    match table.get("bg") {
        Some(v) => match try_parse_color(v) {
            Some(Ok(c)) => {
                style = style.bg(c);
            },
            Some(Err(e)) => {
                return Some(Err(e));
            },
            None => {
                return None;
            },
        },
        None => {},
    }
    let ghost o2 = color_step(o1, lookup(*table, "bg"@), 1);
    assert(o2 == Some(Ok::<Style, Seq<char>>(style)));
    match table.get("underline_color") {
        Some(v) => match try_parse_color(v) {
            Some(Ok(c)) => {
                style = style.underline_color(c);
            },
            Some(Err(e)) => {
                return Some(Err(e));
            },
            None => {
                return None;
            },
        },
        None => {},
    }
    let ghost o3 = color_step(o2, lookup(*table, "underline_color"@), 2);
    assert(o3 == Some(Ok::<Style, Seq<char>>(style)));
    match table.get("modifiers") {
        Some(v) => match try_parse_modifier(v) {
            Some(Ok(m)) => {
                style = style.add_modifier(m);
            },
            Some(Err(e)) => {
                return Some(Err(e));
            },
            None => {
                return None;
            },
        },
        None => {},
    }
    Some(Ok(style))
}

/// Reads a style value that does not make the reader give up.
pub fn parse_style(table: &ConfigValue) -> (r: Result<Style, String>)
    requires
        style_outcome(*table) is Some,
    ensures
        same_outcome(Some(r), style_outcome(*table)),
{
    match try_parse_style(table) {
        Some(r) => r,
        None => Err(String::new()),
    }
}


/// The name that a configuration file gives a named color, without its quotes.
pub open spec fn written_color_name(c: Color) -> Option<Seq<char>> {
    match c {
        Color::Reset => Some("reset"@),
        Color::Black => Some("black"@),
        Color::Red => Some("red"@),
        Color::Green => Some("green"@),
        Color::Yellow => Some("yellow"@),
        Color::Blue => Some("blue"@),
        Color::Magenta => Some("magenta"@),
        Color::Cyan => Some("cyan"@),
        Color::Gray => Some("gray"@),
        Color::DarkGray => Some("dark-gray"@),
        Color::LightRed => Some("light-red"@),
        Color::LightGreen => Some("light-green"@),
        Color::LightYellow => Some("light-yellow"@),
        Color::LightBlue => Some("light-blue"@),
        Color::LightMagenta => Some("light-magenta"@),
        Color::LightCyan => Some("light-cyan"@),
        Color::White => Some("white"@),
        _ => None,
    }
}

/// Whether `v` is the value that a configuration file denotes where it holds the color `c`
/// as `Color::config_file` writes it: the name as a text, the three numbers as a list, or
/// the number.
pub open spec fn written_color_value(v: ConfigValue, c: Color) -> bool {
    match c {
        Color::Rgb(r, g, b) => v matches ConfigValue::Array(a) && a@.len() == 3 && a@[0] == ConfigValue::Integer(
            r as i64,
        ) && a@[1] == ConfigValue::Integer(g as i64) && a@[2] == ConfigValue::Integer(b as i64),
        Color::Indexed(i) => v == ConfigValue::Integer(i as i64),
        _ => v matches ConfigValue::String(s) && Some(s@) == written_color_name(c),
    }
}

/// A color that `Color::config_file` writes is read back by `parse_color` as the same color:
/// a named color is written as its name in quotes, three numbers as a list and an index as a
/// number, and the value that the file then holds (`v`) reads, by the outcome that
/// `parse_color` states, as that color. The step from the text to the value is the TOML
/// parser's. Gray and dark gray are left out: they are written as `gray` and `dark-gray`,
/// which the reader does not know.
pub proof fn law_written_color_reads_back(c: Color, v: ConfigValue)
    requires
        c != Color::Gray,
        c != Color::DarkGray,
        written_color_value(v, c),
    ensures
        written_color_name(c) matches Some(n) ==> color_config(c) == "\""@ + n + "\""@,
        color_outcome(v) == Some(Ok::<Color, Seq<char>>(c)),
{
    reveal_strlit("\"");
    reveal_strlit("\"reset\"");
    reveal_strlit("\"black\"");
    reveal_strlit("\"red\"");
    reveal_strlit("\"green\"");
    reveal_strlit("\"yellow\"");
    reveal_strlit("\"blue\"");
    reveal_strlit("\"magenta\"");
    reveal_strlit("\"cyan\"");
    reveal_strlit("\"white\"");
    reveal_strlit("\"light-red\"");
    reveal_strlit("\"light-green\"");
    reveal_strlit("\"light-yellow\"");
    reveal_strlit("\"light-blue\"");
    reveal_strlit("\"light-magenta\"");
    reveal_strlit("\"light-cyan\"");
    reveal_strlit("reset");
    reveal_strlit("black");
    reveal_strlit("red");
    reveal_strlit("green");
    reveal_strlit("yellow");
    reveal_strlit("blue");
    reveal_strlit("magenta");
    reveal_strlit("cyan");
    reveal_strlit("white");
    reveal_strlit("light-red");
    reveal_strlit("light-green");
    reveal_strlit("light-yellow");
    reveal_strlit("light-blue");
    reveal_strlit("light-magenta");
    reveal_strlit("light-cyan");
    match written_color_name(c) {
        Some(n) => {
            assert(color_config(c) =~= "\""@ + n + "\""@);
        },
        None => {},
    }
    match c {
        Color::Rgb(r, g, b) => {
            let a = v->Array_0;
            assert(int_of(a@[0])->0 as u8 == r);
            assert(int_of(a@[1])->0 as u8 == g);
            assert(int_of(a@[2])->0 as u8 == b);
        },
        Color::Indexed(i) => {
            assert((i as i64) as u8 == i);
        },
        _ => {
            lemma_written_name_is_read(c);
        },
    }
}


/// The name that the writer gives a color other than the two grays is read as that color.
proof fn lemma_written_name_is_read(c: Color)
    requires
        c != Color::Gray,
        c != Color::DarkGray,
        written_color_name(c) is Some,
    ensures
        color_named(written_color_name(c)->0) == Some(c),
{
    reveal_strlit("reset");
    reveal_strlit("black");
    reveal_strlit("red");
    reveal_strlit("green");
    reveal_strlit("yellow");
    reveal_strlit("blue");
    reveal_strlit("magenta");
    reveal_strlit("cyan");
    reveal_strlit("white");
    reveal_strlit("dark-grey");
    reveal_strlit("light-red");
    reveal_strlit("light-green");
    reveal_strlit("light-yellow");
    reveal_strlit("light-blue");
    reveal_strlit("light-magenta");
    reveal_strlit("light-cyan");
    reveal_strlit("grey");
    match c {
        Color::Reset => {
            assert(color_named("reset"@) == Some(Color::Reset));
        },
        Color::Black => {
            assert("black"@[0] != "reset"@[0]);
            assert(color_named("black"@) == Some(Color::Black));
        },
        Color::Red => {
            assert("red"@.len() != "reset"@.len());
            assert("red"@.len() != "black"@.len());
            assert(color_named("red"@) == Some(Color::Red));
        },
        Color::Green => {
            assert("green"@[0] != "reset"@[0]);
            assert("green"@[0] != "black"@[0]);
            assert("green"@.len() != "red"@.len());
            assert(color_named("green"@) == Some(Color::Green));
        },
        Color::Yellow => {
            assert("yellow"@.len() != "reset"@.len());
            assert("yellow"@.len() != "black"@.len());
            assert("yellow"@.len() != "red"@.len());
            assert("yellow"@.len() != "green"@.len());
            assert(color_named("yellow"@) == Some(Color::Yellow));
        },
        Color::Blue => {
            assert("blue"@.len() != "reset"@.len());
            assert("blue"@.len() != "black"@.len());
            assert("blue"@.len() != "red"@.len());
            assert("blue"@.len() != "green"@.len());
            assert("blue"@.len() != "yellow"@.len());
            assert(color_named("blue"@) == Some(Color::Blue));
        },
        Color::Magenta => {
            assert("magenta"@.len() != "reset"@.len());
            assert("magenta"@.len() != "black"@.len());
            assert("magenta"@.len() != "red"@.len());
            assert("magenta"@.len() != "green"@.len());
            assert("magenta"@.len() != "yellow"@.len());
            assert("magenta"@.len() != "blue"@.len());
            assert(color_named("magenta"@) == Some(Color::Magenta));
        },
        Color::Cyan => {
            assert("cyan"@.len() != "reset"@.len());
            assert("cyan"@.len() != "black"@.len());
            assert("cyan"@.len() != "red"@.len());
            assert("cyan"@.len() != "green"@.len());
            assert("cyan"@.len() != "yellow"@.len());
            assert("cyan"@[0] != "blue"@[0]);
            assert("cyan"@.len() != "magenta"@.len());
            assert(color_named("cyan"@) == Some(Color::Cyan));
        },
        Color::White => {
            assert("white"@[0] != "reset"@[0]);
            assert("white"@[0] != "black"@[0]);
            assert("white"@.len() != "red"@.len());
            assert("white"@[0] != "green"@[0]);
            assert("white"@.len() != "yellow"@.len());
            assert("white"@.len() != "blue"@.len());
            assert("white"@.len() != "magenta"@.len());
            assert("white"@.len() != "cyan"@.len());
            assert(color_named("white"@) == Some(Color::White));
        },
        Color::LightRed => {
            assert("light-red"@.len() != "reset"@.len());
            assert("light-red"@.len() != "black"@.len());
            assert("light-red"@.len() != "red"@.len());
            assert("light-red"@.len() != "green"@.len());
            assert("light-red"@.len() != "yellow"@.len());
            assert("light-red"@.len() != "blue"@.len());
            assert("light-red"@.len() != "magenta"@.len());
            assert("light-red"@.len() != "cyan"@.len());
            assert("light-red"@.len() != "white"@.len());
            assert("light-red"@[0] != "dark-grey"@[0]);
            assert(color_named("light-red"@) == Some(Color::LightRed));
        },
        Color::LightGreen => {
            assert("light-green"@.len() != "reset"@.len());
            assert("light-green"@.len() != "black"@.len());
            assert("light-green"@.len() != "red"@.len());
            assert("light-green"@.len() != "green"@.len());
            assert("light-green"@.len() != "yellow"@.len());
            assert("light-green"@.len() != "blue"@.len());
            assert("light-green"@.len() != "magenta"@.len());
            assert("light-green"@.len() != "cyan"@.len());
            assert("light-green"@.len() != "white"@.len());
            assert("light-green"@.len() != "dark-grey"@.len());
            assert("light-green"@.len() != "light-red"@.len());
            assert(color_named("light-green"@) == Some(Color::LightGreen));
        },
        Color::LightYellow => {
            assert("light-yellow"@.len() != "reset"@.len());
            assert("light-yellow"@.len() != "black"@.len());
            assert("light-yellow"@.len() != "red"@.len());
            assert("light-yellow"@.len() != "green"@.len());
            assert("light-yellow"@.len() != "yellow"@.len());
            assert("light-yellow"@.len() != "blue"@.len());
            assert("light-yellow"@.len() != "magenta"@.len());
            assert("light-yellow"@.len() != "cyan"@.len());
            assert("light-yellow"@.len() != "white"@.len());
            assert("light-yellow"@.len() != "dark-grey"@.len());
            assert("light-yellow"@.len() != "light-red"@.len());
            assert("light-yellow"@.len() != "light-green"@.len());
            assert(color_named("light-yellow"@) == Some(Color::LightYellow));
        },
        Color::LightBlue => {
            assert("light-blue"@.len() != "reset"@.len());
            assert("light-blue"@.len() != "black"@.len());
            assert("light-blue"@.len() != "red"@.len());
            assert("light-blue"@.len() != "green"@.len());
            assert("light-blue"@.len() != "yellow"@.len());
            assert("light-blue"@.len() != "blue"@.len());
            assert("light-blue"@.len() != "magenta"@.len());
            assert("light-blue"@.len() != "cyan"@.len());
            assert("light-blue"@.len() != "white"@.len());
            assert("light-blue"@.len() != "dark-grey"@.len());
            assert("light-blue"@.len() != "light-red"@.len());
            assert("light-blue"@.len() != "light-green"@.len());
            assert("light-blue"@.len() != "light-yellow"@.len());
            assert(color_named("light-blue"@) == Some(Color::LightBlue));
        },
        Color::LightMagenta => {
            assert("light-magenta"@.len() != "reset"@.len());
            assert("light-magenta"@.len() != "black"@.len());
            assert("light-magenta"@.len() != "red"@.len());
            assert("light-magenta"@.len() != "green"@.len());
            assert("light-magenta"@.len() != "yellow"@.len());
            assert("light-magenta"@.len() != "blue"@.len());
            assert("light-magenta"@.len() != "magenta"@.len());
            assert("light-magenta"@.len() != "cyan"@.len());
            assert("light-magenta"@.len() != "white"@.len());
            assert("light-magenta"@.len() != "dark-grey"@.len());
            assert("light-magenta"@.len() != "light-red"@.len());
            assert("light-magenta"@.len() != "light-green"@.len());
            assert("light-magenta"@.len() != "light-yellow"@.len());
            assert("light-magenta"@.len() != "light-blue"@.len());
            assert(color_named("light-magenta"@) == Some(Color::LightMagenta));
        },
        Color::LightCyan => {
            assert("light-cyan"@.len() != "reset"@.len());
            assert("light-cyan"@.len() != "black"@.len());
            assert("light-cyan"@.len() != "red"@.len());
            assert("light-cyan"@.len() != "green"@.len());
            assert("light-cyan"@.len() != "yellow"@.len());
            assert("light-cyan"@.len() != "blue"@.len());
            assert("light-cyan"@.len() != "magenta"@.len());
            assert("light-cyan"@.len() != "cyan"@.len());
            assert("light-cyan"@.len() != "white"@.len());
            assert("light-cyan"@.len() != "dark-grey"@.len());
            assert("light-cyan"@.len() != "light-red"@.len());
            assert("light-cyan"@.len() != "light-green"@.len());
            assert("light-cyan"@.len() != "light-yellow"@.len());
            assert("light-cyan"@[6] != "light-blue"@[6]);
            assert("light-cyan"@.len() != "light-magenta"@.len());
            assert(color_named("light-cyan"@) == Some(Color::LightCyan));
        },
        _ => {},
    }
}

/// The name of the `k`-th modifier in a configuration file, without its quotes.
pub open spec fn flag_word(k: int) -> Seq<char> {
    if k == 0 {
        "bold"@
    } else if k == 1 {
        "dim"@
    } else if k == 2 {
        "italic"@
    } else if k == 3 {
        "underline"@
    } else if k == 4 {
        "slow_blink"@
    } else if k == 5 {
        "rapid_blink"@
    } else if k == 6 {
        "reversed"@
    } else if k == 7 {
        "hidden"@
    } else {
        "crossed_out"@
    }
}

/// The unquoted names of the modifiers among the first `k` whose bits are set in `bits`, in
/// order.
pub open spec fn set_words(bits: u16, k: nat) -> Seq<Seq<char>>
    decreases k,
{
    if k == 0 {
        Seq::empty()
    } else if bits & flag_bit(k - 1) != 0 {
        set_words(bits, (k - 1) as nat).push(flag_word(k - 1))
    } else {
        set_words(bits, (k - 1) as nat)
    }
}

/// The bits of the first `k` modifiers.
pub open spec fn flag_mask(k: nat) -> u16
    decreases k,
{
    if k == 0 {
        0
    } else {
        flag_mask((k - 1) as nat) | flag_bit(k - 1)
    }
}

/// Whether the values `vs` are the texts `ws`, one by one.
pub open spec fn texts_are(vs: Seq<ConfigValue>, ws: Seq<Seq<char>>) -> bool {
    &&& vs.len() == ws.len()
    &&& forall|i: int| 0 <= i < vs.len() ==> (#[trigger] vs[i] matches ConfigValue::String(s) && s@ == ws[i])
}

/// The name of the `k`-th modifier is read as its bit.
proof fn lemma_flag_word_named(k: int)
    requires
        0 <= k < 9,
    ensures
        modifier_named(flag_word(k)) == Some(flag_bit(k)),
{
    reveal_strlit("bold");
    reveal_strlit("dim");
    reveal_strlit("italic");
    reveal_strlit("underline");
    reveal_strlit("slow_blink");
    reveal_strlit("rapid_blink");
    reveal_strlit("reversed");
    reveal_strlit("hidden");
    reveal_strlit("crossed_out");
    if k == 0 {
    } else if k == 1 {
        assert("dim"@.len() != "bold"@.len());
    } else if k == 2 {
        assert("italic"@.len() != "bold"@.len());
        assert("italic"@.len() != "dim"@.len());
    } else if k == 3 {
        assert("underline"@.len() != "bold"@.len());
        assert("underline"@.len() != "dim"@.len());
        assert("underline"@.len() != "italic"@.len());
    } else if k == 4 {
        assert("slow_blink"@.len() != "bold"@.len());
        assert("slow_blink"@.len() != "dim"@.len());
        assert("slow_blink"@.len() != "italic"@.len());
        assert("slow_blink"@.len() != "underline"@.len());
    } else if k == 5 {
        assert("rapid_blink"@.len() != "bold"@.len());
        assert("rapid_blink"@.len() != "dim"@.len());
        assert("rapid_blink"@.len() != "italic"@.len());
        assert("rapid_blink"@.len() != "underline"@.len());
        assert("rapid_blink"@.len() != "slow_blink"@.len());
    } else if k == 6 {
        assert("reversed"@.len() != "bold"@.len());
        assert("reversed"@.len() != "dim"@.len());
        assert("reversed"@.len() != "italic"@.len());
        assert("reversed"@.len() != "underline"@.len());
        assert("reversed"@.len() != "slow_blink"@.len());
        assert("reversed"@.len() != "rapid_blink"@.len());
    } else if k == 7 {
        assert("hidden"@.len() != "bold"@.len());
        assert("hidden"@.len() != "dim"@.len());
        assert("hidden"@[0] != "italic"@[0]);
        assert("hidden"@.len() != "underline"@.len());
        assert("hidden"@.len() != "slow_blink"@.len());
        assert("hidden"@.len() != "rapid_blink"@.len());
        assert("hidden"@.len() != "reversed"@.len());
    } else if k == 8 {
        assert("crossed_out"@.len() != "bold"@.len());
        assert("crossed_out"@.len() != "dim"@.len());
        assert("crossed_out"@.len() != "italic"@.len());
        assert("crossed_out"@.len() != "underline"@.len());
        assert("crossed_out"@.len() != "slow_blink"@.len());
        assert("crossed_out"@[0] != "rapid_blink"@[0]);
        assert("crossed_out"@.len() != "reversed"@.len());
        assert("crossed_out"@.len() != "hidden"@.len());
    }
}

/// The quoted name of the `k`-th modifier is its name in quotes.
proof fn lemma_flag_name_quoted(k: int)
    requires
        0 <= k < 9,
    ensures
        flag_name(k) == "\""@ + flag_word(k) + "\""@,
{
    reveal_strlit("\"");
    reveal_strlit("bold");
    reveal_strlit("dim");
    reveal_strlit("italic");
    reveal_strlit("underline");
    reveal_strlit("slow_blink");
    reveal_strlit("rapid_blink");
    reveal_strlit("reversed");
    reveal_strlit("hidden");
    reveal_strlit("crossed_out");
    reveal_strlit("\"bold\"");
    reveal_strlit("\"dim\"");
    reveal_strlit("\"italic\"");
    reveal_strlit("\"underline\"");
    reveal_strlit("\"slow_blink\"");
    reveal_strlit("\"rapid_blink\"");
    reveal_strlit("\"reversed\"");
    reveal_strlit("\"hidden\"");
    reveal_strlit("\"crossed_out\"");
    assert(flag_name(k) =~= "\""@ + flag_word(k) + "\""@);
}

/// Reading one more name after a list adds its bit to what the list reads.
proof fn lemma_modifier_scan_push(vs: Seq<ConfigValue>, x: ConfigValue, acc: u16, bit: u16)
    requires
        modifier_scan(vs, acc) matches Some(Ok(_)),
        x matches ConfigValue::String(s) && modifier_named(s@) == Some(bit),
    ensures
        modifier_scan(vs.push(x), acc) == Some(
            Ok::<Modifier, Seq<char>>(Modifier { bits: modifier_scan(vs, acc)->0->Ok_0.bits | bit }),
        ),
    decreases vs.len(),
{
    if vs.len() == 0 {
        assert(vs.push(x).drop_first() =~= Seq::<ConfigValue>::empty());
        assert(vs.push(x)[0] == x);
        assert(vs.push(x).len() == 1);
        assert(modifier_scan(vs.push(x).drop_first(), acc | bit) == Some(
            Ok::<Modifier, Seq<char>>(Modifier { bits: acc | bit }),
        ));
        assert(modifier_scan(vs.push(x), acc) == modifier_scan(vs.push(x).drop_first(), acc | bit));
    } else {
        assert(vs.push(x).drop_first() =~= vs.drop_first().push(x));
        assert(vs.push(x)[0] == vs[0]);
        assert(vs.push(x).len() > 0);
        match vs[0] {
            ConfigValue::String(s0) => {
                let b0 = modifier_named(s0@)->0;
                assert(modifier_scan(vs, acc) == modifier_scan(vs.drop_first(), acc | b0));
                lemma_modifier_scan_push(vs.drop_first(), x, acc | b0, bit);
                assert(modifier_scan(vs.push(x), acc) == modifier_scan(vs.drop_first().push(x), acc | b0));
            },
            _ => {},
        }
    }
}

proof fn lemma_mask_step(bits: u16, m: u16, f: u16)
    requires
        f == 1 || f == 2 || f == 4 || f == 8 || f == 16 || f == 32 || f == 64 || f == 128 || f == 256,
    ensures
        bits & f != 0 ==> (bits & m) | f == bits & (m | f),
        bits & f == 0 ==> bits & m == bits & (m | f),
{
    assert(bits & f != 0 ==> (bits & m) | f == bits & (m | f)) by (bit_vector)
        requires
            f == 1 || f == 2 || f == 4 || f == 8 || f == 16 || f == 32 || f == 64 || f == 128 || f == 256;
    assert(bits & f == 0 ==> bits & m == bits & (m | f)) by (bit_vector);
}

/// The written names of the first `k` modifiers set in `bits` read back as those bits.
proof fn lemma_set_words_read(vs: Seq<ConfigValue>, bits: u16, k: nat)
    requires
        k <= 9,
        texts_are(vs, set_words(bits, k)),
    ensures
        modifier_scan(vs, 0) == Some(Ok::<Modifier, Seq<char>>(Modifier { bits: bits & flag_mask(k) })),
    decreases k,
{
    if k == 0 {
        assert(bits & 0u16 == 0u16) by (bit_vector);
    } else {
        let f = flag_bit(k - 1);
        let m = flag_mask((k - 1) as nat);
        lemma_mask_step(bits, m, f);
        if bits & f != 0 {
            let prev = vs.drop_last();
            assert(texts_are(prev, set_words(bits, (k - 1) as nat))) by {
                assert forall|i: int| 0 <= i < prev.len() implies (#[trigger] prev[i] matches ConfigValue::String(
                    s,
                ) && s@ == set_words(bits, (k - 1) as nat)[i]) by {
                    assert(prev[i] == vs[i]);
                }
            }
            lemma_set_words_read(prev, bits, (k - 1) as nat);
            lemma_flag_word_named(k - 1);
            assert(vs.last() == vs[vs.len() - 1]);
            lemma_modifier_scan_push(prev, vs.last(), 0, f);
            assert(prev.push(vs.last()) =~= vs);
        } else {
            lemma_set_words_read(vs, bits, (k - 1) as nat);
        }
    }
}

/// The quoted names written for `bits` are the unquoted ones in quotes.
proof fn lemma_set_names_quoted(bits: u16, k: nat)
    requires
        k <= 9,
    ensures
        set_names(bits, k).len() == set_words(bits, k).len(),
        forall|i: int|
            0 <= i < set_names(bits, k).len() ==> #[trigger] set_names(bits, k)[i] == "\""@ + set_words(bits, k)[i]
                + "\""@,
    decreases k,
{
    if k > 0 {
        lemma_set_names_quoted(bits, (k - 1) as nat);
        lemma_flag_name_quoted(k - 1);
    }
}

/// A set of modifiers that `Modifier::config_file` writes is read back by `parse_modifier`
/// as the same set: the file holds a list of the quoted names of the set flags in bit order,
/// and the list of those names (`v`, the value the TOML parser makes of it) reads, by the
/// outcome that `parse_modifier` states, as the set. Bits beyond the nine flags are left out:
/// no name is written for them.
pub proof fn law_written_modifier_reads_back(m: Modifier, v: ConfigValue)
    requires
        m.bits < 512,
        v matches ConfigValue::Array(vs) && texts_are(vs@, set_words(m.bits, 9)),
    ensures
        set_names(m.bits, 9).len() == set_words(m.bits, 9).len(),
        forall|i: int|
            0 <= i < set_names(m.bits, 9).len() ==> #[trigger] set_names(m.bits, 9)[i] == "\""@ + set_words(
                m.bits,
                9,
            )[i] + "\""@,
        modifier_outcome(v) == Some(Ok::<Modifier, Seq<char>>(m)),
{
    lemma_set_names_quoted(m.bits, 9);
    lemma_set_words_read(v->Array_0@, m.bits, 9);
    reveal_with_fuel(flag_mask, 10);
    assert(flag_mask(9) == 511u16) by {
        assert(0u16 | 1u16 == 1u16) by (bit_vector);
        assert(1u16 | 2u16 == 3u16) by (bit_vector);
        assert(3u16 | 4u16 == 7u16) by (bit_vector);
        assert(7u16 | 8u16 == 15u16) by (bit_vector);
        assert(15u16 | 16u16 == 31u16) by (bit_vector);
        assert(31u16 | 32u16 == 63u16) by (bit_vector);
        assert(63u16 | 64u16 == 127u16) by (bit_vector);
        assert(127u16 | 128u16 == 255u16) by (bit_vector);
        assert(255u16 | 256u16 == 511u16) by (bit_vector);
    }
    let bits = m.bits;
    assert(bits < 512 ==> bits & 511u16 == bits) by (bit_vector);
}

} // verus!
