use vstd::prelude::*;
use vstd::string::StringExecFns;

verus! {

/// The character of the decimal digit `d`.
pub open spec fn digit_char(d: nat) -> char {
    (48 + d) as char
}

/// The decimal digits of `n`, without leading zeros.
pub open spec fn decimal(n: nat) -> Seq<char>
    decreases n,
{
    if n < 10 {
        seq![digit_char(n)]
    } else {
        decimal(n / 10).push(digit_char(n % 10))
    }
}

/// The one decimal digit `d` as text.
fn digit_str(d: u8) -> (s: &'static str)
    requires
        d < 10,
    ensures
        s@ == seq![digit_char(d as nat)],
{
    proof {
        reveal_strlit("0");
        reveal_strlit("1");
        reveal_strlit("2");
        reveal_strlit("3");
        reveal_strlit("4");
        reveal_strlit("5");
        reveal_strlit("6");
        reveal_strlit("7");
        reveal_strlit("8");
        reveal_strlit("9");
    }
    match d {
        0 => "0",
        1 => "1",
        2 => "2",
        3 => "3",
        4 => "4",
        5 => "5",
        6 => "6",
        7 => "7",
        8 => "8",
        _ => "9",
    }
}

/// `n` written in decimal.
pub fn u8_to_decimal(n: u8) -> (s: String)
    ensures
        s@ == decimal(n as nat),
{
    proof {
        reveal_with_fuel(decimal, 3);
    }
    if n < 10 {
        String::from_str(digit_str(n))
    } else if n < 100 {
        let mut s = String::from_str(digit_str(n / 10));
        s.append(digit_str(n % 10));
        s
    } else {
        let mut s = String::from_str(digit_str(n / 100));
        s.append(digit_str((n / 10) % 10));
        s.append(digit_str(n % 10));
        proof {
            assert((n / 10) / 10 == n / 100);
        }
        s
    }
}

/// A color of the terminal.
#[derive(Debug, Clone, Copy, PartialEq, Eq, Hash, Structural)]
pub enum Color {
    /// Reset the color.
    Reset,
    /// ANSI Color: Black. Foreground: 30, Backgound: 40
    Black,
    /// ANSI Color: Red. Foreground: 31, Backgound: 41
    Red,
    /// ANSI Color: Green. Foreground: 32, Backgound: 42
    Green,
    /// ANSI Color: Yellow. Foreground: 33, Backgound: 43
    Yellow,
    /// ANSI Color: Blue. Foreground: 34, Backgound: 44
    Blue,
    /// ANSI Color: Magenta. Foreground: 35, Backgound: 45
    Magenta,
    /// ANSI Color: Cyan. Foreground: 36, Backgound: 46
    Cyan,
    /// ANSI Color: White. Foreground: 37, Backgound: 47
    Gray,
    /// ANSI Color: Dark Gray. Foreground: 90, Backgound: 100
    DarkGray,
    /// ANSI Color: Light Red. Foreground: 91, Backgound: 101
    LightRed,
    /// ANSI Color: Light Green. Foreground: 92, Backgound: 102
    LightGreen,
    /// ANSI Color: Light Yellow. Foreground: 93, Backgound: 103
    LightYellow,
    /// ANSI Color: Light Blue. Foreground: 94, Backgound: 104
    LightBlue,
    /// ANSI Color: Light Magenta. Foreground: 95, Backgound: 105
    LightMagenta,
    /// ANSI Color: Light Cyan. Foreground: 96, Backgound: 106
    LightCyan,
    /// ANSI Color: White. Foreground: 97, Backgound: 107
    White,
    /// An RGB color.
    Rgb(u8, u8, u8),
    /// An 8-bit 256 color.
    Indexed(u8),
}

/// How a color is written in a configuration file: a quoted name, a list of three numbers, or
/// a number.
pub open spec fn color_config(c: Color) -> Seq<char> {
    match c {
        Color::Reset => "\"reset\""@,
        Color::Black => "\"black\""@,
        Color::Red => "\"red\""@,
        Color::Green => "\"green\""@,
        Color::Yellow => "\"yellow\""@,
        Color::Blue => "\"blue\""@,
        Color::Magenta => "\"magenta\""@,
        Color::Cyan => "\"cyan\""@,
        Color::Gray => "\"gray\""@,
        Color::DarkGray => "\"dark-gray\""@,
        Color::LightRed => "\"light-red\""@,
        Color::LightGreen => "\"light-green\""@,
        Color::LightYellow => "\"light-yellow\""@,
        Color::LightBlue => "\"light-blue\""@,
        Color::LightMagenta => "\"light-magenta\""@,
        Color::LightCyan => "\"light-cyan\""@,
        Color::White => "\"white\""@,
        Color::Rgb(r, g, b) => "["@ + decimal(r as nat) + ", "@ + decimal(g as nat) + ", "@
            + decimal(b as nat) + "]"@,
        Color::Indexed(i) => decimal(i as nat),
    }
}

impl Color {
    /// The color as it is written in a configuration file.
    pub fn config_file(&self) -> (s: String)
        ensures
            s@ == color_config(*self),
    {
        match self {
            Color::Reset => String::from_str("\"reset\""),
            Color::Black => String::from_str("\"black\""),
            Color::Red => String::from_str("\"red\""),
            Color::Green => String::from_str("\"green\""),
            Color::Yellow => String::from_str("\"yellow\""),
            Color::Blue => String::from_str("\"blue\""),
            Color::Magenta => String::from_str("\"magenta\""),
            Color::Cyan => String::from_str("\"cyan\""),
            Color::Gray => String::from_str("\"gray\""),
            Color::DarkGray => String::from_str("\"dark-gray\""),
            Color::LightRed => String::from_str("\"light-red\""),
            Color::LightGreen => String::from_str("\"light-green\""),
            Color::LightYellow => String::from_str("\"light-yellow\""),
            Color::LightBlue => String::from_str("\"light-blue\""),
            Color::LightMagenta => String::from_str("\"light-magenta\""),
            Color::LightCyan => String::from_str("\"light-cyan\""),
            Color::White => String::from_str("\"white\""),
            Color::Rgb(r, g, b) => {
                let mut s = String::from_str("[");
                s.append(u8_to_decimal(*r).as_str());
                s.append(", ");
                s.append(u8_to_decimal(*g).as_str());
                s.append(", ");
                s.append(u8_to_decimal(*b).as_str());
                s.append("]");
                s
            },
            Color::Indexed(i) => u8_to_decimal(*i),
        }
    }
}

/// A set of text modifiers, one bit each.
#[derive(Debug, Clone, Copy, PartialEq, Eq, Hash, Structural)]
pub struct Modifier {
    pub bits: u16,
}

/// The bit of the `k`-th modifier, in the order bold, dim, italic, underline, slow blink,
/// rapid blink, reversed, hidden, crossed out.
pub open spec fn flag_bit(k: int) -> u16 {
    if k == 0 {
        1
    } else if k == 1 {
        2
    } else if k == 2 {
        4
    } else if k == 3 {
        8
    } else if k == 4 {
        16
    } else if k == 5 {
        32
    } else if k == 6 {
        64
    } else if k == 7 {
        128
    } else {
        256
    }
}

/// The name of the `k`-th modifier in a configuration file, quoted.
pub open spec fn flag_name(k: int) -> Seq<char> {
    if k == 0 {
        "\"bold\""@
    } else if k == 1 {
        "\"dim\""@
    } else if k == 2 {
        "\"italic\""@
    } else if k == 3 {
        "\"underline\""@
    } else if k == 4 {
        "\"slow_blink\""@
    } else if k == 5 {
        "\"rapid_blink\""@
    } else if k == 6 {
        "\"reversed\""@
    } else if k == 7 {
        "\"hidden\""@
    } else {
        "\"crossed_out\""@
    }
}

/// The names of the modifiers among the first `k` whose bits are set in `bits`, in order.
pub open spec fn set_names(bits: u16, k: nat) -> Seq<Seq<char>>
    decreases k,
{
    if k == 0 {
        Seq::empty()
    } else if bits & flag_bit(k - 1) != 0 {
        set_names(bits, (k - 1) as nat).push(flag_name(k - 1))
    } else {
        set_names(bits, (k - 1) as nat)
    }
}

/// The parts joined, with `sep` between each two.
pub open spec fn join(parts: Seq<Seq<char>>, sep: Seq<char>) -> Seq<char>
    decreases parts.len(),
{
    if parts.len() == 0 {
        Seq::empty()
    } else if parts.len() == 1 {
        parts[0]
    } else {
        join(parts.drop_last(), sep) + sep + parts.last()
    }
}

/// How a set of modifiers is written in a configuration file: a list of their quoted names.
pub open spec fn modifier_config(m: Modifier) -> Seq<char> {
    "["@ + join(set_names(m.bits, 9), ", "@) + "]"@
}

/// The bit of the `k`-th modifier.
fn flag_bit_exec(k: usize) -> (b: u16)
    ensures
        b == flag_bit(k as int),
{
    if k == 0 {
        1
    } else if k == 1 {
        2
    } else if k == 2 {
        4
    } else if k == 3 {
        8
    } else if k == 4 {
        16
    } else if k == 5 {
        32
    } else if k == 6 {
        64
    } else if k == 7 {
        128
    } else {
        256
    }
}

/// The quoted name of the `k`-th modifier.
fn flag_name_exec(k: usize) -> (s: &'static str)
    ensures
        s@ == flag_name(k as int),
{
    if k == 0 {
        "\"bold\""
    } else if k == 1 {
        "\"dim\""
    } else if k == 2 {
        "\"italic\""
    } else if k == 3 {
        "\"underline\""
    } else if k == 4 {
        "\"slow_blink\""
    } else if k == 5 {
        "\"rapid_blink\""
    } else if k == 6 {
        "\"reversed\""
    } else if k == 7 {
        "\"hidden\""
    } else {
        "\"crossed_out\""
    }
}

impl Modifier {
    /// Bold text.
    pub fn bold() -> (m: Modifier)
        ensures
            m.bits == 1,
    {
        Modifier { bits: 1 }
    }

    /// Dim text.
    pub fn dim() -> (m: Modifier)
        ensures
            m.bits == 2,
    {
        Modifier { bits: 2 }
    }

    /// Italic text.
    pub fn italic() -> (m: Modifier)
        ensures
            m.bits == 4,
    {
        Modifier { bits: 4 }
    }

    /// Underlined text.
    pub fn underline() -> (m: Modifier)
        ensures
            m.bits == 8,
    {
        Modifier { bits: 8 }
    }

    /// Slowly blinking text.
    pub fn slow_blink() -> (m: Modifier)
        ensures
            m.bits == 16,
    {
        Modifier { bits: 16 }
    }

    /// Rapidly blinking text.
    pub fn rapid_blink() -> (m: Modifier)
        ensures
            m.bits == 32,
    {
        Modifier { bits: 32 }
    }

    /// Text in reversed colors.
    pub fn reversed() -> (m: Modifier)
        ensures
            m.bits == 64,
    {
        Modifier { bits: 64 }
    }

    /// Hidden text.
    pub fn hidden() -> (m: Modifier)
        ensures
            m.bits == 128,
    {
        Modifier { bits: 128 }
    }

    /// Crossed out text.
    pub fn crossed_out() -> (m: Modifier)
        ensures
            m.bits == 256,
    {
        Modifier { bits: 256 }
    }

    /// No modifier.
    pub fn empty() -> (m: Modifier)
        ensures
            m.bits == 0,
    {
        Modifier { bits: 0 }
    }

    /// The bits of the set.
    pub fn bits(&self) -> (b: u16)
        ensures
            b == self.bits,
    {
        self.bits
    }

    /// Whether no modifier is in the set.
    pub fn is_empty(&self) -> (b: bool)
        ensures
            b == (self.bits == 0),
    {
        self.bits == 0
    }

    /// Whether every modifier of `other` is in the set.
    pub fn contains(&self, other: Modifier) -> (b: bool)
        ensures
            b == (self.bits & other.bits == other.bits),
    {
        self.bits & other.bits == other.bits
    }

    /// The modifiers of both sets.
    pub fn union(self, other: Modifier) -> (m: Modifier)
        ensures
            m.bits == self.bits | other.bits,
    {
        Modifier { bits: self.bits | other.bits }
    }

    /// The modifiers of the set that are not in `other`.
    pub fn difference(self, other: Modifier) -> (m: Modifier)
        ensures
            m.bits == self.bits & !other.bits,
    {
        Modifier { bits: self.bits & !other.bits }
    }

    /// Adds the modifiers of `other`.
    pub fn insert(&mut self, other: Modifier)
        ensures
            final(self).bits == old(self).bits | other.bits,
    {
        self.bits = self.bits | other.bits;
    }

    /// Takes away the modifiers of `other`.
    pub fn remove(&mut self, other: Modifier)
        ensures
            final(self).bits == old(self).bits & !other.bits,
    {
        self.bits = self.bits & !other.bits;
    }

    /// The set as it is written in a configuration file.
    pub fn config_file(&self) -> (s: String)
        ensures
            s@ == modifier_config(*self),
    {
        let mut out = String::from_str("[");
        let mut first = true;
        let mut k: usize = 0;
        while k < 9
            invariant
                k <= 9,
                out@ == "["@ + join(set_names(self.bits, k as nat), ", "@),
                first == (set_names(self.bits, k as nat).len() == 0),
            decreases 9 - k,
        {
            let ghost prev = set_names(self.bits, k as nat);
            if self.bits & flag_bit_exec(k) != 0 {
                let name = flag_name_exec(k);
                proof {
                    let next = prev.push(flag_name(k as int));
                    assert(next.drop_last() =~= prev);
                    assert(set_names(self.bits, (k + 1) as nat) == next);
                    if prev.len() == 0 {
                        assert(join(next, ", "@) == flag_name(k as int));
                        assert(join(prev, ", "@) =~= Seq::<char>::empty());
                    }
                }
                if !first {
                    out.append(", ");
                }
                out.append(name);
                first = false;
                proof {
                    if prev.len() == 0 {
                        assert(out@ =~= "["@ + join(set_names(self.bits, (k + 1) as nat), ", "@));
                    } else {
                        assert(out@ =~= "["@ + join(set_names(self.bits, (k + 1) as nat), ", "@));
                    }
                }
            }
            k = k + 1;
        }
        out.append("]");
        out
    }
}

/// How text is drawn: its colors and the modifiers that are added or taken away.
#[derive(Debug, Clone, Copy, PartialEq, Eq, Hash, Structural)]
pub struct Style {
    pub fg: Option<Color>,
    pub bg: Option<Color>,
    pub underline_color: Option<Color>,
    pub add_modifier: Modifier,
    pub sub_modifier: Modifier,
}

/// The style that sets nothing.
pub open spec fn plain_style() -> Style {
    Style {
        fg: None,
        bg: None,
        underline_color: None,
        add_modifier: Modifier { bits: 0 },
        sub_modifier: Modifier { bits: 0 },
    }
}

/// `b` where it is set, else `a`.
pub open spec fn or_else(b: Option<Color>, a: Option<Color>) -> Option<Color> {
    if b is Some {
        b
    } else {
        a
    }
}

/// `s` with `other` laid over it: the colors that `other` sets win, the modifiers that it
/// takes away leave the added ones, and the ones that it adds leave the taken-away ones.
pub open spec fn patched(s: Style, other: Style) -> Style {
    Style {
        fg: or_else(other.fg, s.fg),
        bg: or_else(other.bg, s.bg),
        underline_color: or_else(other.underline_color, s.underline_color),
        add_modifier: Modifier {
            bits: (s.add_modifier.bits & !other.sub_modifier.bits) | other.add_modifier.bits,
        },
        sub_modifier: Modifier {
            bits: (s.sub_modifier.bits & !other.add_modifier.bits) | other.sub_modifier.bits,
        },
    }
}

/// How a style is written in a configuration file: one line for each color it sets, and one
/// for the modifiers it adds, if any.
pub open spec fn style_config(s: Style) -> Seq<char> {
    (if let Some(c) = s.fg {
        "fg = "@ + color_config(c) + "\n"@
    } else {
        Seq::empty()
    }) + (if let Some(c) = s.bg {
        "bg = "@ + color_config(c) + "\n"@
    } else {
        Seq::empty()
    }) + (if let Some(c) = s.underline_color {
        "underline_color = "@ + color_config(c) + "\n"@
    } else {
        Seq::empty()
    }) + (if s.add_modifier.bits != 0 {
        "modifiers = "@ + modifier_config(s.add_modifier) + "\n"@
    } else {
        Seq::empty()
    })
}

impl Style {
    /// The style that sets nothing.
    pub fn new() -> (s: Style)
        ensures
            s == plain_style(),
    {
        Style {
            fg: None,
            bg: None,
            underline_color: None,
            add_modifier: Modifier::empty(),
            sub_modifier: Modifier::empty(),
        }
    }

    /// The style that sets nothing, to reset a span.
    pub fn reset() -> (s: Style)
        ensures
            s == plain_style(),
    {
        Style {
            fg: None,
            bg: None,
            underline_color: None,
            add_modifier: Modifier::empty(),
            sub_modifier: Modifier::empty(),
        }
    }

    /// The style with the foreground color `color`.
    pub fn fg(self, color: Color) -> (s: Style)
        ensures
            s == (Style { fg: Some(color), ..self }),
    {
        let mut s = self;
        s.fg = Some(color);
        s
    }

    /// The style with the background color `color`.
    pub fn bg(self, color: Color) -> (s: Style)
        ensures
            s == (Style { bg: Some(color), ..self }),
    {
        let mut s = self;
        s.bg = Some(color);
        s
    }

    /// The style with the underline color `color`.
    pub fn underline_color(self, color: Color) -> (s: Style)
        ensures
            s == (Style { underline_color: Some(color), ..self }),
    {
        let mut s = self;
        s.underline_color = Some(color);
        s
    }

    /// The style that adds the modifiers of `modifier` and no longer takes them away.
    pub fn add_modifier(self, modifier: Modifier) -> (s: Style)
        ensures
            s == (Style {
                add_modifier: Modifier { bits: self.add_modifier.bits | modifier.bits },
                sub_modifier: Modifier { bits: self.sub_modifier.bits & !modifier.bits },
                ..self
            }),
    {
        let mut s = self;
        s.sub_modifier = s.sub_modifier.difference(modifier);
        s.add_modifier = s.add_modifier.union(modifier);
        s
    }

    /// The style that takes away the modifiers of `modifier` and no longer adds them.
    pub fn sub_modifier(self, modifier: Modifier) -> (s: Style)
        ensures
            s == (Style {
                add_modifier: Modifier { bits: self.add_modifier.bits & !modifier.bits },
                sub_modifier: Modifier { bits: self.sub_modifier.bits | modifier.bits },
                ..self
            }),
    {
        let mut s = self;
        s.add_modifier = s.add_modifier.difference(modifier);
        s.sub_modifier = s.sub_modifier.union(modifier);
        s
    }

    /// The style with `other` laid over it.
    pub fn patch(self, other: Style) -> (s: Style)
        ensures
            s == patched(self, other),
    {
        let mut s = self;
        if other.fg.is_some() {
            s.fg = other.fg;
        }
        if other.bg.is_some() {
            s.bg = other.bg;
        }
        if other.underline_color.is_some() {
            s.underline_color = other.underline_color;
        }
        s.add_modifier.remove(other.sub_modifier);
        s.add_modifier.insert(other.add_modifier);
        s.sub_modifier.remove(other.add_modifier);
        s.sub_modifier.insert(other.sub_modifier);
        s
    }

    /// The style as it is written in a configuration file.
    pub fn config_file(&self) -> (out: String)
        ensures
            out@ == style_config(*self),
    {
        let mut output = String::new();
        if let Some(fg) = self.fg {
            output.append("fg = ");
            output.append(fg.config_file().as_str());
            output.append("\n");
        }
        let ghost a = output@;
        if let Some(bg) = self.bg {
            output.append("bg = ");
            output.append(bg.config_file().as_str());
            output.append("\n");
        }
        let ghost b = output@;
        if let Some(c) = self.underline_color {
            output.append("underline_color = ");
            output.append(c.config_file().as_str());
            output.append("\n");
        }
        let ghost c = output@;
        if !self.add_modifier.is_empty() {
            output.append("modifiers = ");
            output.append(self.add_modifier.config_file().as_str());
            output.append("\n");
        }
        assert(output@ =~= style_config(*self));
        output
    }
}

/// The lines of a style in a configuration file, without their line feeds.
pub open spec fn style_lines(s: Style) -> Seq<Seq<char>> {
    (if let Some(c) = s.fg {
        seq!["fg = "@ + color_config(c)]
    } else {
        Seq::empty()
    }) + (if let Some(c) = s.bg {
        seq!["bg = "@ + color_config(c)]
    } else {
        Seq::empty()
    }) + (if let Some(c) = s.underline_color {
        seq!["underline_color = "@ + color_config(c)]
    } else {
        Seq::empty()
    }) + (if s.add_modifier.bits != 0 {
        seq!["modifiers = "@ + modifier_config(s.add_modifier)]
    } else {
        Seq::empty()
    })
}

/// A style written on one line: its configuration lines joined by commas.
pub open spec fn style_inline(s: Style) -> Seq<char> {
    join(style_lines(s), ", "@)
}

/// The texts joined, with `sep` between each two.
pub fn join_strings(parts: &Vec<String>, sep: &str) -> (out: String)
    ensures
        out@ == join(parts@.map_values(|p: String| p@), sep@),
{
    let ghost ps = parts@.map_values(|p: String| p@);
    let mut out = String::new();
    let mut i: usize = 0;
    assert(ps.take(0) =~= Seq::<Seq<char>>::empty());
    while i < parts.len()
        invariant
            i <= parts@.len(),
            ps == parts@.map_values(|p: String| p@),
            out@ == join(ps.take(i as int), sep@),
        decreases parts.len() - i,
    {
        assert(ps.take(i + 1).drop_last() =~= ps.take(i as int));
        if i > 0 {
            out.append(sep);
        }
        out.append(parts[i].as_str());
        proof {
            if i == 0 {
                assert(ps.take(1) =~= seq![ps[0]]);
                assert(out@ =~= join(ps.take(1), sep@));
            } else {
                assert(out@ =~= join(ps.take(i + 1), sep@));
            }
        }
        i = i + 1;
    }
    assert(ps.take(i as int) =~= ps);
    out
}

impl Style {
    /// The style written on one line.
    pub fn inline_text(&self) -> (out: String)
        ensures
            out@ == style_inline(*self),
    {
        let mut lines: Vec<String> = Vec::new();
        if let Some(fg) = self.fg {
            let mut l = String::from_str("fg = ");
            l.append(fg.config_file().as_str());
            lines.push(l);
        }
        if let Some(bg) = self.bg {
            let mut l = String::from_str("bg = ");
            l.append(bg.config_file().as_str());
            lines.push(l);
        }
        if let Some(c) = self.underline_color {
            let mut l = String::from_str("underline_color = ");
            l.append(c.config_file().as_str());
            lines.push(l);
        }
        if !self.add_modifier.is_empty() {
            let mut l = String::from_str("modifiers = ");
            l.append(self.add_modifier.config_file().as_str());
            lines.push(l);
        }
        assert(lines@.map_values(|p: String| p@) =~= style_lines(*self));
        join_strings(&lines, ", ")
    }
}

impl Default for Style {
    fn default() -> (s: Style)
        ensures
            s == plain_style(),
    {
        Style::new()
    }
}

/// Laying the plain style over a style changes nothing, and laying a style over the plain
/// style gives that style.
pub proof fn law_patch_identity(s: Style)
    ensures
        patched(s, plain_style()) == s,
        patched(plain_style(), s) == s,
{
    let a = s.add_modifier.bits;
    let b = s.sub_modifier.bits;
    assert(a & !0u16 | 0u16 == a) by (bit_vector);
    assert(b & !0u16 | 0u16 == b) by (bit_vector);
    assert(0u16 & !b | a == a) by (bit_vector);
    assert(0u16 & !a | b == b) by (bit_vector);
}

/// Laying styles over each other is associative: patching with `b` and then `c` is patching
/// with `b` patched with `c`.
pub proof fn law_patch_associative(a: Style, b: Style, c: Style)
    ensures
        patched(patched(a, b), c) == patched(a, patched(b, c)),
{
    let (aa, asb) = (a.add_modifier.bits, a.sub_modifier.bits);
    let (ba, bs) = (b.add_modifier.bits, b.sub_modifier.bits);
    let (ca, cs) = (c.add_modifier.bits, c.sub_modifier.bits);
    assert(((aa & !bs) | ba) & !cs | ca == (aa & !((bs & !ca) | cs)) | ((ba & !cs) | ca))
        by (bit_vector);
    assert(((asb & !ba) | bs) & !ca | cs == (asb & !((ba & !cs) | ca)) | ((bs & !ca) | cs))
        by (bit_vector);
}

} // verus!
