use vstd::prelude::*;
use vstd::string::StringExecFns;
use crate::file::str_eq;
use crate::keybindings::{assoc_map, last_with_key, lemma_assoc_absent, lemma_assoc_update};
use crate::style::{join, join_strings, plain_style, style_config, style_inline, Color, Style};

verus! {

/// The styles of the line numbers: that of the cursor's line and that of the others.
pub struct NumberBarColor {
    pub current_line: Style,
    pub other_lines: Style,
}

/// How the line number styles are written in a configuration file.
pub open spec fn number_bar_config(n: NumberBarColor) -> Seq<char> {
    "[number_bar.current_line]\n"@ + style_config(n.current_line) + "\n[number_bar.other_lines]\n"@
        + style_config(n.other_lines)
}

impl Default for NumberBarColor {
    fn default() -> (n: NumberBarColor)
        ensures
            n.current_line == (Style { bg: Some(Color::DarkGray), ..plain_style() }),
            n.other_lines == (Style { fg: Some(Color::DarkGray), ..plain_style() }),
    {
        NumberBarColor {
            current_line: Style::new().bg(Color::DarkGray),
            other_lines: Style::new().fg(Color::DarkGray),
        }
    }
}

impl NumberBarColor {
    /// The styles as they are written in a configuration file.
    pub fn config_file(&self) -> (s: String)
        ensures
            s@ == number_bar_config(*self),
    {
        let mut s = String::from_str("[number_bar.current_line]\n");
        s.append(self.current_line.config_file().as_str());
        s.append("\n[number_bar.other_lines]\n");
        s.append(self.other_lines.config_file().as_str());
        s
    }

    /// Takes in user styles: each style is patched with the user's, and the patched style is
    /// dropped, so the styles stay as they are.
    fn merge(&mut self, other: Self)
        ensures
            *final(self) == *old(self),
    {
        let _ = self.current_line.patch(other.current_line);
        let _ = self.other_lines.patch(other.other_lines);
    }
}

/// The styles of the status bar: of messages, of each mode's name, and of its three parts.
pub struct StatusBarColor {
    pub message: Style,
    pub mode: Vec<(String, Style)>,
    pub first: Style,
    pub second: Style,
    pub rest: Style,
}

/// The pairs of mode names and styles, seen as texts and styles.
pub open spec fn mode_pairs(m: Seq<(String, Style)>) -> Seq<(Seq<char>, Style)> {
    m.map_values(|p: (String, Style)| (p.0@, p.1))
}

/// Each mode has at most one style: no two pairs share a mode name.
pub open spec fn distinct_modes(m: Seq<(Seq<char>, Style)>) -> bool {
    forall|i: int, j: int| 0 <= i < j < m.len() ==> #[trigger] m[i].0 != #[trigger] m[j].0
}

/// How the mode styles are written in a configuration file, in order.
pub open spec fn mode_config(m: Seq<(Seq<char>, Style)>) -> Seq<char>
    decreases m.len(),
{
    if m.len() == 0 {
        Seq::empty()
    } else {
        mode_config(m.drop_last()) + "[StatusBar.mode."@ + m.last().0 + "]\n"@ + style_config(m.last().1)
            + "\n"@
    }
}

/// How the status bar styles are written in a configuration file.
pub open spec fn status_bar_config(s: StatusBarColor) -> Seq<char> {
    "[StatusBar]\n"@ + "[StatusBar.message]\n"@ + style_config(s.message) + "\n"@ + "[StatusBar.first]\n"@
        + style_config(s.first) + "\n"@ + "[StatusBar.second]\n"@ + style_config(s.second) + "\n"@
        + "[StatusBar.rest]\n"@ + style_config(s.rest) + "\n"@ + mode_config(mode_pairs(s.mode@))
}

/// Black text on `c`.
pub open spec fn on_color(c: Color) -> Style {
    Style { fg: Some(Color::Black), bg: Some(c), ..plain_style() }
}

impl Default for StatusBarColor {
    fn default() -> (s: StatusBarColor)
        ensures
            s.message == (Style { bg: Some(Color::DarkGray), ..plain_style() }),
            mode_pairs(s.mode@) == seq![
                ("Normal"@, on_color(Color::LightCyan)),
                ("Insert"@, on_color(Color::LightGreen)),
                ("Selection"@, on_color(Color::LightYellow)),
                ("Command"@, on_color(Color::LightMagenta)),
                ("Search"@, on_color(Color::LightBlue)),
                ("Replace"@, on_color(Color::LightRed)),
            ],
            distinct_modes(mode_pairs(s.mode@)),
            s.first == plain_style(),
            s.second == plain_style(),
            s.rest == plain_style(),
    {
        let mut mode: Vec<(String, Style)> = Vec::new();
        mode.push((String::from_str("Normal"), Style::new().fg(Color::Black).bg(Color::LightCyan)));
        mode.push((String::from_str("Insert"), Style::new().fg(Color::Black).bg(Color::LightGreen)));
        mode.push((String::from_str("Selection"), Style::new().fg(Color::Black).bg(Color::LightYellow)));
        mode.push((String::from_str("Command"), Style::new().fg(Color::Black).bg(Color::LightMagenta)));
        mode.push((String::from_str("Search"), Style::new().fg(Color::Black).bg(Color::LightBlue)));
        mode.push((String::from_str("Replace"), Style::new().fg(Color::Black).bg(Color::LightRed)));
        let s = StatusBarColor {
            message: Style::new().bg(Color::DarkGray),
            mode,
            first: Style::new(),
            second: Style::new(),
            rest: Style::new(),
        };
        assert(mode_pairs(s.mode@) =~= seq![
            ("Normal"@, on_color(Color::LightCyan)),
            ("Insert"@, on_color(Color::LightGreen)),
            ("Selection"@, on_color(Color::LightYellow)),
            ("Command"@, on_color(Color::LightMagenta)),
            ("Search"@, on_color(Color::LightBlue)),
            ("Replace"@, on_color(Color::LightRed)),
        ]);
        proof {
            reveal_strlit("Normal");
            reveal_strlit("Insert");
            reveal_strlit("Selection");
            reveal_strlit("Command");
            reveal_strlit("Search");
            reveal_strlit("Replace");
            let m = mode_pairs(s.mode@);
            assert(m[0].0[0] == 'N' && m[1].0[0] == 'I' && m[2].0[0] == 'S' && m[3].0[0] == 'C');
            assert(m[4].0[0] == 'S' && m[5].0[0] == 'R' && m[2].0.len() != m[4].0.len());
            assert forall|i: int, j: int| 0 <= i < j < m.len() implies #[trigger] m[i].0 != #[trigger] m[j].0 by {
                if i == 2 && j == 4 {
                    assert(m[i].0.len() != m[j].0.len());
                } else {
                    assert(m[i].0[0] != m[j].0[0]);
                }
            }
        }
        s
    }
}

impl StatusBarColor {
    /// The styles as they are written in a configuration file.
    pub fn config_file(&self) -> (out: String)
        ensures
            out@ == status_bar_config(*self),
    {
        let mut output = String::from_str("[StatusBar]\n");
        output.append("[StatusBar.message]\n");
        output.append(self.message.config_file().as_str());
        output.append("\n");
        output.append("[StatusBar.first]\n");
        output.append(self.first.config_file().as_str());
        output.append("\n");
        output.append("[StatusBar.second]\n");
        output.append(self.second.config_file().as_str());
        output.append("\n");
        output.append("[StatusBar.rest]\n");
        output.append(self.rest.config_file().as_str());
        output.append("\n");
        let ghost head = output@;
        let ghost ms = mode_pairs(self.mode@);
        let mut i: usize = 0;
        assert(ms.take(0) =~= Seq::<(Seq<char>, Style)>::empty());
        while i < self.mode.len()
            invariant
                i <= self.mode@.len(),
                ms == mode_pairs(self.mode@),
                output@ == head + mode_config(ms.take(i as int)),
            decreases self.mode.len() - i,
        {
            assert(ms.take(i + 1).drop_last() =~= ms.take(i as int));
            output.append("[StatusBar.mode.");
            output.append(self.mode[i].0.as_str());
            output.append("]\n");
            output.append(self.mode[i].1.config_file().as_str());
            output.append("\n");
            assert(output@ =~= head + mode_config(ms.take(i + 1)));
            i = i + 1;
        }
        assert(ms.take(i as int) =~= ms);
        assert(output@ =~= status_bar_config(*self));
        output
    }

    /// The index of the last style of mode `name`, if there is one.
    fn find_mode(&self, name: &str) -> (r: Option<usize>)
        ensures
            r matches Some(i) ==> last_with_key(mode_pairs(self.mode@), name@, i as int),
            r is None ==> forall|j: int|
                0 <= j < self.mode@.len() ==> #[trigger] mode_pairs(self.mode@)[j].0 != name@,
    {
        let mut i = self.mode.len();
        while i > 0
            invariant
                i <= self.mode@.len(),
                forall|j: int| i <= j < self.mode@.len() ==> #[trigger] mode_pairs(self.mode@)[j].0 != name@,
            decreases i,
        {
            if str_eq(self.mode[i - 1].0.as_str(), name) {
                return Some(i - 1);
            }
            i = i - 1;
        }
        None
    }

    /// Takes in user styles: the mode styles of `other` are added, each in place of the style
    /// of its mode; every other style is patched with the user's, and the patched style is
    /// dropped, so it stays as it is.
    fn merge(&mut self, other: Self)
        ensures
            distinct_modes(mode_pairs(old(self).mode@)) ==> distinct_modes(mode_pairs(final(self).mode@)),
            assoc_map(mode_pairs(final(self).mode@)) == assoc_map(mode_pairs(old(self).mode@)).union_prefer_right(
                assoc_map(mode_pairs(other.mode@)),
            ),
            final(self).message == old(self).message,
            final(self).first == old(self).first,
            final(self).second == old(self).second,
            final(self).rest == old(self).rest,
    {
        let _ = self.message.patch(other.message);
        let _ = self.first.patch(other.first);
        let _ = self.second.patch(other.second);
        let _ = self.rest.patch(other.rest);
        let mut entries = other.mode;
        let ghost es = mode_pairs(entries@);
        let ghost start = assoc_map(mode_pairs(self.mode@));
        let ghost mut i: int = 0;
        proof {
            assert(es.take(0) =~= Seq::empty());
            assert(assoc_map(es.take(0)) =~= Map::empty());
            assert(start.union_prefer_right(Map::empty()) =~= start);
            assert(mode_pairs(entries@) =~= es.skip(0));
        }
        while entries.len() > 0
            invariant
                0 <= i <= es.len(),
                entries@.len() + i == es.len(),
                mode_pairs(entries@) == es.skip(i),
                start == assoc_map(mode_pairs(old(self).mode@)),
                assoc_map(mode_pairs(self.mode@)) == start.union_prefer_right(assoc_map(es.take(i))),
                distinct_modes(mode_pairs(old(self).mode@)) ==> distinct_modes(mode_pairs(self.mode@)),
                self.message == old(self).message,
                self.first == old(self).first,
                self.second == old(self).second,
                self.rest == old(self).rest,
            decreases entries.len(),
        {
            let ghost old_e = entries@;
            let (name, style) = entries.remove(0);
            proof {
                assert(entries@ =~= old_e.subrange(1, old_e.len() as int));
                assert(mode_pairs(old_e)[0] == (name@, style));
                assert forall|j: int| 0 <= j < entries@.len() implies #[trigger] mode_pairs(entries@)[j]
                    == es.skip(i + 1)[j] by {
                    assert(mode_pairs(entries@)[j] == mode_pairs(old_e)[j + 1]);
                }
                assert(mode_pairs(entries@) =~= es.skip(i + 1));
            }
            let ghost before = mode_pairs(self.mode@);
            let ghost k = name@;
            match self.find_mode(name.as_str()) {
                Some(j) => {
                    self.mode.set(j, (name, style));
                    proof {
                        lemma_assoc_update(before, j as int, k, style);
                        assert(mode_pairs(self.mode@) =~= before.update(j as int, (k, style)));
                        assert forall|a: int| 0 <= a < before.len() implies #[trigger] mode_pairs(
                            self.mode@,
                        )[a].0 == before[a].0 by {}
                    }
                },
                None => {
                    self.mode.push((name, style));
                    proof {
                        assert(mode_pairs(self.mode@).drop_last() =~= before);
                        assert forall|a: int| 0 <= a < before.len() implies #[trigger] mode_pairs(
                            self.mode@,
                        )[a] == before[a] by {}
                        assert(mode_pairs(self.mode@)[before.len() as int].0 == k);
                    }
                },
            }
            proof {
                assert(es.take(i + 1).drop_last() =~= es.take(i));
                assert(assoc_map(mode_pairs(self.mode@)) =~= start.union_prefer_right(assoc_map(es.take(i + 1))));
                i = i + 1;
            }
        }
        proof {
            assert(es.take(i) =~= es);
        }
    }
}

/// The styles of the editor.
pub struct EditorColors {
    pub buffer_color: Style,
    pub selected: Style,
    pub number_bar: NumberBarColor,
    pub status_bar: StatusBarColor,
    pub rainbow_delimiters: Vec<Style>,
}

/// A style written in braces on one line.
pub open spec fn braced_style(s: Style) -> Seq<char> {
    "{ "@ + style_inline(s) + " }"@
}

/// How the editor styles are written in a configuration file.
pub open spec fn editor_colors_config(e: EditorColors) -> Seq<char> {
    "[EditorColors]\n"@ + "rainbow_delimiters = ["@ + join(
        e.rainbow_delimiters@.map_values(|s: Style| braced_style(s)),
        ", "@,
    ) + "]\n"@ + "[EditorColors.buffer_color]\n"@ + style_config(e.buffer_color) + "\n"@
        + "[EditorColors.selected]\n"@ + style_config(e.selected) + "\n"@ + number_bar_config(e.number_bar)
        + "\n"@ + status_bar_config(e.status_bar) + "\n"@
}

/// The status bar styles, with the mode styles as pairs of texts and styles.
pub struct StatusBarView {
    pub message: Style,
    pub mode: Seq<(Seq<char>, Style)>,
    pub first: Style,
    pub second: Style,
    pub rest: Style,
}

/// The status bar styles of `s`.
pub open spec fn status_bar_view(s: StatusBarColor) -> StatusBarView {
    StatusBarView { message: s.message, mode: mode_pairs(s.mode@), first: s.first, second: s.second, rest: s.rest }
}

/// The editor styles, with their lists as sequences.
pub struct EditorColorsView {
    pub buffer_color: Style,
    pub selected: Style,
    pub number_bar: NumberBarColor,
    pub status_bar: StatusBarView,
    pub rainbow_delimiters: Seq<Style>,
}

/// The editor styles of `e`.
pub open spec fn editor_colors_view(e: EditorColors) -> EditorColorsView {
    EditorColorsView {
        buffer_color: e.buffer_color,
        selected: e.selected,
        number_bar: e.number_bar,
        status_bar: status_bar_view(e.status_bar),
        rainbow_delimiters: e.rainbow_delimiters@,
    }
}

/// The line number styles that the editor starts with.
pub open spec fn default_number_bar() -> NumberBarColor {
    NumberBarColor {
        current_line: Style { bg: Some(Color::DarkGray), ..plain_style() },
        other_lines: Style { fg: Some(Color::DarkGray), ..plain_style() },
    }
}

/// The status bar styles that the editor starts with.
pub open spec fn default_status_bar() -> StatusBarView {
    StatusBarView {
        message: Style { bg: Some(Color::DarkGray), ..plain_style() },
        mode: seq![
            ("Normal"@, on_color(Color::LightCyan)),
            ("Insert"@, on_color(Color::LightGreen)),
            ("Selection"@, on_color(Color::LightYellow)),
            ("Command"@, on_color(Color::LightMagenta)),
            ("Search"@, on_color(Color::LightBlue)),
            ("Replace"@, on_color(Color::LightRed)),
        ],
        first: plain_style(),
        second: plain_style(),
        rest: plain_style(),
    }
}

/// The styles of nested delimiters that the editor starts with.
pub open spec fn default_rainbow() -> Seq<Style> {
    seq![
        Style { fg: Some(Color::LightMagenta), ..plain_style() },
        Style { fg: Some(Color::LightBlue), ..plain_style() },
        Style { fg: Some(Color::LightCyan), ..plain_style() },
        Style { fg: Some(Color::LightGreen), ..plain_style() },
        Style { fg: Some(Color::LightYellow), ..plain_style() },
        Style { fg: Some(Color::LightRed), ..plain_style() },
    ]
}

/// The editor styles that the editor starts with.
pub open spec fn default_editor_colors() -> EditorColorsView {
    EditorColorsView {
        buffer_color: plain_style(),
        selected: on_color(Color::LightBlue),
        number_bar: default_number_bar(),
        status_bar: default_status_bar(),
        rainbow_delimiters: default_rainbow(),
    }
}

impl Default for EditorColors {
    fn default() -> (e: EditorColors)
        ensures
            e.buffer_color == plain_style(),
            e.selected == on_color(Color::LightBlue),
            e.rainbow_delimiters@ == default_rainbow(),
            editor_colors_view(e) == default_editor_colors(),
            distinct_modes(mode_pairs(e.status_bar.mode@)),
    {
        let mut rainbow: Vec<Style> = Vec::new();
        rainbow.push(Style::new().fg(Color::LightMagenta));
        rainbow.push(Style::new().fg(Color::LightBlue));
        rainbow.push(Style::new().fg(Color::LightCyan));
        rainbow.push(Style::new().fg(Color::LightGreen));
        rainbow.push(Style::new().fg(Color::LightYellow));
        rainbow.push(Style::new().fg(Color::LightRed));
        let e = EditorColors {
            buffer_color: Style::new(),
            selected: Style::new().fg(Color::Black).bg(Color::LightBlue),
            number_bar: NumberBarColor::default(),
            status_bar: StatusBarColor::default(),
            rainbow_delimiters: rainbow,
        };
        assert(e.rainbow_delimiters@ =~= seq![
            Style { fg: Some(Color::LightMagenta), ..plain_style() },
            Style { fg: Some(Color::LightBlue), ..plain_style() },
            Style { fg: Some(Color::LightCyan), ..plain_style() },
            Style { fg: Some(Color::LightGreen), ..plain_style() },
            Style { fg: Some(Color::LightYellow), ..plain_style() },
            Style { fg: Some(Color::LightRed), ..plain_style() },
        ]);
        e
    }
}

impl EditorColors {
    /// The styles as they are written in a configuration file.
    pub fn config_file(&self) -> (out: String)
        ensures
            out@ == editor_colors_config(*self),
    {
        let mut parts: Vec<String> = Vec::new();
        let mut i: usize = 0;
        while i < self.rainbow_delimiters.len()
            invariant
                i <= self.rainbow_delimiters@.len(),
                parts@.len() == i,
                forall|j: int|
                    0 <= j < i ==> (#[trigger] parts@[j])@ == braced_style(self.rainbow_delimiters@[j]),
            decreases self.rainbow_delimiters.len() - i,
        {
            let mut p = String::from_str("{ ");
            p.append(self.rainbow_delimiters[i].inline_text().as_str());
            p.append(" }");
            parts.push(p);
            i = i + 1;
        }
        assert(parts@.map_values(|p: String| p@) =~= self.rainbow_delimiters@.map_values(
            |s: Style| braced_style(s),
        ));
        let mut output = String::from_str("[EditorColors]\n");
        output.append("rainbow_delimiters = [");
        output.append(join_strings(&parts, ", ").as_str());
        output.append("]\n");
        output.append("[EditorColors.buffer_color]\n");
        output.append(self.buffer_color.config_file().as_str());
        output.append("\n");
        output.append("[EditorColors.selected]\n");
        output.append(self.selected.config_file().as_str());
        output.append("\n");
        output.append(self.number_bar.config_file().as_str());
        output.append("\n");
        output.append(self.status_bar.config_file().as_str());
        output.append("\n");
        assert(output@ =~= editor_colors_config(*self));
        output
    }

    /// Takes in user styles: the rainbow delimiters and the mode styles of `other` are taken,
    /// and every other style stays as it is, as patching drops its result.
    pub fn merge(&mut self, other: Self)
        ensures
            final(self).buffer_color == old(self).buffer_color,
            final(self).selected == old(self).selected,
            final(self).number_bar == old(self).number_bar,
            final(self).status_bar.message == old(self).status_bar.message,
            final(self).status_bar.first == old(self).status_bar.first,
            final(self).status_bar.second == old(self).status_bar.second,
            final(self).status_bar.rest == old(self).status_bar.rest,
            assoc_map(mode_pairs(final(self).status_bar.mode@)) == assoc_map(
                mode_pairs(old(self).status_bar.mode@),
            ).union_prefer_right(assoc_map(mode_pairs(other.status_bar.mode@))),
            distinct_modes(mode_pairs(old(self).status_bar.mode@)) ==> distinct_modes(
                mode_pairs(final(self).status_bar.mode@),
            ),
            final(self).rainbow_delimiters@ == other.rainbow_delimiters@,
    {
        let _ = self.buffer_color.patch(other.buffer_color);
        self.number_bar.merge(other.number_bar);
        self.status_bar.merge(other.status_bar);
        self.rainbow_delimiters = other.rainbow_delimiters;
    }
}

} // verus!
