use vstd::prelude::*;
use vstd::string::StrSliceExecFns;
use crate::chars::{len_utf8, spec_len_utf8};
use crate::colors::EditorColors;
use crate::delimiters::{delimiter_char, is_delimiter, is_pair, pair_of};
use crate::editor_settings::EditorSettings;
use crate::style::{patched, plain_style, Style};
use crate::styled::{char_string, string_push, StyledLine, StyledSpan, StyledText};

verus! {

/// A run of characters and the style it is drawn in.
pub open spec fn span_view(s: StyledSpan) -> (Seq<char>, Style) {
    (s.text@, s.style)
}

/// The runs of a line.
pub open spec fn spans_view(spans: Seq<StyledSpan>) -> Seq<(Seq<char>, Style)> {
    spans.map_values(|s: StyledSpan| span_view(s))
}

/// The runs of each line of a styled text.
pub open spec fn lines_view(lines: Seq<StyledLine>) -> Seq<Seq<(Seq<char>, Style)>> {
    lines.map_values(|l: StyledLine| spans_view(l.spans@))
}

/// What the drawing of a text reads besides the text: the style of selected text, the rainbow
/// of delimiter styles and whether it is used, the tab size, the selected bytes and the
/// styles that syntax highlighting gives to (column, row) places.
pub struct DisplayLook {
    pub selected: Style,
    pub rainbow: Seq<Style>,
    pub rainbow_on: bool,
    pub tab_size: nat,
    pub highlights: Seq<usize>,
    pub syntax: Seq<(usize, usize, Style)>,
}

/// Where the drawing stands after some characters: the pending characters, the runs of the
/// current line, the finished lines, whether the pending characters are selected, the open
/// delimiters with their styles, the row and column, and the byte position.
pub struct DisplayState {
    pub acc: Seq<char>,
    pub line: Seq<(Seq<char>, Style)>,
    pub lines: Seq<Seq<(Seq<char>, Style)>>,
    pub highlight: bool,
    pub open: Seq<(char, Style)>,
    pub row: int,
    pub column: int,
    pub pos: int,
}

/// Whether byte `i` is among the selected bytes.
pub open spec fn is_highlighted(h: Seq<usize>, i: int) -> bool {
    exists|k: int| 0 <= k < h.len() && h[k] == i
}

/// The style that the first syntax entry for place (`column`, `row`) gives, if there is one.
pub open spec fn syntax_at(syn: Seq<(usize, usize, Style)>, column: int, row: int) -> Option<Style>
    decreases syn.len(),
{
    if syn.len() == 0 {
        None
    } else if syn[0].0 == column && syn[0].1 == row {
        Some(syn[0].2)
    } else {
        syntax_at(syn.drop_first(), column, row)
    }
}

/// How a character is shown: a tab as `tab_size` spaces, a carriage return as a space.
pub open spec fn shown(c: char, tab_size: nat) -> Seq<char> {
    if c == '\t' {
        Seq::new(tab_size, |k: int| ' ')
    } else if c == '\r' {
        seq![' ']
    } else {
        seq![c]
    }
}

/// The style of pending characters: the selection style where they are selected.
pub open spec fn acc_style(highlight: bool, selected: Style) -> Style {
    if highlight {
        selected
    } else {
        plain_style()
    }
}

/// The pending characters become a run of the current line.
pub open spec fn flushed(st: DisplayState, selected: Style) -> DisplayState {
    DisplayState { line: st.line.push((st.acc, acc_style(st.highlight, selected))), acc: seq![], ..st }
}

/// A delimiter `c` either closes the last open one, and takes its style, or opens a new one
/// with the rainbow style at the depth it opens at.
pub open spec fn rainbow_step(open: Seq<(char, Style)>, c: char, rainbow: Seq<Style>) -> (Seq<(char, Style)>, Style) {
    if open.len() > 0 && pair_of(open.last().0, c) {
        (open.drop_last(), open.last().1)
    } else {
        (open.push((c, rainbow[(open.len() % rainbow.len()) as int])), rainbow[(open.len() % rainbow.len()) as int])
    }
}

/// The drawing after one more character `c`: a selected character that is no rainbow
/// delimiter joins the pending selected text; a rainbow delimiter is a run of its own in its
/// rainbow style, laid over the selection style where it is selected; a place with a syntax
/// style is a run of its own in that style; a line break ends the line with a space; any
/// other character joins the pending plain text.
pub open spec fn display_step(st0: DisplayState, c: char, look: DisplayLook) -> DisplayState {
    let i = st0.pos;
    let st = DisplayState { column: st0.column + 1, pos: i + spec_len_utf8(c), ..st0 };
    let hl = is_highlighted(look.highlights, i);
    let delim = delimiter_char(c) && look.rainbow_on;
    if hl && !delim {
        let st1 = if !st.highlight {
            flushed(st, look.selected)
        } else {
            st
        };
        if c == '\n' {
            let acc = st1.acc.push(' ');
            DisplayState {
                lines: st1.lines.push(st1.line.push((acc, acc_style(st.highlight, look.selected)))),
                line: seq![],
                acc: seq![],
                highlight: true,
                row: st.row + 1,
                column: 0,
                ..st1
            }
        } else {
            DisplayState { acc: st1.acc + shown(c, look.tab_size), highlight: true, ..st1 }
        }
    } else if delim {
        let st1 = flushed(st, look.selected);
        let (open, color) = rainbow_step(st.open, c, look.rainbow);
        let style = if hl {
            patched(look.selected, color)
        } else {
            color
        };
        DisplayState { line: st1.line.push((seq![c], style)), open, highlight: hl, ..st1 }
    } else if syntax_at(look.syntax, st.column, st.row) is Some {
        let st1 = flushed(st, look.selected);
        let color = syntax_at(look.syntax, st.column, st.row)->0;
        let style = if st.highlight {
            patched(look.selected, color)
        } else {
            color
        };
        DisplayState { line: st1.line.push((seq![c], style)), ..st1 }
    } else if c == '\n' {
        let st1 = flushed(st, look.selected);
        DisplayState {
            lines: st1.lines.push(st1.line.push((seq![' '], plain_style()))),
            line: seq![],
            row: st.row + 1,
            column: 0,
            ..st1
        }
    } else {
        let st1 = if st.highlight {
            flushed(st, look.selected)
        } else {
            st
        };
        DisplayState { acc: st1.acc + shown(c, look.tab_size), highlight: false, ..st1 }
    }
}

/// The drawing after the characters `cs`, from `start`.
pub open spec fn display_run(cs: Seq<char>, start: DisplayState, look: DisplayLook) -> DisplayState
    decreases cs.len(),
{
    if cs.len() == 0 {
        start
    } else {
        display_step(display_run(cs.drop_last(), start, look), cs.last(), look)
    }
}

/// The drawing before any character, at byte `offset` and row `row`.
pub open spec fn display_start(offset: int, row: int) -> DisplayState {
    DisplayState {
        acc: seq![],
        line: seq![],
        lines: seq![],
        highlight: false,
        open: seq![],
        row,
        column: 0,
        pos: offset,
    }
}

/// The finished lines: pending characters close the last line; a last line without pending
/// characters is left out.
pub open spec fn display_finish(st: DisplayState, look: DisplayLook) -> Seq<Seq<(Seq<char>, Style)>> {
    if st.acc.len() > 0 {
        st.lines.push(st.line.push((st.acc, acc_style(st.highlight, look.selected))))
    } else {
        st.lines
    }
}

/// The lines and runs that drawing `cs` gives, the text starting at byte `offset` of row `row`.
pub open spec fn displayed(cs: Seq<char>, offset: int, row: int, look: DisplayLook) -> Seq<Seq<(Seq<char>, Style)>> {
    display_finish(display_run(cs, display_start(offset, row), look), look)
}

/// The number of bytes of the UTF-8 encoding of `cs`.
pub open spec fn utf8_count(cs: Seq<char>) -> nat
    decreases cs.len(),
{
    if cs.len() == 0 {
        0
    } else {
        utf8_count(cs.drop_last()) + spec_len_utf8(cs.last())
    }
}

/// A prefix never has more bytes than the whole.
proof fn lemma_utf8_count_prefix(cs: Seq<char>, k: int)
    requires
        0 <= k <= cs.len(),
    ensures
        utf8_count(cs.take(k)) <= utf8_count(cs),
    decreases cs.len() - k,
{
    if k < cs.len() {
        lemma_utf8_count_prefix(cs, k + 1);
        assert(cs.take(k + 1).drop_last() =~= cs.take(k));
    } else {
        assert(cs.take(k) =~= cs);
    }
}

/// Each character moves the byte position by its length, the row by at most one, and the
/// column to at most one more.
proof fn lemma_run_counts(cs: Seq<char>, offset: int, row: int, look: DisplayLook)
    ensures
        display_run(cs, display_start(offset, row), look).pos == offset + utf8_count(cs),
        row <= display_run(cs, display_start(offset, row), look).row <= row + cs.len(),
        0 <= display_run(cs, display_start(offset, row), look).column <= cs.len(),
    decreases cs.len(),
{
    if cs.len() > 0 {
        lemma_run_counts(cs.drop_last(), offset, row, look);
    }
}

/// The characters of the runs of a line, in order.
pub open spec fn line_text(l: Seq<(Seq<char>, Style)>) -> Seq<char>
    decreases l.len(),
{
    if l.len() == 0 {
        Seq::empty()
    } else {
        line_text(l.drop_last()) + l.last().0
    }
}

/// The characters of the runs of all lines, in order.
pub open spec fn lines_text(ls: Seq<Seq<(Seq<char>, Style)>>) -> Seq<char>
    decreases ls.len(),
{
    if ls.len() == 0 {
        Seq::empty()
    } else {
        lines_text(ls.drop_last()) + line_text(ls.last())
    }
}

/// Whether every run of every line is in the plain style.
pub open spec fn all_plain(ls: Seq<Seq<(Seq<char>, Style)>>) -> bool {
    forall|j: int, k: int|
        0 <= j < ls.len() && 0 <= k < ls[j].len() ==> #[trigger] ls[j][k].1 == plain_style()
}

/// The characters that show `cs`: a line break as a space, a tab as spaces, a carriage return
/// as a space.
pub open spec fn shown_text(cs: Seq<char>, tab_size: nat) -> Seq<char>
    decreases cs.len(),
{
    if cs.len() == 0 {
        Seq::empty()
    } else {
        shown_text(cs.drop_last(), tab_size) + if cs.last() == '\n' {
            seq![' ']
        } else {
            shown(cs.last(), tab_size)
        }
    }
}

/// Without selection, rainbow or syntax styles the drawing keeps no run in the current line,
/// and its finished lines and pending characters show the characters read so far.
proof fn lemma_plain_run(cs: Seq<char>, offset: int, row: int, look: DisplayLook)
    requires
        look.highlights.len() == 0,
        look.syntax.len() == 0,
        !look.rainbow_on,
    ensures
        ({
            let st = display_run(cs, display_start(offset, row), look);
            &&& st.line.len() == 0
            &&& !st.highlight
            &&& lines_text(st.lines) + st.acc == shown_text(cs, look.tab_size)
            &&& all_plain(st.lines)
        }),
    decreases cs.len(),
{
    if cs.len() == 0 {
        assert(Seq::<char>::empty() + Seq::<char>::empty() =~= Seq::<char>::empty());
    } else {
        let prev = cs.drop_last();
        lemma_plain_run(prev, offset, row, look);
        let st = display_run(prev, display_start(offset, row), look);
        let c = cs.last();
        assert(!is_highlighted(look.highlights, st.pos));
        assert(syntax_at(look.syntax, st.column + 1, st.row) is None);
        let next = display_run(cs, display_start(offset, row), look);
        if c == '\n' {
            let x = (st.acc, plain_style());
            let l = seq![x, (seq![' '], plain_style())];
            assert(st.line.push(x).push((seq![' '], plain_style())) =~= l);
            assert(next.lines == st.lines.push(l));
            assert(l.drop_last() =~= seq![x]);
            assert(seq![x].drop_last() =~= Seq::<(Seq<char>, Style)>::empty());
            assert(line_text(seq![x]) == line_text(seq![x].drop_last()) + st.acc);
            assert(line_text(seq![x]) =~= st.acc);
            assert(line_text(l) =~= st.acc + seq![' ']);
            assert(next.lines.drop_last() =~= st.lines);
            assert(lines_text(next.lines) + next.acc =~= shown_text(cs, look.tab_size));
            assert forall|j: int, k: int|
                0 <= j < next.lines.len() && 0 <= k < next.lines[j].len() implies #[trigger] next.lines[j][k].1
                == plain_style() by {
                if j < st.lines.len() {
                    assert(next.lines[j] == st.lines[j]);
                }
            }
        } else {
            assert(lines_text(next.lines) + next.acc =~= shown_text(cs, look.tab_size));
        }
    }
}

/// With no selected bytes, no syntax styles and rainbow delimiters off, drawing a text shows
/// every character of it in the plain style: line breaks as spaces, tabs as spaces, carriage
/// returns as spaces.
pub proof fn law_plain_display_shows_the_text(cs: Seq<char>, offset: int, row: int, look: DisplayLook)
    requires
        look.highlights.len() == 0,
        look.syntax.len() == 0,
        !look.rainbow_on,
    ensures
        lines_text(displayed(cs, offset, row, look)) == shown_text(cs, look.tab_size),
        all_plain(displayed(cs, offset, row, look)),
{
    lemma_plain_run(cs, offset, row, look);
    let st = display_run(cs, display_start(offset, row), look);
    if st.acc.len() > 0 {
        let l = seq![(st.acc, plain_style())];
        assert(st.line.push((st.acc, acc_style(st.highlight, look.selected))) =~= l);
        assert(l.drop_last() =~= Seq::<(Seq<char>, Style)>::empty());
        assert(line_text(l) == line_text(l.drop_last()) + st.acc);
        assert(line_text(l) =~= st.acc);
        assert(st.lines.push(l).drop_last() =~= st.lines);
        let out = st.lines.push(l);
        assert forall|j: int, k: int| 0 <= j < out.len() && 0 <= k < out[j].len() implies #[trigger] out[j][k].1
            == plain_style() by {
            if j < st.lines.len() {
                assert(out[j] == st.lines[j]);
            }
        }
    } else {
        assert(st.acc =~= Seq::<char>::empty());
        assert(lines_text(st.lines) + st.acc =~= lines_text(st.lines));
    }
}

/// The drawing's view of the look that the settings and colors give.
pub open spec fn display_look(
    highlights: Seq<usize>,
    syntax: Seq<(usize, usize, Style)>,
    editor: EditorSettings,
    colors: EditorColors,
) -> DisplayLook {
    DisplayLook {
        selected: colors.selected,
        rainbow: colors.rainbow_delimiters@,
        rainbow_on: editor.rainbow_delimiters,
        tab_size: editor.tab_size as nat,
        highlights,
        syntax,
    }
}

/// Whether byte `i` is among the selected bytes.
fn highlighted_at(h: &Vec<usize>, i: usize) -> (b: bool)
    ensures
        b == is_highlighted(h@, i as int),
{
    let mut k: usize = 0;
    while k < h.len()
        invariant
            k <= h@.len(),
            forall|j: int| 0 <= j < k ==> h@[j] != i,
        decreases h.len() - k,
    {
        if h[k] == i {
            return true;
        }
        k = k + 1;
    }
    false
}

/// The style that the first syntax entry for place (`column`, `row`) gives, if there is one.
fn syntax_style_at(syn: &Vec<(usize, usize, Style)>, column: usize, row: usize) -> (r: Option<Style>)
    ensures
        r == syntax_at(syn@, column as int, row as int),
{
    let mut k: usize = 0;
    assert(syn@.skip(0) =~= syn@);
    while k < syn.len()
        invariant
            k <= syn@.len(),
            syntax_at(syn@, column as int, row as int) == syntax_at(syn@.skip(k as int), column as int, row as int),
        decreases syn.len() - k,
    {
        let e = syn[k];
        assert(syn@.skip(k as int).drop_first() =~= syn@.skip(k + 1));
        if e.0 == column && e.1 == row {
            return Some(e.2);
        }
        k = k + 1;
    }
    None
}

/// The drawing under way.
struct Painter {
    acc: String,
    line: Vec<StyledSpan>,
    lines: Vec<StyledLine>,
    highlight: bool,
    open: Vec<(char, Style)>,
    row: usize,
    column: usize,
    pos: usize,
}

impl Painter {
    spec fn state(&self) -> DisplayState {
        DisplayState {
            acc: self.acc@,
            line: spans_view(self.line@),
            lines: lines_view(self.lines@),
            highlight: self.highlight,
            open: self.open@,
            row: self.row as int,
            column: self.column as int,
            pos: self.pos as int,
        }
    }

    /// A run of `text` in `style` is added to the current line.
    fn push_run(&mut self, text: String, style: Style)
        ensures
            final(self).state() == (DisplayState {
                line: old(self).state().line.push((text@, style)),
                ..old(self).state()
            }),
    {
        self.line.push(StyledSpan::styled(text, style));
        proof {
            assert(spans_view(self.line@) =~= spans_view(old(self).line@).push((text@, style)));
        }
    }

    /// The pending characters become a run of the current line.
    fn flush(&mut self, selected: Style)
        ensures
            final(self).state() == flushed(old(self).state(), selected),
    {
        let style = if self.highlight {
            selected
        } else {
            Style::new()
        };
        let mut text = String::new();
        std::mem::swap(&mut text, &mut self.acc);
        self.push_run(text, style);
        proof {
            assert(self.acc@ =~= Seq::<char>::empty());
        }
    }

    /// The current line is finished.
    fn end_line(&mut self)
        ensures
            final(self).state() == (DisplayState {
                lines: old(self).state().lines.push(old(self).state().line),
                line: seq![],
                ..old(self).state()
            }),
    {
        let mut spans: Vec<StyledSpan> = Vec::new();
        std::mem::swap(&mut spans, &mut self.line);
        self.lines.push(StyledLine { spans });
        proof {
            assert(lines_view(self.lines@) =~= lines_view(old(self).lines@).push(spans_view(old(self).line@)));
            assert(spans_view(self.line@) =~= Seq::<(Seq<char>, Style)>::empty());
        }
    }

    /// `c` is added to the pending characters as it is shown.
    fn push_shown(&mut self, c: char, tab_size: u8)
        ensures
            final(self).state() == (DisplayState {
                acc: old(self).state().acc + shown(c, tab_size as nat),
                ..old(self).state()
            }),
    {
        if c == '\t' {
            let mut k: u8 = 0;
            while k < tab_size
                invariant
                    k <= tab_size,
                    self.state() == (DisplayState {
                        acc: old(self).state().acc + Seq::new(k as nat, |j: int| ' '),
                        ..old(self).state()
                    }),
                decreases tab_size - k,
            {
                string_push(&mut self.acc, ' ');
                k = k + 1;
                proof {
                    assert(self.acc@ =~= old(self).acc@ + Seq::new(k as nat, |j: int| ' '));
                }
            }
            proof {
                assert(self.acc@ =~= old(self).acc@ + shown(c, tab_size as nat));
            }
        } else if c == '\r' {
            string_push(&mut self.acc, ' ');
            proof {
                assert(self.acc@ =~= old(self).acc@ + shown(c, tab_size as nat));
            }
        } else {
            string_push(&mut self.acc, c);
            proof {
                assert(self.acc@ =~= old(self).acc@ + shown(c, tab_size as nat));
            }
        }
    }
}

/// Draws `text`, which starts at byte `offset` of a file and on row `row`: selected bytes in
/// the selection style, delimiters in the styles of the rainbow where the settings ask for
/// it, and the places that syntax highlighting gives a style in that style.
pub fn display_text(
    text: &str,
    offset: usize,
    row: usize,
    highlights: &Vec<usize>,
    syntax: &Vec<(usize, usize, Style)>,
    editor: &EditorSettings,
    colors: &EditorColors,
) -> (out: StyledText)
    requires
        offset + utf8_count(text@) <= usize::MAX,
        row + text@.len() <= usize::MAX,
        editor.rainbow_delimiters && colors.rainbow_delimiters@.len() == 0 ==> forall|k: int|
            0 <= k < text@.len() ==> !delimiter_char(#[trigger] text@[k]),
    ensures
        lines_view(out.lines@) == displayed(
            text@,
            offset as int,
            row as int,
            display_look(highlights@, syntax@, *editor, *colors),
        ),
{
    let ghost look = display_look(highlights@, syntax@, *editor, *colors);
    let ghost cs = text@;
    let n = text.unicode_len();
    let selected = colors.selected;
    let rainbow_on = editor.rainbow_delimiters;
    let tab_size = editor.tab_size;
    let mut p = Painter {
        acc: String::new(),
        line: Vec::new(),
        lines: Vec::new(),
        highlight: false,
        open: Vec::new(),
        row,
        column: 0,
        pos: offset,
    };
    proof {
        assert(cs.take(0) =~= Seq::<char>::empty());
        assert(p.acc@ =~= Seq::<char>::empty());
        assert(spans_view(p.line@) =~= Seq::<(Seq<char>, Style)>::empty());
        assert(lines_view(p.lines@) =~= Seq::<Seq<(Seq<char>, Style)>>::empty());
        assert(p.open@ =~= Seq::<(char, Style)>::empty());
    }
    let mut k: usize = 0;
    while k < n
        invariant
            n == cs.len(),
            cs == text@,
            k <= n,
            look == display_look(highlights@, syntax@, *editor, *colors),
            selected == colors.selected,
            rainbow_on == editor.rainbow_delimiters,
            tab_size == editor.tab_size,
            offset + utf8_count(cs) <= usize::MAX,
            row + cs.len() <= usize::MAX,
            rainbow_on && colors.rainbow_delimiters@.len() == 0 ==> forall|j: int|
                0 <= j < cs.len() ==> !delimiter_char(#[trigger] cs[j]),
            p.state() == display_run(cs.take(k as int), display_start(offset as int, row as int), look),
        decreases n - k,
    {
        let c = text.get_char(k);
        proof {
            assert(cs.take(k + 1).drop_last() =~= cs.take(k as int));
            assert(cs.take(k + 1).last() == c);
            lemma_run_counts(cs.take(k as int), offset as int, row as int, look);
            lemma_utf8_count_prefix(cs, k + 1);
        }
        let ghost st0 = p.state();
        let i = p.pos;
        p.column = p.column + 1;
        p.pos = p.pos + len_utf8(c);
        let hl = highlighted_at(highlights, i);
        let delim = is_delimiter(c) && rainbow_on;
        if hl && !delim {
            let was = p.highlight;
            if !was {
                p.flush(selected);
            }
            if c == '\n' {
                string_push(&mut p.acc, ' ');
                let style = if was {
                    selected
                } else {
                    Style::new()
                };
                let mut run = String::new();
                std::mem::swap(&mut run, &mut p.acc);
                p.push_run(run, style);
                p.end_line();
                p.row = p.row + 1;
                p.column = 0;
            } else {
                p.push_shown(c, tab_size);
            }
            p.highlight = true;
        } else if delim {
            p.flush(selected);
            let depth = p.open.len();
            let fresh = colors.rainbow_delimiters[depth % colors.rainbow_delimiters.len()];
            let closes = depth > 0 && is_pair(p.open[depth - 1].0, c);
            let color = if closes {
                let last = p.open[depth - 1];
                let _ = p.open.pop();
                last.1
            } else {
                p.open.push((c, fresh));
                fresh
            };
            let style = if hl {
                selected.patch(color)
            } else {
                color
            };
            p.push_run(char_string(c), style);
            p.highlight = hl;
        } else {
            match syntax_style_at(syntax, p.column, p.row) {
                Some(color) => {
                    let was = p.highlight;
                    p.flush(selected);
                    let style = if was {
                        selected.patch(color)
                    } else {
                        color
                    };
                    p.push_run(char_string(c), style);
                },
                None => {
                    if c == '\n' {
                        p.flush(selected);
                        p.push_run(char_string(' '), Style::new());
                        p.end_line();
                        p.row = p.row + 1;
                        p.column = 0;
                    } else {
                        if p.highlight {
                            p.flush(selected);
                        }
                        p.highlight = false;
                        p.push_shown(c, tab_size);
                    }
                },
            }
        }
        proof {
            assert(p.state() == display_step(st0, c, look));
        }
        k = k + 1;
    }
    proof {
        assert(cs.take(n as int) =~= cs);
    }
    if p.acc.unicode_len() > 0 {
        p.flush(selected);
        p.end_line();
    }
    StyledText { lines: p.lines }
}

} // verus!
