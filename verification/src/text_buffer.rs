use vstd::prelude::*;
use vstd::string::{StrSliceExecFns, StringExecFns};
use crate::colors::NumberBarColor;
use crate::display::spans_view;
use crate::editor_settings::NumberLineStyle;
use crate::line_edit::chars_from;
use crate::modes::usize_to_decimal;
use crate::style::{decimal, Style};
use crate::styled::{string_push, StyledLine, StyledSpan, StyledText};

verus! {

/// How the text of a buffer is to be drawn: the style of the line numbers, the row of the
/// cursor, the first row shown and the columns scrolled past.
pub struct BufferText {
    number_line_type: NumberLineStyle,
    cursor_row: Option<usize>,
    start_row: usize,
    scroll_cols: Option<usize>,
}

/// The settings of a buffer text.
pub struct BufferTextView {
    pub number_line_type: NumberLineStyle,
    pub cursor_row: Option<usize>,
    pub start_row: usize,
    pub scroll_cols: Option<usize>,
}

impl View for BufferText {
    type V = BufferTextView;

    closed spec fn view(&self) -> BufferTextView {
        BufferTextView {
            number_line_type: self.number_line_type,
            cursor_row: self.cursor_row,
            start_row: self.start_row,
            scroll_cols: self.scroll_cols,
        }
    }
}

impl BufferText {
    /// A text without line numbers, cursor row or scrolling, shown from the first row.
    pub fn new() -> (b: Self)
        ensures
            b@ == (BufferTextView {
                number_line_type: NumberLineStyle::Hidden,
                cursor_row: None,
                start_row: 0,
                scroll_cols: None,
            }),
    {
        Self { number_line_type: NumberLineStyle::Hidden, cursor_row: None, start_row: 0, scroll_cols: None }
    }

    /// The same with line numbers of the style `number_line_type`.
    pub fn add_number_line_style(self, number_line_type: NumberLineStyle) -> (b: Self)
        ensures
            b@ == (BufferTextView { number_line_type, ..self@ }),
    {
        let mut b = self;
        b.number_line_type = number_line_type;
        b
    }

    /// The same with the cursor on row `cursor_row`.
    pub fn add_current_row(self, cursor_row: usize) -> (b: Self)
        ensures
            b@ == (BufferTextView { cursor_row: Some(cursor_row), ..self@ }),
    {
        let mut b = self;
        b.cursor_row = Some(cursor_row);
        b
    }

    /// The same shown from row `start_row`.
    pub fn set_start_row(self, start_row: usize) -> (b: Self)
        ensures
            b@ == (BufferTextView { start_row, ..self@ }),
    {
        let mut b = self;
        b.start_row = start_row;
        b
    }

    /// The same scrolled past `scroll_cols` columns.
    pub fn set_scroll_cols(self, scroll_cols: usize) -> (b: Self)
        ensures
            b@ == (BufferTextView { scroll_cols: Some(scroll_cols), ..self@ }),
    {
        let mut b = self;
        b.scroll_cols = Some(scroll_cols);
        b
    }
}


/// The number of powers of ten from `places` on (each ten times the one before) that are no
/// larger than `n`.
pub open spec fn powers_up_to(places: nat, n: nat) -> nat
    decreases (if places <= n { (n + 1 - places) as nat } else { 0nat }),
    when places >= 1
{
    if places <= n {
        proof {
            assert(places * 10 >= places + 1) by (nonlinear_arith)
                requires
                    places >= 1,
            ;
        }
        1 + powers_up_to(places * 10, n)
    } else {
        0
    }
}

/// Ten to the power `k`.
pub open spec fn pow10(k: nat) -> nat
    decreases k,
{
    if k == 0 {
        1
    } else {
        10 * pow10((k - 1) as nat)
    }
}

/// A larger power of ten is no smaller.
pub proof fn lemma_pow10_mono(j: nat, k: nat)
    requires
        j <= k,
    ensures
        pow10(j) <= pow10(k),
    decreases k,
{
    if j < k {
        lemma_pow10_mono(j, (k - 1) as nat);
    }
}

/// The width of the line numbers of a file of `line_count` lines in the style `style`: none
/// where they are hidden, one column per decimal digit of the count for absolute numbers, and
/// three more for relative ones.
pub open spec fn number_line_width_of(style: NumberLineStyle, line_count: nat) -> nat {
    match style {
        NumberLineStyle::Hidden => 0,
        NumberLineStyle::Relative => 3 + powers_up_to(1, line_count),
        NumberLineStyle::Absolute => powers_up_to(1, line_count),
    }
}

/// The width of the line numbers of a file of `line_count` lines in the style `style`.
pub fn number_line_width(style: NumberLineStyle, line_count: usize) -> (w: usize)
    requires
        line_count < 10_000_000_000_000_000_000,
    ensures
        w == number_line_width_of(style, line_count as nat),
{
    let base: usize = match style {
        NumberLineStyle::Hidden => {
            return 0;
        },
        NumberLineStyle::Relative => 3,
        NumberLineStyle::Absolute => 0,
    };
    let mut places: u128 = 1;
    let mut width: usize = base;
    let ghost mut k: nat = 0;
    proof {
        reveal_with_fuel(pow10, 20);
        assert(pow10(19) == 10_000_000_000_000_000_000);
    }
    while places <= line_count as u128
        invariant
            pow10(19) == 10_000_000_000_000_000_000,
            places == pow10(k),
            places >= 1,
            width == base + k,
            base <= 3,
            k <= 19,
            line_count < 10_000_000_000_000_000_000,
            width + powers_up_to(places as nat, line_count as nat) == base + powers_up_to(1, line_count as nat),
        decreases (if places <= line_count as u128 { line_count + 1 - places } else { 0 }),
    {
        proof {
            if k >= 19 {
                lemma_pow10_mono(19, k);
            }
        }
        places = places * 10;
        width = width + 1;
        proof {
            k = k + 1;
        }
    }
    width
}

/// The runs of a line without its first `n` characters: runs used up go empty, the one where
/// the count ends loses its first characters, and the rest stay.
pub open spec fn drop_line(l: Seq<(Seq<char>, Style)>, n: nat) -> Seq<(Seq<char>, Style)>
    decreases l.len(),
{
    if l.len() == 0 {
        l
    } else if n <= l[0].0.len() {
        seq![(l[0].0.skip(n as int), l[0].1)] + l.drop_first()
    } else {
        seq![(Seq::<char>::empty(), l[0].1)] + drop_line(l.drop_first(), (n - l[0].0.len()) as nat)
    }
}

/// Dropping nothing keeps a line as it is.
proof fn lemma_drop_nothing(l: Seq<(Seq<char>, Style)>)
    ensures
        drop_line(l, 0) == l,
{
    if l.len() > 0 {
        assert(l[0].0.skip(0) =~= l[0].0);
        assert(seq![(l[0].0.skip(0), l[0].1)] + l.drop_first() =~= l);
    }
}

/// `n` spaces.
pub open spec fn blanks(n: nat) -> Seq<char> {
    Seq::new(n, |i: int| ' ')
}

/// `s` with spaces before it up to `w` characters: right aligned.
pub open spec fn aligned_right(s: Seq<char>, w: nat) -> Seq<char> {
    if s.len() < w {
        blanks((w - s.len()) as nat) + s
    } else {
        s
    }
}

/// `s` with spaces after it up to `w` characters: left aligned.
pub open spec fn aligned_left(s: Seq<char>, w: nat) -> Seq<char> {
    if s.len() < w {
        s + blanks((w - s.len()) as nat)
    } else {
        s
    }
}

/// The `i`-th line `line` of a text drawn with the settings `v`, the number styles `bar` and
/// line numbers `w` wide: scrolled columns are dropped; absolute numbers count rows from one,
/// right aligned, in the current line's style on the cursor's row; relative numbers, shown
/// only where the cursor's row is known, give the cursor's row its number left aligned and
/// every other row its distance from it, right aligned.
pub open spec fn numbered_line(
    v: BufferTextView,
    bar: NumberBarColor,
    line: Seq<(Seq<char>, Style)>,
    i: nat,
    w: nat,
) -> Seq<(Seq<char>, Style)> {
    let shown = match v.scroll_cols {
        Some(c) => drop_line(line, c as nat),
        None => line,
    };
    let r = i + v.start_row;
    match v.number_line_type {
        NumberLineStyle::Hidden => shown,
        NumberLineStyle::Relative => match v.cursor_row {
            None => shown,
            Some(row) => if r == row {
                seq![(aligned_left(decimal((r + 1) as nat), w), bar.current_line)] + shown
            } else {
                let d = if r > row { r - row } else { row - r };
                seq![(aligned_right(decimal(d as nat), w), bar.other_lines)] + shown
            },
        },
        NumberLineStyle::Absolute => seq![
            (aligned_right(decimal((r + 1) as nat), w), if v.cursor_row == Some(r as usize) {
                bar.current_line
            } else {
                bar.other_lines
            }),
        ] + shown,
    }
}

/// The runs of `l` without its first `n` characters.
fn dropped_line(l: &StyledLine, n: usize) -> (out: Vec<StyledSpan>)
    ensures
        spans_view(out@) == drop_line(spans_view(l.spans@), n as nat),
{
    let ghost sv = spans_view(l.spans@);
    let mut out: Vec<StyledSpan> = Vec::new();
    let mut rest = n;
    let mut k: usize = 0;
    assert(sv.skip(0) =~= sv);
    assert(spans_view(out@) =~= Seq::<(Seq<char>, Style)>::empty());
    while k < l.spans.len()
        invariant
            k <= l.spans@.len(),
            sv == spans_view(l.spans@),
            spans_view(out@) + drop_line(sv.skip(k as int), rest as nat) == drop_line(sv, n as nat),
        decreases l.spans.len() - k,
    {
        let ghost x = sv.skip(k as int);
        assert(x.drop_first() =~= sv.skip(k + 1));
        assert(x[0] == (l.spans@[k as int].text@, l.spans@[k as int].style));
        let t = l.spans[k].text.as_str();
        let style = l.spans[k].style;
        let len = t.unicode_len();
        let ghost before = out@;
        if rest <= len {
            out.push(StyledSpan::styled(chars_from(t, rest), style));
            proof {
                lemma_drop_nothing(sv.skip(k + 1));
                assert(spans_view(out@) =~= spans_view(before).push((t@.skip(rest as int), style)));
                assert(spans_view(out@) + drop_line(sv.skip(k + 1), 0) =~= drop_line(sv, n as nat));
            }
            rest = 0;
        } else {
            out.push(StyledSpan::styled(String::new(), style));
            proof {
                assert(spans_view(out@) =~= spans_view(before).push((Seq::<char>::empty(), style)));
                assert(spans_view(out@) + drop_line(sv.skip(k + 1), (rest - len) as nat) =~= drop_line(sv, n as nat));
            }
            rest = rest - len;
        }
        k = k + 1;
    }
    assert(sv.skip(k as int) =~= Seq::<(Seq<char>, Style)>::empty());
    assert(spans_view(out@) =~= drop_line(sv, n as nat));
    out
}

/// `s` padded with spaces to `w` characters, before it where `right`, else after it.
fn aligned(s: String, w: usize, right: bool) -> (out: String)
    ensures
        out@ == if right {
            aligned_right(s@, w as nat)
        } else {
            aligned_left(s@, w as nat)
        },
{
    let len = s.unicode_len();
    if len >= w {
        return s;
    }
    let mut pad = String::new();
    let mut k: usize = 0;
    while k < w - len
        invariant
            k <= w - len,
            pad@ == blanks(k as nat),
        decreases w - len - k,
    {
        string_push(&mut pad, ' ');
        k = k + 1;
        assert(pad@ =~= blanks(k as nat));
    }
    if right {
        pad.append(s.as_str());
        pad
    } else {
        let mut out = s;
        out.append(pad.as_str());
        out
    }
}

impl BufferText {
    /// Draws the lines of `text` with line numbers in the number styles `bar`, the scrolled
    /// columns dropped.
    pub fn draw(self, text: StyledText, bar: &NumberBarColor) -> (out: StyledText)
        requires
            self@.start_row + text.lines@.len() < 10_000_000_000_000_000_000,
            self@.start_row + text.lines@.len() < usize::MAX,
        ensures
            out.lines@.len() == text.lines@.len(),
            forall|i: int|
                0 <= i < out.lines@.len() ==> spans_view(#[trigger] out.lines@[i].spans@) == numbered_line(
                    self@,
                    *bar,
                    spans_view(text.lines@[i].spans@),
                    i as nat,
                    number_line_width_of(self@.number_line_type, (self@.start_row + text.lines@.len()) as nat),
                ),
    {
        let rows = text.lines.len();
        let w = number_line_width(self.number_line_type, self.start_row + rows);
        let mut lines: Vec<StyledLine> = Vec::new();
        let mut i: usize = 0;
        while i < rows
            invariant
                i <= rows,
                rows == text.lines@.len(),
                self.start_row + rows < 10_000_000_000_000_000_000,
                self.start_row + rows < usize::MAX,
                w == number_line_width_of(self@.number_line_type, (self@.start_row + rows) as nat),
                lines@.len() == i,
                forall|j: int|
                    0 <= j < i ==> spans_view(#[trigger] lines@[j].spans@) == numbered_line(
                        self@,
                        *bar,
                        spans_view(text.lines@[j].spans@),
                        j as nat,
                        w as nat,
                    ),
            decreases rows - i,
        {
            let cols = match self.scroll_cols {
                Some(c) => c,
                None => 0,
            };
            let shown = dropped_line(&text.lines[i], cols);
            proof {
                if self.scroll_cols is None {
                    lemma_drop_nothing(spans_view(text.lines@[i as int].spans@));
                }
            }
            let mut line = StyledLine { spans: shown };
            let r = i + self.start_row;
            let ghost base = spans_view(line.spans@);
            let number: Option<(String, Style)> = match self.number_line_type {
                NumberLineStyle::Hidden => None,
                NumberLineStyle::Relative => match self.cursor_row {
                    None => None,
                    Some(row) => if r == row {
                        Some((aligned(usize_to_decimal(r + 1), w, false), bar.current_line))
                    } else {
                        let d = if r > row {
                            r - row
                        } else {
                            row - r
                        };
                        Some((aligned(usize_to_decimal(d), w, true), bar.other_lines))
                    },
                },
                NumberLineStyle::Absolute => {
                    let style = match self.cursor_row {
                        Some(row) => if row == r {
                            bar.current_line
                        } else {
                            bar.other_lines
                        },
                        None => bar.other_lines,
                    };
                    Some((aligned(usize_to_decimal(r + 1), w, true), style))
                },
            };
            match number {
                Some((t, style)) => {
                    let ghost tv = t@;
                    line.insert(0, StyledSpan::styled(t, style));
                    proof {
                        assert(spans_view(line.spans@) =~= seq![(tv, style)] + base);
                    }
                },
                None => {},
            }
            let ghost prev = lines@;
            lines.push(line);
            proof {
                assert forall|j: int| 0 <= j < i + 1 implies spans_view(#[trigger] lines@[j].spans@) == numbered_line(
                    self@,
                    *bar,
                    spans_view(text.lines@[j].spans@),
                    j as nat,
                    w as nat,
                ) by {
                    if j < i {
                        assert(lines@[j] == prev[j]);
                    }
                }
            }
            i = i + 1;
        }
        StyledText { lines }
    }
}

} // verus!
