use vstd::prelude::*;
use crate::rect::Rect;
use crate::styled::{lines_len, string_push, StyledLine, StyledSpan, StyledText};
use crate::style::plain_style;

verus! {

/// The status bar, drawn inside a rectangle of the screen.
pub struct Status {
    rect: Rect,
}

/// The spans of all the lines of a text, line after line.
pub open spec fn all_spans(lines: Seq<StyledLine>) -> Seq<StyledSpan>
    decreases lines.len(),
{
    if lines.len() == 0 {
        Seq::empty()
    } else {
        all_spans(lines.drop_last()) + lines.last().spans@
    }
}

/// Whether the spans `s` are those of `a`, a plain space, those of `b`, `rem` plain spaces,
/// and those of `c`.
pub open spec fn bar_shows(s: Seq<StyledSpan>, a: Seq<StyledSpan>, b: Seq<StyledSpan>, c: Seq<StyledSpan>, rem: nat) -> bool {
    let i = a.len() as int;
    let j = (a.len() + 1 + b.len()) as int;
    &&& s.len() == a.len() + b.len() + c.len() + 2
    &&& s.subrange(0, i) == a
    &&& s[i].text@ == " "@
    &&& s[i].style == plain_style()
    &&& s.subrange(i + 1, j) == b
    &&& s[j].text@ == spaces(rem)
    &&& s[j].style == plain_style()
    &&& s.subrange(j + 1, s.len() as int) == c
}

/// `n` spaces.
pub open spec fn spaces(n: nat) -> Seq<char> {
    Seq::new(n, |i: int| ' ')
}

/// Moves the spans of every line of `text` into `line`, in order.
fn extend_with_text(line: &mut StyledLine, text: StyledText)
    ensures
        final(line).spans@ == old(line).spans@ + all_spans(text.lines@),
{
    let mut lines = text.lines;
    let ghost ls = lines@;
    let ghost mut i: int = 0;
    proof {
        assert(ls.take(0) =~= Seq::empty());
        assert(lines@ =~= ls.skip(0));
        assert(line.spans@ =~= old(line).spans@ + all_spans(ls.take(0)));
    }
    while lines.len() > 0
        invariant
            0 <= i <= ls.len(),
            lines@.len() + i == ls.len(),
            lines@ == ls.skip(i),
            line.spans@ == old(line).spans@ + all_spans(ls.take(i)),
        decreases lines.len(),
    {
        let ghost old_lines = lines@;
        let l = lines.remove(0);
        proof {
            assert(l == ls[i]);
            assert(lines@ =~= ls.skip(i + 1));
            assert(ls.take(i + 1).drop_last() =~= ls.take(i));
        }
        line.extend(l.spans);
        proof {
            assert(line.spans@ =~= old(line).spans@ + all_spans(ls.take(i + 1)));
            i = i + 1;
        }
    }
    proof {
        assert(ls.take(i) =~= ls);
    }
}

/// A text of `n` spaces.
fn repeat_space(n: usize) -> (s: String)
    ensures
        s@ == spaces(n as nat),
{
    let mut s = String::new();
    let mut i: usize = 0;
    while i < n
        invariant
            i <= n,
            s@ == spaces(i as nat),
        decreases n - i,
    {
        string_push(&mut s, ' ');
        assert(s@ =~= spaces((i + 1) as nat));
        i = i + 1;
    }
    s
}

impl Status {
    /// The status bar inside `rect`.
    pub fn new(rect: Rect) -> (s: Self)
        ensures
            s.rect_view() == rect,
    {
        Self { rect }
    }

    /// The rectangle of the bar.
    pub closed spec fn rect_view(&self) -> Rect {
        self.rect
    }

    /// One line: the spans of `name`, a space, the spans of `first`, as many spaces as the
    /// bar is wider than the three texts and one more column, and the spans of `second`.
    pub fn create_bar(self, name: StyledText, first: StyledText, second: StyledText) -> (bar: StyledText)
        requires
            lines_len(name.lines@) + lines_len(first.lines@) + lines_len(second.lines@) + 1 <= usize::MAX,
        ensures
            bar.lines@.len() == 1,
            bar_shows(
                bar.lines@[0].spans@,
                all_spans(name.lines@),
                all_spans(first.lines@),
                all_spans(second.lines@),
                if self.rect_view().width >= lines_len(name.lines@) + lines_len(first.lines@) + lines_len(
                    second.lines@,
                ) + 1 {
                    (self.rect_view().width - (lines_len(name.lines@) + lines_len(first.lines@) + lines_len(
                        second.lines@,
                    ) + 1)) as nat
                } else {
                    0
                },
            ),
    {
        let total = name.len() + first.len() + second.len() + 1;
        let ghost a = all_spans(name.lines@);
        let ghost b = all_spans(first.lines@);
        let ghost c = all_spans(second.lines@);
        let mut bar = StyledLine::new();
        extend_with_text(&mut bar, name);
        let sp1 = StyledSpan::raw(repeat_space(1));
        let ghost g1 = sp1;
        bar.push(sp1);
        extend_with_text(&mut bar, first);
        let remaining = self.rect.width.saturating_sub(total);
        let sp2 = StyledSpan::raw(repeat_space(remaining));
        let ghost g2 = sp2;
        bar.push(sp2);
        extend_with_text(&mut bar, second);
        proof {
            reveal_strlit(" ");
            assert(spaces(1) =~= " "@);
            let sp = bar.spans@;
            assert(sp =~= a + seq![g1] + b + seq![g2] + c);
            let i = a.len() as int;
            let j = (a.len() + 1 + b.len()) as int;
            assert(sp.subrange(0, i) =~= a);
            assert(sp.subrange(i + 1, j) =~= b);
            assert(sp.subrange(j + 1, sp.len() as int) =~= c);
            assert(sp[i] == g1);
            assert(sp[j] == g2);
        }
        let mut out = StyledText::new();
        out.lines.push(bar);
        out
    }
}

} // verus!
