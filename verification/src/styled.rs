use vstd::prelude::*;
use vstd::string::{StrSliceExecFns, StringExecFns};
use crate::buffer::{str_byte_len, string_bytes};
use crate::style::{patched, plain_style, Style};

verus! {

/// Calls `String::push` of std.
/// Claimed: `c` is added at the end of the text.
#[verifier::external_body]
pub(crate) fn string_push(s: &mut String, c: char)
    ensures
        final(s)@ == old(s)@.push(c),
{
    s.push(c)
}

/// Calls `String::pop` of std.
/// Claimed: the last character is taken off and handed back; an empty text stays empty.
#[verifier::external_body]
pub(crate) fn string_pop(s: &mut String) -> (c: Option<char>)
    ensures
        old(s)@.len() > 0 ==> final(s)@ == old(s)@.drop_last() && c == Some(old(s)@.last()),
        old(s)@.len() == 0 ==> final(s)@ == old(s)@ && c is None,
{
    s.pop()
}

/// A text holding the one character `c`.
pub(crate) fn char_string(c: char) -> (s: String)
    ensures
        s@ == seq![c],
{
    let mut s = String::new();
    string_push(&mut s, c);
    proof {
        assert(s@ =~= seq![c]);
    }
    s
}

/// A run of text drawn in one style.
#[derive(Debug, Clone)]
pub struct StyledSpan {
    pub text: String,
    pub style: Style,
}

impl StyledSpan {
    /// A span of `content` in the plain style.
    pub fn raw(content: String) -> (s: StyledSpan)
        ensures
            s.text@ == content@,
            s.style == plain_style(),
    {
        StyledSpan { text: content, style: Style::new() }
    }

    /// A span of `content` in `style`.
    pub fn styled(content: String, style: Style) -> (s: StyledSpan)
        ensures
            s.text@ == content@,
            s.style == style,
    {
        StyledSpan { text: content, style }
    }

    /// The number of bytes of the text.
    pub fn len(&self) -> (n: usize)
        ensures
            n == string_bytes(self.text).len(),
    {
        str_byte_len(self.text.as_str())
    }

    /// Lays `style` over the span's style.
    pub fn patch_style(&mut self, style: Style)
        ensures
            final(self).text == old(self).text,
            final(self).style == patched(old(self).style, style),
    {
        self.style = self.style.patch(style);
    }

    /// Gives the span the plain style.
    pub fn reset_style(&mut self)
        ensures
            final(self).text == old(self).text,
            final(self).style == plain_style(),
    {
        self.style = Style::reset();
    }
}

/// The sum of the byte lengths of the texts of `spans`.
pub open spec fn spans_len(spans: Seq<StyledSpan>) -> nat
    decreases spans.len(),
{
    if spans.len() == 0 {
        0
    } else {
        spans_len(spans.drop_last()) + string_bytes(spans.last().text).len()
    }
}

/// A prefix of spans is never longer than the whole.
pub proof fn lemma_spans_len_prefix(spans: Seq<StyledSpan>, i: int)
    requires
        0 <= i <= spans.len(),
    ensures
        spans_len(spans.take(i)) <= spans_len(spans),
    decreases spans.len() - i,
{
    if i < spans.len() {
        lemma_spans_len_prefix(spans, i + 1);
        assert(spans.take(i + 1).drop_last() =~= spans.take(i));
    } else {
        assert(spans.take(i) =~= spans);
    }
}

/// A line of styled spans.
#[derive(Debug, Clone)]
pub struct StyledLine {
    pub spans: Vec<StyledSpan>,
}

impl StyledLine {
    /// A line without spans.
    pub fn new() -> (l: StyledLine)
        ensures
            l.spans@ == Seq::<StyledSpan>::empty(),
    {
        StyledLine { spans: Vec::new() }
    }

    /// Adds `span` at the end.
    pub fn push(&mut self, span: StyledSpan)
        ensures
            final(self).spans@ == old(self).spans@.push(span),
    {
        self.spans.push(span);
    }

    /// Adds `spans` at the end, in order.
    pub fn extend(&mut self, spans: Vec<StyledSpan>)
        ensures
            final(self).spans@ == old(self).spans@ + spans@,
    {
        let mut spans = spans;
        self.spans.append(&mut spans);
    }

    /// The number of bytes of the line's text.
    pub fn len(&self) -> (n: usize)
        requires
            spans_len(self.spans@) <= usize::MAX,
        ensures
            n == spans_len(self.spans@),
    {
        let mut i: usize = 0;
        let mut n: usize = 0;
        assert(self.spans@.take(0) =~= Seq::<StyledSpan>::empty());
        while i < self.spans.len()
            invariant
                i <= self.spans@.len(),
                n == spans_len(self.spans@.take(i as int)),
                spans_len(self.spans@) <= usize::MAX,
            decreases self.spans.len() - i,
        {
            proof {
                assert(self.spans@.take(i + 1).drop_last() =~= self.spans@.take(i as int));
                lemma_spans_len_prefix(self.spans@, i + 1);
            }
            n = n + self.spans[i].len();
            i = i + 1;
        }
        assert(self.spans@.take(i as int) =~= self.spans@);
        n
    }

    /// Puts `span` at `index`, moving the later spans one place on.
    pub fn insert(&mut self, index: usize, span: StyledSpan)
        requires
            index <= old(self).spans@.len(),
        ensures
            final(self).spans@ == old(self).spans@.insert(index as int, span),
    {
        self.spans.insert(index, span);
    }
}

/// `cur` without a final carriage return.
pub open spec fn strip_cr(cur: Seq<char>) -> Seq<char> {
    if cur.len() > 0 && cur.last() == '\r' {
        cur.drop_last()
    } else {
        cur
    }
}

/// The lines of `cs`, the current line having begun with `cur`: a line ends at a line feed,
/// which it loses together with a carriage return just before it; after a final line feed no
/// empty line follows.
pub open spec fn lines_from(cs: Seq<char>, cur: Seq<char>) -> Seq<Seq<char>>
    decreases cs.len(),
{
    if cs.len() == 0 {
        if cur.len() == 0 {
            Seq::empty()
        } else {
            seq![cur]
        }
    } else if cs[0] == '\n' {
        seq![strip_cr(cur)] + lines_from(cs.drop_first(), Seq::empty())
    } else {
        lines_from(cs.drop_first(), cur.push(cs[0]))
    }
}

/// The lines of a text, as `str::lines` of std splits it.
pub open spec fn text_lines(cs: Seq<char>) -> Seq<Seq<char>> {
    lines_from(cs, Seq::empty())
}

/// The lines that `StyledText::raw` makes of a text: one empty line for the empty text.
pub open spec fn raw_lines(cs: Seq<char>) -> Seq<Seq<char>> {
    if cs.len() == 0 {
        seq![Seq::empty()]
    } else {
        text_lines(cs)
    }
}

/// Whether `l` is one span of text `t` in the plain style.
pub open spec fn is_raw_line(l: StyledLine, t: Seq<char>) -> bool {
    &&& l.spans@.len() == 1
    &&& l.spans@[0].text@ == t
    &&& l.spans@[0].style == plain_style()
}

/// The sum of the byte lengths of the lines of `lines`.
pub open spec fn lines_len(lines: Seq<StyledLine>) -> nat
    decreases lines.len(),
{
    if lines.len() == 0 {
        0
    } else {
        lines_len(lines.drop_last()) + spans_len(lines.last().spans@)
    }
}

/// A prefix of lines is never longer than the whole.
pub proof fn lemma_lines_len_prefix(lines: Seq<StyledLine>, i: int)
    requires
        0 <= i <= lines.len(),
    ensures
        lines_len(lines.take(i)) <= lines_len(lines),
    decreases lines.len() - i,
{
    if i < lines.len() {
        lemma_lines_len_prefix(lines, i + 1);
        assert(lines.take(i + 1).drop_last() =~= lines.take(i));
    } else {
        assert(lines.take(i) =~= lines);
    }
}

/// A text of styled lines.
#[derive(Debug, Clone)]
pub struct StyledText {
    pub lines: Vec<StyledLine>,
}

impl StyledText {
    /// A text without lines.
    pub fn new() -> (t: StyledText)
        ensures
            t.lines@ == Seq::<StyledLine>::empty(),
    {
        StyledText { lines: Vec::new() }
    }

    /// The lines of `content`, each one span in the plain style.
    pub fn raw(content: &str) -> (t: StyledText)
        ensures
            t.lines@.len() == raw_lines(content@).len(),
            forall|j: int|
                0 <= j < t.lines@.len() ==> is_raw_line(#[trigger] t.lines@[j], raw_lines(content@)[j]),
    {
        let mut lines: Vec<StyledLine> = Vec::new();
        let n = content.unicode_len();
        if n == 0 {
            let mut l = StyledLine::new();
            l.push(StyledSpan::raw(String::new()));
            lines.push(l);
            return StyledText { lines };
        }
        let ghost cs = content@;
        let ghost mut got: Seq<Seq<char>> = Seq::empty();
        let mut cur = String::new();
        let mut i: usize = 0;
        assert(cs.skip(0) =~= cs);
        while i < n
            invariant
                n == cs.len(),
                cs == content@,
                i <= n,
                lines@.len() == got.len(),
                forall|j: int| 0 <= j < lines@.len() ==> is_raw_line(#[trigger] lines@[j], got[j]),
                text_lines(cs) == got + lines_from(cs.skip(i as int), cur@),
            decreases n - i,
        {
            let c = content.get_char(i);
            proof {
                assert(cs.skip(i as int).drop_first() =~= cs.skip(i + 1));
                assert(cs.skip(i as int)[0] == c);
            }
            if c == '\n' {
                let ghost before = cur@;
                if cur.as_str().unicode_len() > 0 && cur.as_str().get_char(cur.as_str().unicode_len() - 1)
                    == '\r' {
                    string_pop(&mut cur);
                }
                assert(cur@ == strip_cr(before));
                let mut l = StyledLine::new();
                l.push(StyledSpan::raw(cur));
                lines.push(l);
                proof {
                    got = got.push(strip_cr(before));
                    assert(text_lines(cs) =~= got + lines_from(cs.skip(i + 1), Seq::empty()));
                }
                cur = String::new();
            } else {
                string_push(&mut cur, c);
            }
            i = i + 1;
        }
        proof {
            assert(cs.skip(n as int) =~= Seq::<char>::empty());
        }
        if cur.as_str().unicode_len() > 0 {
            let ghost last = cur@;
            let mut l = StyledLine::new();
            l.push(StyledSpan::raw(cur));
            lines.push(l);
            proof {
                got = got.push(last);
                assert(text_lines(cs) =~= got);
            }
        } else {
            assert(text_lines(cs) =~= got);
        }
        StyledText { lines }
    }

    /// Takes away every line.
    pub fn clear(&mut self)
        ensures
            final(self).lines@ == Seq::<StyledLine>::empty(),
    {
        self.lines.clear();
    }

    /// Whether the text has no line.
    pub fn is_empty(&self) -> (b: bool)
        ensures
            b == (self.lines@.len() == 0),
    {
        self.lines.len() == 0
    }

    /// The number of bytes of the text.
    pub fn len(&self) -> (n: usize)
        requires
            lines_len(self.lines@) <= usize::MAX,
        ensures
            n == lines_len(self.lines@),
    {
        let mut i: usize = 0;
        let mut n: usize = 0;
        assert(self.lines@.take(0) =~= Seq::<StyledLine>::empty());
        while i < self.lines.len()
            invariant
                i <= self.lines@.len(),
                n == lines_len(self.lines@.take(i as int)),
                lines_len(self.lines@) <= usize::MAX,
            decreases self.lines.len() - i,
        {
            proof {
                assert(self.lines@.take(i + 1).drop_last() =~= self.lines@.take(i as int));
                lemma_lines_len_prefix(self.lines@, i + 1);
            }
            n = n + self.lines[i].len();
            i = i + 1;
        }
        assert(self.lines@.take(i as int) =~= self.lines@);
        n
    }

    /// The number of lines.
    pub fn rows(&self) -> (n: usize)
        ensures
            n == self.lines@.len(),
    {
        self.lines.len()
    }
}

impl Default for StyledText {
    fn default() -> (t: StyledText)
        ensures
            t.lines@ == Seq::<StyledLine>::empty(),
    {
        StyledText::new()
    }
}

} // verus!
