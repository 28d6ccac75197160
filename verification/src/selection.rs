use std::collections::HashSet;
use vstd::prelude::*;
use vstd::string::StringExecFns;
use vstd::utf8::*;
use crate::buffer::{
    apply_edits, apply_edits_rev, bulk_edits, bulk_pair_insertions, deletion, edits_fit, edits_rev_fit,
    insertion, string_bytes, Buffer, BufferView, Edit,
};
use crate::styled::string_push;
use crate::registers::texts_view;

verus! {

broadcast use vstd::std_specs::hash::group_hash_axioms;

/// The runs of consecutive highlighted bytes below `n`, in order, each as its first and its
/// last byte.
pub open spec fn runs_below(h: Set<usize>, n: nat) -> Seq<(usize, usize)>
    decreases n,
{
    if n == 0 {
        Seq::empty()
    } else {
        let prev = runs_below(h, (n - 1) as nat);
        let b = (n - 1) as usize;
        if !h.contains(b) {
            prev
        } else if n >= 2 && h.contains((n - 2) as usize) {
            prev.update(prev.len() - 1, (prev.last().0, b))
        } else {
            prev.push((b, b))
        }
    }
}

/// Whether every highlighted byte lies below `n`.
pub open spec fn highlights_below(h: Set<usize>, n: int) -> bool {
    forall|b: usize| h.contains(b) ==> b < n
}

/// The runs that copying, replacing and wrapping act on: all of them, but the last where it
/// is one byte long.
pub open spec fn selected_runs(rs: Seq<(usize, usize)>) -> Seq<(usize, usize)> {
    if rs.len() > 0 && rs.last().0 == rs.last().1 {
        rs.drop_last()
    } else {
        rs
    }
}

/// The runs that deleting acts on, from the last to the first: all of them, but the first
/// where it is one byte long.
pub open spec fn deleted_runs(rs: Seq<(usize, usize)>) -> Seq<(usize, usize)> {
    let keep = if rs.len() > 0 && rs[0].0 == rs[0].1 {
        rs.drop_first()
    } else {
        rs
    };
    Seq::new(keep.len(), |i: int| keep[keep.len() - 1 - i])
}

/// The characters that copying a run gives: each byte taken as the character of that number.
pub open spec fn run_chars(t: Seq<u8>, r: (usize, usize)) -> Seq<char> {
    Seq::new((r.1 - r.0 + 1) as nat, |k: int| t[r.0 + k] as char)
}

/// The characters that copying each run of `rs` gives.
pub open spec fn runs_chars(t: Seq<u8>, rs: Seq<(usize, usize)>) -> Seq<Seq<char>> {
    rs.map_values(|q: (usize, usize)| run_chars(t, q))
}

/// The deletion of a run's bytes.
pub open spec fn run_deletion(r: (usize, usize)) -> Edit {
    Edit { start: r.0 as int, end: r.1 + 1, text: Seq::empty() }
}

/// The edits that replace the runs `rs` by the texts `ts`, as far as both go.
pub open spec fn run_replacements(rs: Seq<(usize, usize)>, ts: Seq<Seq<char>>) -> Seq<Edit> {
    Seq::new(
        if rs.len() <= ts.len() { rs.len() } else { ts.len() },
        |i: int| Edit { start: rs[i].0 as int, end: rs[i].1 + 1, text: encode_utf8(ts[i]) },
    )
}

/// The edits that put `open` before and `close` after each run of `rs`.
pub open spec fn run_wrappings(rs: Seq<(usize, usize)>, open: Seq<char>, close: Seq<char>) -> Seq<Edit> {
    Seq::new(
        2 * rs.len(),
        |i: int|
            if i % 2 == 0 {
                insertion(rs[i / 2].0 as int, encode_utf8(open))
            } else {
                insertion(rs[i / 2].1 + 1, encode_utf8(close))
            },
    )
}

/// The last run below `n` ends at byte `n - 1` where that byte is highlighted.
proof fn lemma_runs_last(h: Set<usize>, n: nat)
    requires
        n >= 1,
        h.contains((n - 1) as usize),
        n - 1 <= usize::MAX,
    ensures
        runs_below(h, n).len() > 0,
        runs_below(h, n).last().1 == n - 1,
    decreases n,
{
    if n >= 2 && h.contains((n - 2) as usize) {
        lemma_runs_last(h, (n - 1) as nat);
    }
}

/// Each run below `n` lies below `n` with its first byte no later than its last, and there is
/// a run exactly where a byte below `n` is highlighted; the first run starts at the least
/// highlighted byte.
pub proof fn lemma_runs_shape(h: Set<usize>, n: nat)
    requires
        n <= usize::MAX + 1,
    ensures
        forall|k: int|
            0 <= k < runs_below(h, n).len() ==> #[trigger] runs_below(h, n)[k].0 <= runs_below(h, n)[k].1 < n,
        runs_below(h, n).len() == 0 <==> (forall|b: usize| b < n ==> !h.contains(b)),
        runs_below(h, n).len() > 0 ==> h.contains(runs_below(h, n)[0].0) && forall|b: usize|
            b < runs_below(h, n)[0].0 ==> !h.contains(b),
    decreases n,
{
    if n > 0 {
        lemma_runs_shape(h, (n - 1) as nat);
        let prev = runs_below(h, (n - 1) as nat);
        let b = (n - 1) as usize;
        if h.contains(b) && n >= 2 && h.contains((n - 2) as usize) {
            lemma_runs_last(h, (n - 1) as nat);
        }
        let rs = runs_below(h, n);
        if !h.contains(b) {
            assert(rs == prev);
        } else if n >= 2 && h.contains((n - 2) as usize) {
            assert(rs == prev.update(prev.len() - 1, (prev.last().0, b)));
            assert forall|k: int| 0 <= k < rs.len() implies #[trigger] rs[k].0 <= rs[k].1 < n by {
                if k == prev.len() - 1 {
                    assert(prev[k].0 <= prev[k].1);
                } else {
                    assert(rs[k] == prev[k]);
                }
            }
        } else {
            assert(rs == prev.push((b, b)));
            assert forall|k: int| 0 <= k < rs.len() implies #[trigger] rs[k].0 <= rs[k].1 < n by {
                if k < prev.len() {
                    assert(rs[k] == prev[k]);
                }
            }
        }
        if rs.len() == 0 {
            assert forall|c: usize| c < n implies !h.contains(c) by {
                if c < n - 1 {
                } else {
                    assert(c == b);
                }
            }
        }
        if !h.contains(b) {
            assert forall|c: usize| (forall|x: usize| x < n - 1 ==> !h.contains(x)) && c < n implies !h.contains(c) by {
                if c == b {
                }
            }
        }
    }
}

/// The runs of consecutive bytes of `h` below `n`.
pub fn highlight_runs(h: &HashSet<usize>, n: usize) -> (rs: Vec<(usize, usize)>)
    ensures
        rs@ == runs_below(h@, n as nat),
{
    let mut rs: Vec<(usize, usize)> = Vec::new();
    let mut i: usize = 0;
    let mut prev = false;
    while i < n
        invariant
            i <= n,
            rs@ == runs_below(h@, i as nat),
            prev == (i > 0 && h@.contains((i - 1) as usize)),
        decreases n - i,
    {
        let here = h.contains(&i);
        if here {
            if prev {
                proof {
                    lemma_runs_last(h@, i as nat);
                }
                let last = rs.len() - 1;
                let s = rs[last].0;
                rs.set(last, (s, i));
            } else {
                rs.push((i, i));
            }
        }
        prev = here;
        i = i + 1;
    }
    rs
}

/// The text of the run `r` of the buffer's text, each byte taken as the character of that
/// number.
fn run_text(buffer: &Buffer, r: (usize, usize)) -> (s: String)
    requires
        buffer@.wf(),
        r.0 <= r.1 < buffer@.text().len(),
    ensures
        s@ == run_chars(buffer@.text(), r),
{
    let mut s = String::new();
    let mut k = r.0;
    loop
        invariant
            buffer@.wf(),
            r.0 <= k <= r.1,
            r.1 < buffer@.text().len(),
            s@ == Seq::new((k - r.0) as nat, |j: int| buffer@.text()[r.0 + j] as char),
        decreases r.1 - k,
    {
        let b = buffer.get_byte(k);
        string_push(&mut s, b as char);
        assert(s@ =~= Seq::new((k + 1 - r.0) as nat, |j: int| buffer@.text()[r.0 + j] as char));
        if k == r.1 {
            assert(s@ =~= run_chars(buffer@.text(), r));
            return s;
        }
        k = k + 1;
    }
}

/// The texts of the selected runs of `h` in the buffer.
pub fn selected_texts(buffer: &Buffer, h: &HashSet<usize>) -> (r: Option<Vec<String>>)
    requires
        buffer@.wf(),
        highlights_below(h@, buffer@.text().len() as int),
    ensures
        r is None <==> h@ == Set::<usize>::empty(),
        r matches Some(v) ==> texts_view(v@) == selected_runs(
            runs_below(h@, buffer@.text().len()),
        ).map_values(|q: (usize, usize)| run_chars(buffer@.text(), q)),
{
    let n = buffer.get_byte_count();
    let rs = highlight_runs(h, n);
    proof {
        lemma_runs_shape(h@, n as nat);
    }
    if rs.len() == 0 {
        assert(h@ =~= Set::<usize>::empty());
        return None;
    }
    proof {
        assert(h@.contains(rs@[0].0));
    }
    let ghost sel = selected_runs(rs@);
    let k = if rs[rs.len() - 1].0 == rs[rs.len() - 1].1 {
        rs.len() - 1
    } else {
        rs.len()
    };
    assert(sel =~= rs@.take(k as int));
    let mut out: Vec<String> = Vec::new();
    let mut i: usize = 0;
    while i < k
        invariant
            buffer@.wf(),
            n == buffer@.text().len(),
            k <= rs@.len(),
            rs@ == runs_below(h@, n as nat),
            sel == rs@.take(k as int),
            forall|j: int| 0 <= j < rs@.len() ==> #[trigger] rs@[j].0 <= rs@[j].1 < n,
            i <= k,
            texts_view(out@) == runs_chars(buffer@.text(), sel.take(i as int)),
        decreases k - i,
    {
        let t = run_text(buffer, rs[i]);
        let ghost before = out@;
        out.push(t);
        proof {
            let want = runs_chars(buffer@.text(), sel.take(i + 1));
            let had = runs_chars(buffer@.text(), sel.take(i as int));
            assert(texts_view(before).len() == i);
            assert(before.len() == i);
            assert(out@.len() == i + 1);
            assert forall|j: int| 0 <= j < i + 1 implies #[trigger] texts_view(out@)[j] == want[j] by {
                if j < i {
                    assert(out@[j] == before[j]);
                    assert(texts_view(before)[j] == had[j]);
                }
            }
            assert(texts_view(out@) =~= want);
        }
        i = i + 1;
    }
    assert(sel.take(k as int) =~= sel);
    assert(h@ != Set::<usize>::empty()) by {
        assert(h@.contains(rs@[0].0));
    }
    Some(out)
}

/// The selected runs of `h` in `buffer`: all runs but the last where it is one byte long.
fn selected_ranges(buffer: &Buffer, h: &HashSet<usize>) -> (v: Vec<(usize, usize)>)
    requires
        buffer@.wf(),
    ensures
        v@ == selected_runs(runs_below(h@, buffer@.text().len())),
        forall|j: int| 0 <= j < v@.len() ==> #[trigger] v@[j].0 <= v@[j].1 < buffer@.text().len(),
        forall|j: int| 0 <= j < v@.len() ==> #[trigger] v@[j].1 < usize::MAX,
{
    let n = buffer.get_byte_count();
    let mut rs = highlight_runs(h, n);
    proof {
        lemma_runs_shape(h@, n as nat);
    }
    let ghost all = rs@;
    if rs.len() > 0 && rs[rs.len() - 1].0 == rs[rs.len() - 1].1 {
        let _ = rs.pop();
    }
    proof {
        assert forall|j: int| 0 <= j < rs@.len() implies (#[trigger] rs@[j]).0 <= rs@[j].1 < n by {
            assert(rs@[j] == all[j]);
            assert(all[j] == runs_below(h@, n as nat)[j]);
        }
    }
    rs
}

/// Deletes the selected bytes of `buffer` that `h` highlights, run by run from the last: all
/// runs but the first where it is one byte long. Gives back the first highlighted byte.
pub fn delete_selected(buffer: &mut Buffer, h: &HashSet<usize>) -> (start: usize)
    requires
        old(buffer)@.wf(),
        old(buffer)@.version < usize::MAX,
        h@ != Set::<usize>::empty(),
        highlights_below(h@, old(buffer)@.text().len() as int),
        edits_fit(
            old(buffer)@.text(),
            deleted_runs(runs_below(h@, old(buffer)@.text().len())).map_values(|r: (usize, usize)| run_deletion(r)),
        ),
    ensures
        final(buffer)@ == old(buffer)@.branch_if_first().with_text(
            apply_edits(
                old(buffer)@.text(),
                deleted_runs(runs_below(h@, old(buffer)@.text().len())).map_values(
                    |r: (usize, usize)| run_deletion(r),
                ),
            ),
        ).bumped(),
        final(buffer)@.wf(),
        h@.contains(start),
        forall|b: usize| b < start ==> !h@.contains(b),
{
    let n = buffer.get_byte_count();
    let rs = highlight_runs(h, n);
    proof {
        lemma_runs_shape(h@, n as nat);
        if rs@.len() == 0 {
            assert(h@ =~= Set::<usize>::empty());
        }
    }
    let ghost es = deleted_runs(rs@).map_values(|r: (usize, usize)| run_deletion(r));
    let lo: usize = if rs[0].0 == rs[0].1 {
        1
    } else {
        0
    };
    let mut ranges: Vec<std::ops::Range<usize>> = Vec::new();
    let mut k = rs.len();
    while k > lo
        invariant
            lo <= k <= rs@.len(),
            lo == (if rs@[0].0 == rs@[0].1 { 1int } else { 0int }),
            rs@.len() > 0,
            forall|j: int| 0 <= j < rs@.len() ==> #[trigger] rs@[j].0 <= rs@[j].1 < n,
            n <= usize::MAX,
            ranges@.len() == rs@.len() - k,
            forall|j: int|
                0 <= j < ranges@.len() ==> #[trigger] deletion(ranges@[j]) == run_deletion(rs@[rs@.len() - 1 - j]),
        decreases k,
    {
        k = k - 1;
        let r = rs[k];
        ranges.push(r.0..r.1 + 1);
    }
    proof {
        let keep = if rs@[0].0 == rs@[0].1 {
            rs@.drop_first()
        } else {
            rs@
        };
        assert(keep.len() == rs@.len() - lo);
        assert forall|j: int| 0 <= j < keep.len() implies #[trigger] deleted_runs(rs@)[j] == rs@[rs@.len() - 1 - j] by {}
        assert(ranges@.map_values(|r: std::ops::Range<usize>| deletion(r)) =~= es);
    }
    buffer.bulk_delete(ranges);
    rs[0].0
}

/// Puts the texts `texts` in place of the selected runs of `h` in `buffer`, the first text for
/// the first run and so on, as far as both go, in a new version.
pub fn replace_selected(buffer: &mut Buffer, h: &HashSet<usize>, texts: Vec<String>)
    requires
        old(buffer)@.wf(),
        ({
            let sel = selected_runs(runs_below(h@, old(buffer)@.text().len()));
            let es = run_replacements(sel, texts_view(texts@));
            &&& old(buffer)@.version + es.len() + 1 <= usize::MAX
            &&& forall|i: int|
                0 <= i < es.len() ==> (sel[i].1 - sel[i].0 < encode_utf8(#[trigger] texts@[i]@).len()
                    ==> is_char_boundary(encode_utf8(texts@[i]@), sel[i].1 - sel[i].0))
            &&& edits_rev_fit(old(buffer)@.text(), es)
        }),
    ensures
        ({
            let es = run_replacements(
                selected_runs(runs_below(h@, old(buffer)@.text().len())),
                texts_view(texts@),
            );
            final(buffer)@ == (BufferView {
                version: old(buffer)@.version + es.len() + 1,
                ..old(buffer)@.branch().with_text(apply_edits_rev(old(buffer)@.text(), es))
            })
        }),
        final(buffer)@.wf(),
{
    let ranges = selected_ranges(buffer, h);
    proof {
        assert(bulk_edits(ranges@, texts@) =~= run_replacements(ranges@, texts_view(texts@)));
    }
    buffer.replace_bulk(ranges, texts);
}

/// `count` copies of `text`.
fn copies(text: &str, count: usize) -> (v: Vec<String>)
    ensures
        texts_view(v@) == Seq::new(count as nat, |i: int| text@),
{
    let mut v: Vec<String> = Vec::new();
    let mut i: usize = 0;
    while i < count
        invariant
            i <= count,
            texts_view(v@) == Seq::new(i as nat, |j: int| text@),
        decreases count - i,
    {
        let ghost before = v@;
        v.push(String::from_str(text));
        proof {
            assert(texts_view(before).len() == i);
            assert forall|j: int| 0 <= j < i + 1 implies #[trigger] texts_view(v@)[j] == text@ by {
                if j < i {
                    assert(v@[j] == before[j]);
                    assert(texts_view(before)[j] == Seq::new(i as nat, |k: int| text@)[j]);
                }
            }
        }
        i = i + 1;
        assert(texts_view(v@) =~= Seq::new(i as nat, |j: int| text@));
    }
    v
}

/// Puts `text` in place of every selected run of `h` in `buffer`, in a new version.
pub fn replace_selected_by(buffer: &mut Buffer, h: &HashSet<usize>, text: &str)
    requires
        old(buffer)@.wf(),
        ({
            let sel = selected_runs(runs_below(h@, old(buffer)@.text().len()));
            let es = run_replacements(sel, Seq::new(sel.len(), |i: int| text@));
            &&& old(buffer)@.version + es.len() + 1 <= usize::MAX
            &&& forall|i: int|
                0 <= i < sel.len() ==> (#[trigger] sel[i].1 - sel[i].0 < encode_utf8(text@).len()
                    ==> is_char_boundary(encode_utf8(text@), sel[i].1 - sel[i].0))
            &&& edits_rev_fit(old(buffer)@.text(), es)
        }),
    ensures
        ({
            let sel = selected_runs(runs_below(h@, old(buffer)@.text().len()));
            let es = run_replacements(sel, Seq::new(sel.len(), |i: int| text@));
            final(buffer)@ == (BufferView {
                version: old(buffer)@.version + es.len() + 1,
                ..old(buffer)@.branch().with_text(apply_edits_rev(old(buffer)@.text(), es))
            })
        }),
        final(buffer)@.wf(),
{
    let ranges = selected_ranges(buffer, h);
    let texts = copies(text, ranges.len());
    proof {
        assert(bulk_edits(ranges@, texts@) =~= run_replacements(ranges@, texts_view(texts@)));
        assert forall|i: int| 0 <= i < ranges@.len() implies #[trigger] texts@[i]@ == text@ by {
            assert(texts_view(texts@)[i] == text@);
        }
    }
    buffer.replace_bulk(ranges, texts);
}

/// Puts `open` before and `close` after every selected run of `h` in `buffer`, from the last
/// run to the first.
pub fn wrap_selected(buffer: &mut Buffer, h: &HashSet<usize>, open: &str, close: &str)
    requires
        old(buffer)@.wf(),
        edits_rev_fit(
            old(buffer)@.text(),
            run_wrappings(selected_runs(runs_below(h@, old(buffer)@.text().len())), open@, close@),
        ),
    ensures
        final(buffer)@ == old(buffer)@.branch().with_text(
            apply_edits_rev(
                old(buffer)@.text(),
                run_wrappings(selected_runs(runs_below(h@, old(buffer)@.text().len())), open@, close@),
            ),
        ),
        final(buffer)@.wf(),
{
    let ranges = selected_ranges(buffer, h);
    let mut pairs: Vec<(String, String)> = Vec::new();
    let mut i: usize = 0;
    while i < ranges.len()
        invariant
            i <= ranges@.len(),
            pairs@.len() == i,
            forall|j: int| 0 <= j < i ==> (#[trigger] pairs@[j]).0@ == open@ && pairs@[j].1@ == close@,
        decreases ranges.len() - i,
    {
        pairs.push((String::from_str(open), String::from_str(close)));
        i = i + 1;
    }
    proof {
        assert(bulk_pair_insertions(ranges@, pairs@) =~= run_wrappings(ranges@, open@, close@));
    }
    buffer.insert_bulk_pair(ranges, pairs);
}

/// The bytes below `n` that `h` holds, in order.
pub fn bytes_below(h: &HashSet<usize>, n: usize) -> (v: Vec<usize>)
    ensures
        forall|b: usize| v@.contains(b) <==> (b < n && h@.contains(b)),
{
    let mut v: Vec<usize> = Vec::new();
    let mut i: usize = 0;
    while i < n
        invariant
            i <= n,
            forall|b: usize| v@.contains(b) <==> (b < i && h@.contains(b)),
        decreases n - i,
    {
        if h.contains(&i) {
            let ghost before = v@;
            v.push(i);
            proof {
                assert forall|b: usize| v@.contains(b) <==> (b < i + 1 && h@.contains(b)) by {
                    if before.contains(b) {
                        let k = choose|k: int| 0 <= k < before.len() && before[k] == b;
                        assert(v@[k] == b);
                    }
                    if v@.contains(b) && b != i {
                        let k = choose|k: int| 0 <= k < v@.len() && v@[k] == b;
                        assert(before[k] == b);
                    }
                    if b == i {
                        assert(v@[before.len() as int] == b);
                    }
                }
            }
        }
        i = i + 1;
    }
    v
}

} // verus!
