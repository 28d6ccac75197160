use vstd::prelude::*;
use vstd::string::StringExecFns;
use crate::colors::{
    default_editor_colors, default_number_bar, editor_colors_view, mode_pairs, status_bar_view, EditorColors,
    distinct_modes, EditorColorsView, NumberBarColor, StatusBarColor, StatusBarView,
};
use crate::config::{lookup, parse_toml_document, toml_document, ConfigValue};
use crate::style::Style;
use crate::style_config::{same_outcome, style_outcome, try_parse_style, Outcome};

verus! {

/// Reading the value `v` with `parse` into the value read so far, `acc`, where `v` is there:
/// the value taken in by `set`; an error or the reader giving up stops the reading.
pub open spec fn read_field<T, U>(
    acc: Outcome<T>,
    v: Option<ConfigValue>,
    parse: spec_fn(ConfigValue) -> Outcome<U>,
    set: spec_fn(T, U) -> T,
) -> Outcome<T> {
    match acc {
        Some(Ok(a)) => match v {
            None => Some(Ok(a)),
            Some(x) => match parse(x) {
                None => None,
                Some(Err(e)) => Some(Err(e)),
                Some(Ok(u)) => Some(Ok(set(a, u))),
            },
        },
        _ => acc,
    }
}

/// `p` put before the list that `o` reads, where it reads one.
pub open spec fn prefixed<T>(p: Seq<T>, o: Outcome<Seq<T>>) -> Outcome<Seq<T>> {
    match o {
        Some(Ok(r)) => Some(Ok(p + r)),
        _ => o,
    }
}

/// Putting nothing before a list leaves the outcome as it is.
pub proof fn lemma_prefixed_empty<T>(o: Outcome<Seq<T>>)
    ensures
        prefixed(Seq::empty(), o) == o,
{
    match o {
        Some(Ok(r)) => {
            assert(Seq::<T>::empty() + r =~= r);
        },
        _ => {},
    }
}

/// The line number styles that the table `v` gives: the default ones, with `current_line`
/// and `other_lines` read as styles where they are there.
pub open spec fn number_bar_outcome(v: ConfigValue) -> Outcome<NumberBarColor> {
    read_field(
        read_field(
            Some(Ok(default_number_bar())),
            lookup(v, "current_line"@),
            |x: ConfigValue| style_outcome(x),
            |n: NumberBarColor, s: Style| NumberBarColor { current_line: s, ..n },
        ),
        lookup(v, "other_lines"@),
        |x: ConfigValue| style_outcome(x),
        |n: NumberBarColor, s: Style| NumberBarColor { other_lines: s, ..n },
    )
}

/// The mode styles that the entries `es` give, in their order: each value must be a table
/// read as a style.
pub open spec fn mode_entries_outcome(es: Seq<(String, ConfigValue)>) -> Outcome<Seq<(Seq<char>, Style)>>
    decreases es.len(),
{
    if es.len() == 0 {
        Some(Ok(Seq::empty()))
    } else if !(es[0].1 is Table) {
        Some(Err("mode was not a table"@))
    } else {
        match style_outcome(es[0].1) {
            None => None,
            Some(Err(e)) => Some(Err(e)),
            Some(Ok(s)) => prefixed(seq![(es[0].0@, s)], mode_entries_outcome(es.drop_first())),
        }
    }
}

/// Read mode styles keep the names of the table's entries, one for one and in order.
proof fn lemma_mode_entries_names(es: Seq<(String, ConfigValue)>)
    ensures
        mode_entries_outcome(es) matches Some(Ok(r)) ==> r.len() == es.len() && forall|k: int|
            0 <= k < r.len() ==> #[trigger] r[k].0 == es[k].0@,
    decreases es.len(),
{
    if es.len() > 0 {
        lemma_mode_entries_names(es.drop_first());
        if let Some(Ok(r)) = mode_entries_outcome(es) {
            assert forall|k: int| 0 <= k < r.len() implies #[trigger] r[k].0 == es[k].0@ by {
                if k > 0 {
                    assert(es.drop_first()[k - 1] == es[k]);
                }
            }
        }
    }
}

/// Reading the mode styles of a table whose entries have different names, as the entries of
/// a TOML table do, gives each mode one style.
pub proof fn law_read_modes_are_distinct(table: ConfigValue)
    requires
        table matches ConfigValue::Table(es) && forall|i: int, j: int|
            0 <= i < j < es@.len() ==> #[trigger] es@[i].0@ != #[trigger] es@[j].0@,
    ensures
        mode_outcome(table) matches Some(Ok(r)) ==> distinct_modes(r),
{
    if let ConfigValue::Table(es) = table {
        lemma_mode_entries_names(es@);
        if let Some(Ok(r)) = mode_outcome(table) {
            assert forall|i: int, j: int| 0 <= i < j < r.len() implies #[trigger] r[i].0 != #[trigger] r[j].0 by {
                assert(r[i].0 == es@[i].0@);
                assert(r[j].0 == es@[j].0@);
            }
        }
    }
}

/// The mode styles that the value `v` gives; it must be a table.
pub open spec fn mode_outcome(v: ConfigValue) -> Outcome<Seq<(Seq<char>, Style)>> {
    match v {
        ConfigValue::Table(es) => mode_entries_outcome(es@),
        _ => Some(Err("mode was not a table"@)),
    }
}

/// The styles of nested delimiters that the items `vs` give, in their order: each must be a
/// table read as a style.
pub open spec fn rainbow_items_outcome(vs: Seq<ConfigValue>) -> Outcome<Seq<Style>>
    decreases vs.len(),
{
    if vs.len() == 0 {
        Some(Ok(Seq::empty()))
    } else if !(vs[0] is Table) {
        Some(Err("rainbow_delimiters was not a table"@))
    } else {
        match style_outcome(vs[0]) {
            None => None,
            Some(Err(e)) => Some(Err(e)),
            Some(Ok(s)) => prefixed(seq![s], rainbow_items_outcome(vs.drop_first())),
        }
    }
}

/// The styles of nested delimiters that the value `v` gives; it must be a list.
pub open spec fn rainbow_outcome(v: ConfigValue) -> Outcome<Seq<Style>> {
    match v {
        ConfigValue::Array(vs) => rainbow_items_outcome(vs@),
        _ => Some(Err("rainbow_delimiters was not an array"@)),
    }
}

/// The status bar styles that the table `v` gives: the default ones, with `message`, `mode`,
/// `first`, `second` and `rest` read where they are there, in that order; the mode styles
/// read replace all of the default ones.
pub open spec fn status_bar_outcome(v: ConfigValue) -> Outcome<StatusBarView> {
    let o1 = read_field(
        Some(Ok(crate::colors::default_status_bar())),
        lookup(v, "message"@),
        |x: ConfigValue| style_outcome(x),
        |b: StatusBarView, s: Style| StatusBarView { message: s, ..b },
    );
    let o2 = read_field(
        o1,
        lookup(v, "mode"@),
        |x: ConfigValue| mode_outcome(x),
        |b: StatusBarView, m: Seq<(Seq<char>, Style)>| StatusBarView { mode: m, ..b },
    );
    let o3 = read_field(
        o2,
        lookup(v, "first"@),
        |x: ConfigValue| style_outcome(x),
        |b: StatusBarView, s: Style| StatusBarView { first: s, ..b },
    );
    let o4 = read_field(
        o3,
        lookup(v, "second"@),
        |x: ConfigValue| style_outcome(x),
        |b: StatusBarView, s: Style| StatusBarView { second: s, ..b },
    );
    read_field(
        o4,
        lookup(v, "rest"@),
        |x: ConfigValue| style_outcome(x),
        |b: StatusBarView, s: Style| StatusBarView { rest: s, ..b },
    )
}

/// The editor styles that the table `v` gives: the default ones, with `buffer_color`,
/// `selected`, `number_bar`, `status_bar` and `rainbow_delimiters` read where they are there,
/// in that order.
pub open spec fn editor_colors_outcome(v: ConfigValue) -> Outcome<EditorColorsView> {
    let o1 = read_field(
        Some(Ok(default_editor_colors())),
        lookup(v, "buffer_color"@),
        |x: ConfigValue| style_outcome(x),
        |e: EditorColorsView, s: Style| EditorColorsView { buffer_color: s, ..e },
    );
    let o2 = read_field(
        o1,
        lookup(v, "selected"@),
        |x: ConfigValue| style_outcome(x),
        |e: EditorColorsView, s: Style| EditorColorsView { selected: s, ..e },
    );
    let o3 = read_field(
        o2,
        lookup(v, "number_bar"@),
        |x: ConfigValue| number_bar_outcome(x),
        |e: EditorColorsView, n: NumberBarColor| EditorColorsView { number_bar: n, ..e },
    );
    let o4 = read_field(
        o3,
        lookup(v, "status_bar"@),
        |x: ConfigValue| status_bar_outcome(x),
        |e: EditorColorsView, b: StatusBarView| EditorColorsView { status_bar: b, ..e },
    );
    read_field(
        o4,
        lookup(v, "rainbow_delimiters"@),
        |x: ConfigValue| rainbow_outcome(x),
        |e: EditorColorsView, r: Seq<Style>| EditorColorsView { rainbow_delimiters: r, ..e },
    )
}

/// The editor styles of a configuration document `doc`: those of its `EditorColors` table, or
/// the default ones where it has none.
pub open spec fn colors_document_outcome(doc: ConfigValue) -> Outcome<EditorColorsView> {
    match lookup(doc, "EditorColors"@) {
        Some(t) => editor_colors_outcome(t),
        None => Some(Ok(default_editor_colors())),
    }
}

/// Whether `r`, as a reader returns it, is the outcome `o`, seen through `view`.
pub open spec fn same_outcome_by<T, V>(r: Option<Result<T, String>>, o: Outcome<V>, view: spec_fn(T) -> V) -> bool {
    match (r, o) {
        (None, None) => true,
        (Some(Ok(a)), Some(Ok(b))) => view(a) == b,
        (Some(Err(e)), Some(Err(f))) => e@ == f,
        _ => false,
    }
}

/// Reads the line number styles of the table `table`; nothing where reading a style gives up.
pub fn try_parse_number_bar_color(table: &ConfigValue) -> (r: Option<Result<NumberBarColor, String>>)
    ensures
        same_outcome(r, number_bar_outcome(*table)),
{
    let mut n = NumberBarColor::default();
    match table.get("current_line") {
        Some(v) => match try_parse_style(v) {
            Some(Ok(s)) => {
                n.current_line = s;
            },
            Some(Err(e)) => {
                return Some(Err(e));
            },
            None => {
                return None;
            },
        },
        None => {},
    }
    match table.get("other_lines") {
        Some(v) => match try_parse_style(v) {
            Some(Ok(s)) => {
                n.other_lines = s;
            },
            Some(Err(e)) => {
                return Some(Err(e));
            },
            None => {
                return None;
            },
        },
        None => {},
    }
    Some(Ok(n))
}

/// Reads the line number styles of a table whose reading does not give up.
pub fn parse_number_bar_color(table: &ConfigValue) -> (r: Result<NumberBarColor, String>)
    requires
        number_bar_outcome(*table) is Some,
    ensures
        same_outcome(Some(r), number_bar_outcome(*table)),
{
    match try_parse_number_bar_color(table) {
        Some(r) => r,
        None => Err(String::new()),
    }
}

/// Reads the mode styles of the value `table`; nothing where reading a style gives up.
pub fn try_parse_mode(table: &ConfigValue) -> (r: Option<Result<Vec<(String, Style)>, String>>)
    ensures
        same_outcome_by(r, mode_outcome(*table), |m: Vec<(String, Style)>| mode_pairs(m@)),
{
    match table {
        ConfigValue::Table(es) => {
            let mut mode: Vec<(String, Style)> = Vec::new();
            let mut i: usize = 0;
            proof {
                assert(es@.skip(0) =~= es@);
                lemma_prefixed_empty(mode_entries_outcome(es@));
                assert(mode_pairs(mode@) =~= Seq::empty());
            }
            while i < es.len()
                invariant
                    i <= es.len(),
                    mode_outcome(*table) == mode_entries_outcome(es@),
                    mode_entries_outcome(es@) == prefixed(mode_pairs(mode@), mode_entries_outcome(es@.skip(i as int))),
                decreases es.len() - i,
            {
                proof {
                    assert(es@.skip(i as int).drop_first() =~= es@.skip(i + 1));
                    assert(es@.skip(i as int)[0] == es@[i as int]);
                    assert(es@.skip(i as int).len() > 0);
                }
                if !es[i].1.is_table() {
                    return Some(Err(String::from_str("mode was not a table")));
                }
                match try_parse_style(&es[i].1) {
                    Some(Ok(s)) => {
                        let ghost before = mode@;
                        mode.push((es[i].0.clone(), s));
                        proof {
                            assert(mode_pairs(mode@) =~= mode_pairs(before) + seq![(es@[i as int].0@, s)]);
                            assert(mode_pairs(before) + (seq![(es@[i as int].0@, s)]) + Seq::empty()
                                =~= mode_pairs(before) + seq![(es@[i as int].0@, s)]);
                            let rest = mode_entries_outcome(es@.skip(i + 1));
                            match rest {
                                Some(Ok(r)) => {
                                    assert(mode_pairs(before) + (seq![(es@[i as int].0@, s)] + r) =~= mode_pairs(mode@) + r);
                                },
                                _ => {},
                            }
                        }
                    },
                    Some(Err(e)) => {
                        return Some(Err(e));
                    },
                    None => {
                        return None;
                    },
                }
                i = i + 1;
            }
            proof {
                assert(es@.skip(es.len() as int).len() == 0);
                assert(mode_pairs(mode@) + Seq::<(Seq<char>, Style)>::empty() =~= mode_pairs(mode@));
            }
            Some(Ok(mode))
        },
        _ => Some(Err(String::from_str("mode was not a table"))),
    }
}

/// Reads the mode styles of a value whose reading does not give up.
pub fn parse_mode(table: &ConfigValue) -> (r: Result<Vec<(String, Style)>, String>)
    requires
        mode_outcome(*table) is Some,
    ensures
        same_outcome_by(Some(r), mode_outcome(*table), |m: Vec<(String, Style)>| mode_pairs(m@)),
{
    match try_parse_mode(table) {
        Some(r) => r,
        None => Err(String::new()),
    }
}

/// Reads the styles of nested delimiters of the value `list`; nothing where reading a style
/// gives up.
pub fn try_parse_rainbow_delimiters(list: &ConfigValue) -> (r: Option<Result<Vec<Style>, String>>)
    ensures
        same_outcome_by(r, rainbow_outcome(*list), |v: Vec<Style>| v@),
{
    match list {
        ConfigValue::Array(vs) => {
            let mut out: Vec<Style> = Vec::new();
            let mut i: usize = 0;
            proof {
                assert(vs@.skip(0) =~= vs@);
                lemma_prefixed_empty(rainbow_items_outcome(vs@));
            }
            while i < vs.len()
                invariant
                    i <= vs.len(),
                    rainbow_outcome(*list) == rainbow_items_outcome(vs@),
                    rainbow_items_outcome(vs@) == prefixed(out@, rainbow_items_outcome(vs@.skip(i as int))),
                decreases vs.len() - i,
            {
                proof {
                    assert(vs@.skip(i as int).drop_first() =~= vs@.skip(i + 1));
                    assert(vs@.skip(i as int)[0] == vs@[i as int]);
                    assert(vs@.skip(i as int).len() > 0);
                }
                if !vs[i].is_table() {
                    return Some(Err(String::from_str("rainbow_delimiters was not a table")));
                }
                match try_parse_style(&vs[i]) {
                    Some(Ok(s)) => {
                        let ghost before = out@;
                        out.push(s);
                        proof {
                            let rest = rainbow_items_outcome(vs@.skip(i + 1));
                            match rest {
                                Some(Ok(r)) => {
                                    assert(before + (seq![s] + r) =~= out@ + r);
                                },
                                _ => {},
                            }
                        }
                    },
                    Some(Err(e)) => {
                        return Some(Err(e));
                    },
                    None => {
                        return None;
                    },
                }
                i = i + 1;
            }
            proof {
                assert(vs@.skip(vs.len() as int).len() == 0);
                assert(out@ + Seq::<Style>::empty() =~= out@);
            }
            Some(Ok(out))
        },
        _ => Some(Err(String::from_str("rainbow_delimiters was not an array"))),
    }
}

/// Reads the styles of nested delimiters of a value whose reading does not give up.
pub fn parse_rainbow_delimiters(list: &ConfigValue) -> (r: Result<Vec<Style>, String>)
    requires
        rainbow_outcome(*list) is Some,
    ensures
        same_outcome_by(Some(r), rainbow_outcome(*list), |v: Vec<Style>| v@),
{
    match try_parse_rainbow_delimiters(list) {
        Some(r) => r,
        None => Err(String::new()),
    }
}

/// Reads the status bar styles of the table `table`; nothing where reading a style gives up.
pub fn try_parse_status_bar_color(table: &ConfigValue) -> (r: Option<Result<StatusBarColor, String>>)
    ensures
        same_outcome_by(r, status_bar_outcome(*table), |b: StatusBarColor| status_bar_view(b)),
{
    let mut b = StatusBarColor::default();
    match table.get("message") {
        Some(v) => match try_parse_style(v) {
            Some(Ok(s)) => {
                b.message = s;
            },
            Some(Err(e)) => {
                return Some(Err(e));
            },
            None => {
                return None;
            },
        },
        None => {},
    }
    match table.get("mode") {
        Some(v) => match try_parse_mode(v) {
            Some(Ok(m)) => {
                b.mode = m;
            },
            Some(Err(e)) => {
                return Some(Err(e));
            },
            None => {
                return None;
            },
        },
        None => {},
    }
    match table.get("first") {
        Some(v) => match try_parse_style(v) {
            Some(Ok(s)) => {
                b.first = s;
            },
            Some(Err(e)) => {
                return Some(Err(e));
            },
            None => {
                return None;
            },
        },
        None => {},
    }
    match table.get("second") {
        Some(v) => match try_parse_style(v) {
            Some(Ok(s)) => {
                b.second = s;
            },
            Some(Err(e)) => {
                return Some(Err(e));
            },
            None => {
                return None;
            },
        },
        None => {},
    }
    match table.get("rest") {
        Some(v) => match try_parse_style(v) {
            Some(Ok(s)) => {
                b.rest = s;
            },
            Some(Err(e)) => {
                return Some(Err(e));
            },
            None => {
                return None;
            },
        },
        None => {},
    }
    Some(Ok(b))
}

/// Reads the status bar styles of a table whose reading does not give up.
pub fn parse_status_bar_color(table: &ConfigValue) -> (r: Result<StatusBarColor, String>)
    requires
        status_bar_outcome(*table) is Some,
    ensures
        same_outcome_by(Some(r), status_bar_outcome(*table), |b: StatusBarColor| status_bar_view(b)),
{
    match try_parse_status_bar_color(table) {
        Some(r) => r,
        None => Err(String::new()),
    }
}

/// Reads the editor styles of the table `table`; nothing where reading a style gives up.
pub fn try_parse_editor_colors(table: &ConfigValue) -> (r: Option<Result<EditorColors, String>>)
    ensures
        same_outcome_by(r, editor_colors_outcome(*table), |e: EditorColors| editor_colors_view(e)),
{
    let mut c = EditorColors::default();
    match table.get("buffer_color") {
        Some(v) => match try_parse_style(v) {
            Some(Ok(s)) => {
                c.buffer_color = s;
            },
            Some(Err(e)) => {
                return Some(Err(e));
            },
            None => {
                return None;
            },
        },
        None => {},
    }
    match table.get("selected") {
        Some(v) => match try_parse_style(v) {
            Some(Ok(s)) => {
                c.selected = s;
            },
            Some(Err(e)) => {
                return Some(Err(e));
            },
            None => {
                return None;
            },
        },
        None => {},
    }
    match table.get("number_bar") {
        Some(v) => match try_parse_number_bar_color(v) {
            Some(Ok(n)) => {
                c.number_bar = n;
            },
            Some(Err(e)) => {
                return Some(Err(e));
            },
            None => {
                return None;
            },
        },
        None => {},
    }
    match table.get("status_bar") {
        Some(v) => match try_parse_status_bar_color(v) {
            Some(Ok(b)) => {
                c.status_bar = b;
            },
            Some(Err(e)) => {
                return Some(Err(e));
            },
            None => {
                return None;
            },
        },
        None => {},
    }
    match table.get("rainbow_delimiters") {
        Some(v) => match try_parse_rainbow_delimiters(v) {
            Some(Ok(r)) => {
                c.rainbow_delimiters = r;
            },
            Some(Err(e)) => {
                return Some(Err(e));
            },
            None => {
                return None;
            },
        },
        None => {},
    }
    Some(Ok(c))
}

/// Reads the editor styles of a table whose reading does not give up.
pub fn parse_editor_colors(table: &ConfigValue) -> (r: Result<EditorColors, String>)
    requires
        editor_colors_outcome(*table) is Some,
    ensures
        same_outcome_by(Some(r), editor_colors_outcome(*table), |e: EditorColors| editor_colors_view(e)),
{
    match try_parse_editor_colors(table) {
        Some(r) => r,
        None => Err(String::new()),
    }
}

impl EditorColors {
    /// The editor styles of the configuration file text `config`: those of its `EditorColors`
    /// table, or the default ones where it has none; nothing where the text is no TOML
    /// document or reading a style gives up.
    pub fn load_user_settings(config: &str) -> (r: Option<Result<EditorColors, String>>)
        ensures
            match toml_document(config@) {
                Some(doc) => same_outcome_by(r, colors_document_outcome(doc), |e: EditorColors| editor_colors_view(e)),
                None => r is None,
            },
    {
        match parse_toml_document(config) {
            Some(doc) => match doc.get("EditorColors") {
                Some(t) => try_parse_editor_colors(t),
                None => Some(Ok(EditorColors::default())),
            },
            None => None,
        }
    }
}

} // verus!
