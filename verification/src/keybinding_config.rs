use vstd::prelude::*;
use vstd::string::StringExecFns;
use crate::config::{find_entry, lookup, parse_toml_document, str_of, toml_document, ConfigValue};
use crate::file::str_eq;
use crate::key::{Key, KeyEvent, KeyModifiers};
use crate::keybindings::{assoc_map, mode_views, Bindings, KeybindingsView, ModeKeybindings};

verus! {

/// A value found in a table is smaller than the table.
pub proof fn lemma_lookup_decreases(v: ConfigValue, key: Seq<char>)
    requires
        lookup(v, key) is Some,
    ensures
        decreases_to!(v => lookup(v, key)->0),
{
    if let ConfigValue::Table(es) = v {
        lemma_find_entry_member(es@, key);
        let i = choose|i: int| 0 <= i < es@.len() && es@[i].1 == lookup(v, key)->0;
        assert(decreases_to!(es => es@));
        assert(decreases_to!(es@ => es@[i]));
        assert(decreases_to!(es@[i] => es@[i].1));
    }
}

/// The value that `find_entry` finds is that of one of the entries.
pub proof fn lemma_find_entry_member(es: Seq<(String, ConfigValue)>, key: Seq<char>)
    ensures
        find_entry(es, key) matches Some(v) ==> exists|i: int| 0 <= i < es.len() && es[i].1 == v,
    decreases es.len(),
{
    if es.len() > 0 && es[0].0@ != key {
        lemma_find_entry_member(es.drop_first(), key);
        if find_entry(es.drop_first(), key) is Some {
            let i = choose|i: int|
                0 <= i < es.drop_first().len() && es.drop_first()[i].1 == find_entry(es.drop_first(), key)->0;
            assert(es[i + 1].1 == find_entry(es, key)->0);
        }
    }
}

/// A value of a list is smaller than the list.
pub proof fn lemma_element_decreases(l: ConfigValue, i: int)
    requires
        l is Array,
        0 <= i < l->Array_0@.len(),
    ensures
        decreases_to!(l => l->Array_0@[i]),
{
    assert(decreases_to!(l => l->Array_0));
    assert(decreases_to!(l->Array_0 => l->Array_0@));
    assert(decreases_to!(l->Array_0@ => l->Array_0@[i]));
}

/// Once the first keys of a prefix of a list cannot be read, those of no longer prefix can.
pub proof fn lemma_first_keys_stuck(l: ConfigValue, i: int, n: int)
    requires
        l is Array,
        0 <= i <= n <= l->Array_0@.len(),
        first_keys(l, i) is None,
    ensures
        first_keys(l, n) is None,
    decreases n - i,
{
    if i < n {
        lemma_first_keys_stuck(l, i, n - 1);
    }
}

/// A key pressed with no modifier.
pub open spec fn plain_key(k: Key) -> KeyEvent {
    KeyEvent { key: k, modifiers: KeyModifiers { bits: 0 } }
}

/// Whether `s` is one character of one byte.
pub open spec fn single_byte(s: Seq<char>) -> bool {
    s.len() == 1 && (s[0] as u32) < 128
}

/// The key that a configuration file names `s`, where `s` is longer than one byte.
pub open spec fn key_named(s: Seq<char>) -> Option<Key> {
    if s == "Space"@ {
        Some(Key::Char(' '))
    } else if s == "Backspace"@ {
        Some(Key::Backspace)
    } else if s == "Enter"@ {
        Some(Key::Enter)
    } else if s == "Left"@ {
        Some(Key::Left)
    } else if s == "Right"@ {
        Some(Key::Right)
    } else if s == "Up"@ {
        Some(Key::Up)
    } else if s == "Down"@ {
        Some(Key::Down)
    } else if s == "Home"@ {
        Some(Key::Home)
    } else if s == "End"@ {
        Some(Key::End)
    } else if s == "PageUp"@ {
        Some(Key::PageUp)
    } else if s == "PageDown"@ {
        Some(Key::PageDown)
    } else if s == "Tab"@ {
        Some(Key::Tab)
    } else if s == "BackTab"@ {
        Some(Key::BackTab)
    } else if s == "Delete"@ {
        Some(Key::Delete)
    } else if s == "Insert"@ {
        Some(Key::Insert)
    } else if s == "Esc"@ {
        Some(Key::Esc)
    } else if s == "CapsLock"@ {
        Some(Key::CapsLock)
    } else if s == "ScrollLock"@ {
        Some(Key::ScrollLock)
    } else if s == "NumLock"@ {
        Some(Key::NumLock)
    } else if s == "PrintScreen"@ {
        Some(Key::PrintScreen)
    } else if s == "Pause"@ {
        Some(Key::Pause)
    } else if s == "Menu"@ {
        Some(Key::Menu)
    } else if s == "KeypadBegin"@ {
        Some(Key::KeypadBegin)
    } else if s == "F1"@ {
        Some(Key::F(1))
    } else if s == "F2"@ {
        Some(Key::F(2))
    } else if s == "F3"@ {
        Some(Key::F(3))
    } else if s == "F4"@ {
        Some(Key::F(4))
    } else if s == "F5"@ {
        Some(Key::F(5))
    } else if s == "F6"@ {
        Some(Key::F(6))
    } else if s == "F7"@ {
        Some(Key::F(7))
    } else if s == "F8"@ {
        Some(Key::F(8))
    } else if s == "F9"@ {
        Some(Key::F(9))
    } else if s == "F10"@ {
        Some(Key::F(10))
    } else if s == "F11"@ {
        Some(Key::F(11))
    } else if s == "F12"@ {
        Some(Key::F(12))
    } else if s == "F13"@ {
        Some(Key::F(13))
    } else if s == "F14"@ {
        Some(Key::F(14))
    } else if s == "F15"@ {
        Some(Key::F(15))
    } else if s == "F16"@ {
        Some(Key::F(16))
    } else if s == "F17"@ {
        Some(Key::F(17))
    } else if s == "F18"@ {
        Some(Key::F(18))
    } else if s == "F19"@ {
        Some(Key::F(19))
    } else if s == "F20"@ {
        Some(Key::F(20))
    } else if s == "F21"@ {
        Some(Key::F(21))
    } else if s == "F22"@ {
        Some(Key::F(22))
    } else if s == "F23"@ {
        Some(Key::F(23))
    } else if s == "F24"@ {
        Some(Key::F(24))
    } else {
        None
    }
}

/// The key named `s`.
fn key_by_name(s: &str) -> (k: Option<Key>)
    ensures
        k == key_named(s@),
{
    if str_eq(s, "Space") {
        Some(Key::Char(' '))
    } else if str_eq(s, "Backspace") {
        Some(Key::Backspace)
    } else if str_eq(s, "Enter") {
        Some(Key::Enter)
    } else if str_eq(s, "Left") {
        Some(Key::Left)
    } else if str_eq(s, "Right") {
        Some(Key::Right)
    } else if str_eq(s, "Up") {
        Some(Key::Up)
    } else if str_eq(s, "Down") {
        Some(Key::Down)
    } else if str_eq(s, "Home") {
        Some(Key::Home)
    } else if str_eq(s, "End") {
        Some(Key::End)
    } else if str_eq(s, "PageUp") {
        Some(Key::PageUp)
    } else if str_eq(s, "PageDown") {
        Some(Key::PageDown)
    } else if str_eq(s, "Tab") {
        Some(Key::Tab)
    } else if str_eq(s, "BackTab") {
        Some(Key::BackTab)
    } else if str_eq(s, "Delete") {
        Some(Key::Delete)
    } else if str_eq(s, "Insert") {
        Some(Key::Insert)
    } else if str_eq(s, "Esc") {
        Some(Key::Esc)
    } else if str_eq(s, "CapsLock") {
        Some(Key::CapsLock)
    } else if str_eq(s, "ScrollLock") {
        Some(Key::ScrollLock)
    } else if str_eq(s, "NumLock") {
        Some(Key::NumLock)
    } else if str_eq(s, "PrintScreen") {
        Some(Key::PrintScreen)
    } else if str_eq(s, "Pause") {
        Some(Key::Pause)
    } else if str_eq(s, "Menu") {
        Some(Key::Menu)
    } else if str_eq(s, "KeypadBegin") {
        Some(Key::KeypadBegin)
    } else if str_eq(s, "F1") {
        Some(Key::F(1))
    } else if str_eq(s, "F2") {
        Some(Key::F(2))
    } else if str_eq(s, "F3") {
        Some(Key::F(3))
    } else if str_eq(s, "F4") {
        Some(Key::F(4))
    } else if str_eq(s, "F5") {
        Some(Key::F(5))
    } else if str_eq(s, "F6") {
        Some(Key::F(6))
    } else if str_eq(s, "F7") {
        Some(Key::F(7))
    } else if str_eq(s, "F8") {
        Some(Key::F(8))
    } else if str_eq(s, "F9") {
        Some(Key::F(9))
    } else if str_eq(s, "F10") {
        Some(Key::F(10))
    } else if str_eq(s, "F11") {
        Some(Key::F(11))
    } else if str_eq(s, "F12") {
        Some(Key::F(12))
    } else if str_eq(s, "F13") {
        Some(Key::F(13))
    } else if str_eq(s, "F14") {
        Some(Key::F(14))
    } else if str_eq(s, "F15") {
        Some(Key::F(15))
    } else if str_eq(s, "F16") {
        Some(Key::F(16))
    } else if str_eq(s, "F17") {
        Some(Key::F(17))
    } else if str_eq(s, "F18") {
        Some(Key::F(18))
    } else if str_eq(s, "F19") {
        Some(Key::F(19))
    } else if str_eq(s, "F20") {
        Some(Key::F(20))
    } else if str_eq(s, "F21") {
        Some(Key::F(21))
    } else if str_eq(s, "F22") {
        Some(Key::F(22))
    } else if str_eq(s, "F23") {
        Some(Key::F(23))
    } else if str_eq(s, "F24") {
        Some(Key::F(24))
    } else {
        None
    }
}

/// The bit of the modifier key that a configuration file names `s`.
pub open spec fn modifier_key_named(s: Seq<char>) -> Option<u8> {
    if s == "Ctrl"@ {
        Some(2u8)
    } else if s == "Alt"@ {
        Some(4u8)
    } else if s == "Shift"@ {
        Some(1u8)
    } else {
        None
    }
}

/// The bit of the modifier key named `s`.
fn modifier_key_by_name(s: &str) -> (b: Option<u8>)
    ensures
        b == modifier_key_named(s@),
{
    if str_eq(s, "Ctrl") {
        Some(2)
    } else if str_eq(s, "Alt") {
        Some(4)
    } else if str_eq(s, "Shift") {
        Some(1)
    } else {
        None
    }
}

/// The modifier bits that the list `vs` names, added to `acc`; nothing where one of its
/// values is no modifier key name.
pub open spec fn mods_scan(vs: Seq<ConfigValue>, acc: u8) -> Option<u8>
    decreases vs.len(),
{
    if vs.len() == 0 {
        Some(acc)
    } else {
        match vs[0] {
            ConfigValue::String(s) => match modifier_key_named(s@) {
                Some(b) => mods_scan(vs.drop_first(), acc | b),
                None => None,
            },
            _ => None,
        }
    }
}

/// The modifier bits of the `mod` entry `e` of a key table: a list of modifier key names.
pub open spec fn mods_outcome(e: Option<ConfigValue>) -> Option<u8> {
    match e {
        Some(ConfigValue::Array(a)) => mods_scan(a@, 0),
        _ => None,
    }
}

/// The keys that a key value stands for: a one-byte text is that character, a longer text
/// names a key, a table with `key` gives that key with the modifier keys listed under
/// `mod`, and a table with `keys` gives the first key of each value of its list. Nothing
/// where the value cannot be read so.
pub open spec fn key_outcome(v: ConfigValue) -> Option<Seq<KeyEvent>>
    decreases v,
{
    match v {
        ConfigValue::String(s) => if single_byte(s@) {
            Some(seq![plain_key(Key::Char(s@[0]))])
        } else {
            match key_named(s@) {
                Some(k) => Some(seq![plain_key(k)]),
                None => None,
            }
        },
        ConfigValue::Table(es) => if lookup(v, "key"@) is Some {
            proof {
                lemma_lookup_decreases(v, "key"@);
            }
            match (key_outcome(lookup(v, "key"@)->0), mods_outcome(lookup(v, "mod"@))) {
                (Some(ks), Some(m)) => if ks.len() > 0 {
                    Some(seq![KeyEvent { key: ks[0].key, modifiers: KeyModifiers { bits: m } }])
                } else {
                    None
                },
                _ => None,
            }
        } else {
            match lookup(v, "keys"@) {
                Some(ConfigValue::Array(a)) => {
                    proof {
                        lemma_lookup_decreases(v, "keys"@);
                    }
                    first_keys(lookup(v, "keys"@)->0, a@.len() as int)
                },
                _ => None,
            }
        },
        _ => None,
    }
}

/// The first key of each of the first `n` values of the list `l`.
pub open spec fn first_keys(l: ConfigValue, n: int) -> Option<Seq<KeyEvent>>
    decreases l, n,
{
    if let ConfigValue::Array(a) = l {
        if n <= 0 || n > a@.len() {
            Some(Seq::empty())
        } else {
            proof {
                lemma_element_decreases(l, n - 1);
            }
            match (first_keys(l, n - 1), key_outcome(a@[n - 1])) {
                (Some(ks), Some(k)) => if k.len() > 0 {
                    Some(ks.push(k[0]))
                } else {
                    None
                },
                _ => None,
            }
        }
    } else {
        None
    }
}

/// The modifier bits that the `mod` entry `e` of a key table names.
fn parse_key_mods(e: Option<&ConfigValue>) -> (r: Option<u8>)
    ensures
        r == mods_outcome(
            match e {
                Some(v) => Some(*v),
                None => None,
            },
        ),
{
    match e {
        Some(ConfigValue::Array(a)) => {
            let mut acc: u8 = 0;
            let mut i: usize = 0;
            let ghost target = mods_outcome(
                match e {
                    Some(v) => Some(*v),
                    None => None,
                },
            );
            assert(a@.skip(0) =~= a@);
            while i < a.len()
                invariant
                    i <= a@.len(),
                    target == mods_outcome(
                        match e {
                            Some(v) => Some(*v),
                            None => None,
                        },
                    ),
                    target == mods_scan(a@.skip(i as int), acc),
                decreases a.len() - i,
            {
                assert(a@.skip(i as int)[0] == a@[i as int]);
                assert(a@.skip(i as int).drop_first() =~= a@.skip(i + 1));
                match a[i].as_str() {
                    Some(s) => match modifier_key_by_name(s) {
                        Some(b) => {
                            acc = acc | b;
                        },
                        None => {
                            return None;
                        },
                    },
                    None => {
                        return None;
                    },
                }
                i = i + 1;
            }
            Some(acc)
        },
        _ => None,
    }
}

/// The keys that a key value stands for; nothing where it cannot be read.
pub fn parse_key(value: &ConfigValue) -> (r: Option<Vec<KeyEvent>>)
    ensures
        match r {
            Some(ks) => key_outcome(*value) == Some(ks@),
            None => key_outcome(*value) is None,
        },
    decreases value,
{
    match value {
        ConfigValue::String(s) => {
            let s = s.as_str();
            if s.unicode_len() == 1 && (s.get_char(0) as u32) < 128 {
                let ks = vec![KeyEvent { key: Key::Char(s.get_char(0)), modifiers: KeyModifiers::none() }];
                assert(ks@ =~= seq![plain_key(Key::Char(s@[0]))]);
                Some(ks)
            } else {
                match key_by_name(s) {
                    Some(k) => {
                        let ks = vec![KeyEvent { key: k, modifiers: KeyModifiers::none() }];
                        assert(ks@ =~= seq![plain_key(k)]);
                        Some(ks)
                    },
                    None => None,
                }
            }
        },
        ConfigValue::Table(_) => {
            match value.get("key") {
                Some(k) => {
                    proof {
                        lemma_lookup_decreases(*value, "key"@);
                    }
                    let ks = parse_key(k);
                    let m = parse_key_mods(value.get("mod"));
                    match (ks, m) {
                        (Some(ks), Some(m)) => {
                            if ks.len() > 0 {
                                let r = vec![KeyEvent { key: ks[0].key, modifiers: KeyModifiers { bits: m } }];
                                assert(r@ =~= seq![KeyEvent { key: ks@[0].key, modifiers: KeyModifiers { bits: m } }]);
                                Some(r)
                            } else {
                                None
                            }
                        },
                        _ => None,
                    }
                },
                None => match value.get("keys") {
                    Some(l) => match l {
                        ConfigValue::Array(a) => {
                            proof {
                                lemma_lookup_decreases(*value, "keys"@);
                            }
                            let mut out: Vec<KeyEvent> = Vec::new();
                            let mut i: usize = 0;
                            while i < a.len()
                                invariant
                                    i <= a@.len(),
                                    *l == ConfigValue::Array(*a),
                                    decreases_to!(*value => *l),
                                    first_keys(*l, i as int) == Some(out@),
                                    key_outcome(*value) == first_keys(*l, a@.len() as int),
                                decreases a.len() - i,
                            {
                                proof {
                                    lemma_element_decreases(*l, i as int);
                                }
                                match parse_key(&a[i]) {
                                    Some(k) => {
                                        if k.len() > 0 {
                                            out.push(k[0]);
                                        } else {
                                            proof {
                                                lemma_first_keys_stuck(*l, i + 1, a@.len() as int);
                                            }
                                            return None;
                                        }
                                    },
                                    None => {
                                        proof {
                                            lemma_first_keys_stuck(*l, i + 1, a@.len() as int);
                                        }
                                        return None;
                                    },
                                }
                                i = i + 1;
                            }
                            Some(out)
                        },
                        _ => None,
                    },
                    None => None,
                },
            }
        },
        _ => None,
    }
}


/// The key lists of the values of `vs`, one each.
pub open spec fn keys_list(vs: Seq<ConfigValue>) -> Option<Seq<Seq<KeyEvent>>>
    decreases vs.len(),
{
    if vs.len() == 0 {
        Some(Seq::empty())
    } else {
        match (keys_list(vs.drop_last()), key_outcome(vs.last())) {
            (Some(ks), Some(k)) => Some(ks.push(k)),
            _ => None,
        }
    }
}

/// The key lists that a binding value stands for: a text or a table is one key list, a
/// list holds one key list for each of its values.
pub open spec fn keys_outcome(v: ConfigValue) -> Option<Seq<Seq<KeyEvent>>> {
    match v {
        ConfigValue::Array(a) => keys_list(a@),
        ConfigValue::String(_) => match key_outcome(v) {
            Some(k) => Some(seq![k]),
            None => None,
        },
        ConfigValue::Table(_) => match key_outcome(v) {
            Some(k) => Some(seq![k]),
            None => None,
        },
        _ => None,
    }
}

/// Key lists, seen as sequences.
pub open spec fn key_lists(ks: Seq<Vec<KeyEvent>>) -> Seq<Seq<KeyEvent>> {
    ks.map_values(|k: Vec<KeyEvent>| k@)
}

/// Once the key lists of a prefix of `vs` cannot be read, those of no longer prefix can.
pub proof fn lemma_keys_list_stuck(vs: Seq<ConfigValue>, i: int, n: int)
    requires
        0 <= i <= n <= vs.len(),
        keys_list(vs.take(i)) is None,
    ensures
        keys_list(vs.take(n)) is None,
    decreases n - i,
{
    if i < n {
        lemma_keys_list_stuck(vs, i, n - 1);
        assert(vs.take(n).drop_last() =~= vs.take(n - 1));
    }
}

/// The key lists that a binding value stands for; nothing where it cannot be read.
pub fn parse_keys(value: &ConfigValue) -> (r: Option<Vec<Vec<KeyEvent>>>)
    ensures
        match r {
            Some(ks) => keys_outcome(*value) == Some(key_lists(ks@)),
            None => keys_outcome(*value) is None,
        },
{
    match value {
        ConfigValue::Array(a) => {
            let mut out: Vec<Vec<KeyEvent>> = Vec::new();
            let mut i: usize = 0;
            assert(a@.take(0) =~= Seq::<ConfigValue>::empty());
            assert(key_lists(out@) =~= Seq::empty());
            while i < a.len()
                invariant
                    i <= a@.len(),
                    keys_list(a@.take(i as int)) == Some(key_lists(out@)),
                    keys_outcome(*value) == keys_list(a@),
                decreases a.len() - i,
            {
                assert(a@.take(i + 1).drop_last() =~= a@.take(i as int));
                assert(a@.take(i + 1).last() == a@[i as int]);
                match parse_key(&a[i]) {
                    Some(k) => {
                        let ghost before = out@;
                        out.push(k);
                        assert(key_lists(out@) =~= key_lists(before).push(k@));
                    },
                    None => {
                        proof {
                            lemma_keys_list_stuck(a@, i + 1, a@.len() as int);
                            assert(a@.take(a@.len() as int) =~= a@);
                        }
                        return None;
                    },
                }
                i = i + 1;
            }
            assert(a@.take(a@.len() as int) =~= a@);
            Some(out)
        },
        ConfigValue::String(_) | ConfigValue::Table(_) => match parse_key(value) {
            Some(k) => {
                let out = vec![k];
                assert(key_lists(out@) =~= seq![out@[0]@]);
                Some(out)
            },
            None => None,
        },
        _ => None,
    }
}

/// The binding that a custom binding table gives: the first key list of its `binding` and
/// the text of its `command`.
pub open spec fn custom_binding_outcome(v: ConfigValue) -> Option<(Seq<KeyEvent>, Seq<char>)> {
    match (lookup(v, "binding"@), lookup(v, "command"@)) {
        (Some(b), Some(c)) => match (keys_outcome(b), str_of(c)) {
            (Some(ks), Some(cmd)) => if ks.len() > 0 {
                Some((ks[0], cmd))
            } else {
                None
            },
            _ => None,
        },
        _ => None,
    }
}

/// Reads a custom binding table; nothing where it cannot be read.
pub fn parse_custom_binding(value: &ConfigValue) -> (r: Option<(Vec<KeyEvent>, String)>)
    ensures
        match r {
            Some(b) => custom_binding_outcome(*value) == Some((b.0@, b.1@)),
            None => custom_binding_outcome(*value) is None,
        },
{
    let binding = match value.get("binding") {
        Some(b) => b,
        None => {
            return None;
        },
    };
    let command = match value.get("command") {
        Some(c) => match c.as_str() {
            Some(s) => s,
            None => {
                return None;
            },
        },
        None => {
            return None;
        },
    };
    match parse_keys(binding) {
        Some(ks) => {
            if ks.len() > 0 {
                let mut ks = ks;
                let first = ks.remove(0);
                Some((first, String::from_str(command)))
            } else {
                None
            }
        },
        None => None,
    }
}

/// The bindings of the values of `vs`, one each.
pub open spec fn custom_list(vs: Seq<ConfigValue>) -> Option<Seq<(Seq<KeyEvent>, Seq<char>)>>
    decreases vs.len(),
{
    if vs.len() == 0 {
        Some(Seq::empty())
    } else {
        match (custom_list(vs.drop_last()), custom_binding_outcome(vs.last())) {
            (Some(bs), Some(b)) => Some(bs.push(b)),
            _ => None,
        }
    }
}

/// The bindings that a `custom` value gives: one for each table of its list.
pub open spec fn custom_outcome(v: ConfigValue) -> Option<Seq<(Seq<KeyEvent>, Seq<char>)>> {
    match v {
        ConfigValue::Array(a) => custom_list(a@),
        _ => None,
    }
}

/// Bindings, seen as sequences and texts.
pub open spec fn binding_views(bs: Seq<(Vec<KeyEvent>, String)>) -> Seq<(Seq<KeyEvent>, Seq<char>)> {
    bs.map_values(|b: (Vec<KeyEvent>, String)| (b.0@, b.1@))
}

/// Once the bindings of a prefix of `vs` cannot be read, those of no longer prefix can.
pub proof fn lemma_custom_list_stuck(vs: Seq<ConfigValue>, i: int, n: int)
    requires
        0 <= i <= n <= vs.len(),
        custom_list(vs.take(i)) is None,
    ensures
        custom_list(vs.take(n)) is None,
    decreases n - i,
{
    if i < n {
        lemma_custom_list_stuck(vs, i, n - 1);
        assert(vs.take(n).drop_last() =~= vs.take(n - 1));
    }
}

/// Reads the custom bindings of a `custom` value; nothing where they cannot be read.
pub fn parse_custom(value: &ConfigValue) -> (r: Option<Vec<(Vec<KeyEvent>, String)>>)
    ensures
        match r {
            Some(bs) => custom_outcome(*value) == Some(binding_views(bs@)),
            None => custom_outcome(*value) is None,
        },
{
    match value {
        ConfigValue::Array(a) => {
            let mut out: Vec<(Vec<KeyEvent>, String)> = Vec::new();
            let mut i: usize = 0;
            assert(a@.take(0) =~= Seq::<ConfigValue>::empty());
            assert(binding_views(out@) =~= Seq::empty());
            while i < a.len()
                invariant
                    i <= a@.len(),
                    custom_list(a@.take(i as int)) == Some(binding_views(out@)),
                    custom_outcome(*value) == custom_list(a@),
                decreases a.len() - i,
            {
                assert(a@.take(i + 1).drop_last() =~= a@.take(i as int));
                assert(a@.take(i + 1).last() == a@[i as int]);
                match parse_custom_binding(&a[i]) {
                    Some(b) => {
                        let ghost before = out@;
                        out.push(b);
                        assert(binding_views(out@) =~= binding_views(before).push((b.0@, b.1@)));
                    },
                    None => {
                        proof {
                            lemma_custom_list_stuck(a@, i + 1, a@.len() as int);
                            assert(a@.take(a@.len() as int) =~= a@);
                        }
                        return None;
                    },
                }
                i = i + 1;
            }
            assert(a@.take(a@.len() as int) =~= a@);
            Some(out)
        },
        _ => None,
    }
}

/// The commands that a table of key bindings may bind by name.
pub open spec fn bindable_commands() -> Seq<Seq<char>> {
    seq![
        "right"@,
        "left"@,
        "up"@,
        "down"@,
        "start_of_file"@,
        "end_of_file"@,
        "page_up"@,
        "page_down"@,
        "half_page_up"@,
        "half_page_down"@,
        "split_horizontal"@,
        "split_vertical"@,
        "pane_left"@,
        "pane_right"@,
        "pane_up"@,
        "pane_down"@,
        "new_tab"@,
        "new_tab_current_pane"@,
        "tab_left"@,
        "tab_right"@,
        "jump_forwards"@,
        "jump_backwards"@,
        "cancel"@,
        "start_of_line"@,
        "end_of_line"@,
        "up_line_start"@,
        "down_line_start"@,
        "goto_line"@,
        "next_word_front"@,
        "next_word_back"@,
        "previous_word_front"@,
        "previous_word_back"@,
        "goto_pair"@,
        "jump_paragraph"@,
        "jump_paragraph_back"@,
        "insert_before"@,
        "insert_after"@,
        "insert_start"@,
        "insert_end"@,
        "insert_below"@,
        "insert_above"@,
        "command_mode"@,
        "selection_mode"@,
        "selection_mode_line"@,
        "selection_mode_block"@,
        "search_mode_down"@,
        "search_mode_up"@,
        "replace_mode"@,
        "paste_before"@,
        "paste_after"@,
        "copy_char"@,
        "copy_line"@,
        "copy_word"@,
        "copy_to_next_word"@,
        "copy_to_prev_word"@,
        "copy_to_end_line"@,
        "copy_to_start_line"@,
        "cut_char"@,
        "cut_line"@,
        "cut_word"@,
        "cut_to_next_word"@,
        "cut_to_prev_word"@,
        "cut_to_end_line"@,
        "cut_to_start_line"@,
        "delete_char"@,
        "delete_line"@,
        "delete_word"@,
        "delete_to_next_word"@,
        "delete_to_prev_word"@,
        "delete_to_end_line"@,
        "delete_to_start_line"@,
        "open_completion"@,
        "undo"@,
        "redo"@,
        "replace"@,
        "backspace"@,
        "delete"@,
        "newline"@,
        "tab"@,
        "start"@,
        "end"@,
        "execute"@,
        "paste"@,
        "copy"@,
        "cut"@,
        "next_match"@,
        "previous_match"@,
        "delete_search"@,
    ]
}

/// The commands that a table of key bindings may bind by name.
fn bindable_command_list() -> (v: Vec<&'static str>)
    ensures
        v@.map_values(|s: &str| s@) == bindable_commands(),
{
    let v = vec![
        "right",
        "left",
        "up",
        "down",
        "start_of_file",
        "end_of_file",
        "page_up",
        "page_down",
        "half_page_up",
        "half_page_down",
        "split_horizontal",
        "split_vertical",
        "pane_left",
        "pane_right",
        "pane_up",
        "pane_down",
        "new_tab",
        "new_tab_current_pane",
        "tab_left",
        "tab_right",
        "jump_forwards",
        "jump_backwards",
        "cancel",
        "start_of_line",
        "end_of_line",
        "up_line_start",
        "down_line_start",
        "goto_line",
        "next_word_front",
        "next_word_back",
        "previous_word_front",
        "previous_word_back",
        "goto_pair",
        "jump_paragraph",
        "jump_paragraph_back",
        "insert_before",
        "insert_after",
        "insert_start",
        "insert_end",
        "insert_below",
        "insert_above",
        "command_mode",
        "selection_mode",
        "selection_mode_line",
        "selection_mode_block",
        "search_mode_down",
        "search_mode_up",
        "replace_mode",
        "paste_before",
        "paste_after",
        "copy_char",
        "copy_line",
        "copy_word",
        "copy_to_next_word",
        "copy_to_prev_word",
        "copy_to_end_line",
        "copy_to_start_line",
        "cut_char",
        "cut_line",
        "cut_word",
        "cut_to_next_word",
        "cut_to_prev_word",
        "cut_to_end_line",
        "cut_to_start_line",
        "delete_char",
        "delete_line",
        "delete_word",
        "delete_to_next_word",
        "delete_to_prev_word",
        "delete_to_end_line",
        "delete_to_start_line",
        "open_completion",
        "undo",
        "redo",
        "replace",
        "backspace",
        "delete",
        "newline",
        "tab",
        "start",
        "end",
        "execute",
        "paste",
        "copy",
        "cut",
        "next_match",
        "previous_match",
        "delete_search",
    ];
    assert(v@.map_values(|s: &str| s@) =~= bindable_commands());
    v
}

/// The bindings, in order, that the table `t` gives the commands `cmds`: each key list of
/// the value under a command's name, bound to that command.
pub open spec fn command_pairs(t: ConfigValue, cmds: Seq<Seq<char>>) -> Option<Seq<(Seq<KeyEvent>, Seq<char>)>>
    decreases cmds.len(),
{
    if cmds.len() == 0 {
        Some(Seq::empty())
    } else {
        match command_pairs(t, cmds.drop_last()) {
            Some(ps) => match lookup(t, cmds.last()) {
                None => Some(ps),
                Some(v) => match keys_outcome(v) {
                    Some(ks) => Some(ps + ks.map_values(|k: Seq<KeyEvent>| (k, cmds.last()))),
                    None => None,
                },
            },
            None => None,
        }
    }
}

/// The bindings, in order, that the table `t` of one mode gives: those of the commands
/// `cmds` by name, then those of its `custom` list.
pub open spec fn binding_pairs(t: ConfigValue, cmds: Seq<Seq<char>>) -> Option<Seq<(Seq<KeyEvent>, Seq<char>)>> {
    match command_pairs(t, cmds) {
        Some(ps) => match lookup(t, "custom"@) {
            None => Some(ps),
            Some(c) => match custom_outcome(c) {
                Some(cs) => Some(ps + cs),
                None => None,
            },
        },
        None => None,
    }
}

/// Binds each key list of `ks` to `command` in `b`.
fn bind_all(b: &mut Bindings, ks: Vec<Vec<KeyEvent>>, command: &str)
    ensures
        final(b)@ == assoc_map_onto(old(b)@, key_lists(ks@).map_values(|k: Seq<KeyEvent>| (k, command@))),
{
    let mut ks = ks;
    let ghost all = key_lists(ks@).map_values(|k: Seq<KeyEvent>| (k, command@));
    let ghost mut done: int = 0;
    proof {
        assert(all.take(0) =~= Seq::empty());
    }
    while ks.len() > 0
        invariant
            0 <= done <= all.len(),
            ks@.len() + done == all.len(),
            forall|j: int| 0 <= j < ks@.len() ==> #[trigger] ks@[j]@ == all[done + j].0,
            forall|j: int| 0 <= j < all.len() ==> #[trigger] all[j].1 == command@,
            b@ == assoc_map_onto(old(b)@, all.take(done)),
        decreases ks.len(),
    {
        let ghost before = ks@;
        let k = ks.remove(0);
        proof {
            assert(before[0]@ == all[done].0);
            assert forall|j: int| 0 <= j < ks@.len() implies #[trigger] ks@[j]@ == all[done + 1 + j].0 by {
                assert(ks@[j] == before[j + 1]);
            }
        }
        b.insert(k, String::from_str(command));
        proof {
            assert(all.take(done + 1).drop_last() =~= all.take(done));
            done = done + 1;
        }
    }
    proof {
        assert(all.take(done) =~= all);
    }
}

/// The map that the pairs `ps`, laid over `m` in order, give.
pub open spec fn assoc_map_onto<K, V>(m: Map<K, V>, ps: Seq<(K, V)>) -> Map<K, V>
    decreases ps.len(),
{
    if ps.len() == 0 {
        m
    } else {
        assoc_map_onto(m, ps.drop_last()).insert(ps.last().0, ps.last().1)
    }
}

/// Laying pairs over a map in two runs is laying their concatenation.
pub proof fn lemma_assoc_map_onto_concat<K, V>(m: Map<K, V>, ps: Seq<(K, V)>, qs: Seq<(K, V)>)
    ensures
        assoc_map_onto(assoc_map_onto(m, ps), qs) == assoc_map_onto(m, ps + qs),
    decreases qs.len(),
{
    if qs.len() > 0 {
        lemma_assoc_map_onto_concat(m, ps, qs.drop_last());
        assert((ps + qs).drop_last() =~= ps + qs.drop_last());
    } else {
        assert(ps + qs =~= ps);
    }
}

/// Laying pairs over no binding is the map of the pairs.
pub proof fn lemma_assoc_map_onto_empty<K, V>(ps: Seq<(K, V)>)
    ensures
        assoc_map_onto(Map::empty(), ps) == assoc_map(ps),
    decreases ps.len(),
{
    if ps.len() > 0 {
        lemma_assoc_map_onto_empty(ps.drop_last());
    }
}

/// Once the bindings of a prefix of the commands cannot be read, those of no longer prefix can.
pub proof fn lemma_command_pairs_stuck(t: ConfigValue, cmds: Seq<Seq<char>>, i: int, n: int)
    requires
        0 <= i <= n <= cmds.len(),
        command_pairs(t, cmds.take(i)) is None,
    ensures
        command_pairs(t, cmds.take(n)) is None,
    decreases n - i,
{
    if i < n {
        lemma_command_pairs_stuck(t, cmds, i, n - 1);
        assert(cmds.take(n).drop_last() =~= cmds.take(n - 1));
    }
}

/// Reads the key bindings of the table `table` of one mode, for the commands `commands`;
/// nothing where they cannot be read.
pub fn parse_keybindings(table: &ConfigValue, commands: &Vec<&str>) -> (r: Option<Bindings>)
    ensures
        match r {
            Some(b) => binding_pairs(*table, commands@.map_values(|s: &str| s@)) matches Some(ps)
                && b@ == assoc_map(ps),
            None => binding_pairs(*table, commands@.map_values(|s: &str| s@)) is None,
        },
{
    let ghost cmds = commands@.map_values(|s: &str| s@);
    let mut b = Bindings::new();
    let mut i: usize = 0;
    proof {
        assert(cmds.take(0) =~= Seq::<Seq<char>>::empty());
    }
    while i < commands.len()
        invariant
            i <= commands@.len(),
            cmds == commands@.map_values(|s: &str| s@),
            command_pairs(*table, cmds.take(i as int)) matches Some(ps) && b@ == assoc_map_onto(
                Map::empty(),
                ps,
            ),
        decreases commands.len() - i,
    {
        let ghost ps = command_pairs(*table, cmds.take(i as int))->0;
        proof {
            assert(cmds.take(i + 1).drop_last() =~= cmds.take(i as int));
            assert(cmds.take(i + 1).last() == commands@[i as int]@);
        }
        let command = commands[i];
        match table.get(command) {
            Some(v) => match parse_keys(v) {
                Some(ks) => {
                    let ghost before = b@;
                    bind_all(&mut b, ks, command);
                    proof {
                        lemma_assoc_map_onto_concat(
                            Map::empty(),
                            ps,
                            key_lists(ks@).map_values(|k: Seq<KeyEvent>| (k, command@)),
                        );
                    }
                },
                None => {
                    proof {
                        lemma_command_pairs_stuck(*table, cmds, i + 1, cmds.len() as int);
                        assert(cmds.take(cmds.len() as int) =~= cmds);
                    }
                    return None;
                },
            },
            None => {},
        }
        i = i + 1;
    }
    proof {
        assert(cmds.take(cmds.len() as int) =~= cmds);
    }
    let ghost ps = command_pairs(*table, cmds)->0;
    match table.get("custom") {
        Some(c) => match parse_custom(c) {
            Some(cs) => {
                let mut cs = cs;
                let ghost all = binding_views(cs@);
                let ghost mut done: int = 0;
                proof {
                    assert(all.take(0) =~= Seq::empty());
                    assert(ps + all.take(0) =~= ps);
                }
                while cs.len() > 0
                    invariant
                        0 <= done <= all.len(),
                        cs@.len() + done == all.len(),
                        forall|j: int| 0 <= j < cs@.len() ==> (#[trigger] cs@[j].0@, cs@[j].1@) == all[done + j],
                        b@ == assoc_map_onto(Map::empty(), ps + all.take(done)),
                    decreases cs.len(),
                {
                    let ghost before = cs@;
                    let e = cs.remove(0);
                    proof {
                        assert((before[0].0@, before[0].1@) == all[done]);
                        assert forall|j: int| 0 <= j < cs@.len() implies (#[trigger] cs@[j].0@, cs@[j].1@)
                            == all[done + 1 + j] by {
                            assert(cs@[j] == before[j + 1]);
                        }
                    }
                    b.insert(e.0, e.1);
                    proof {
                        assert((ps + all.take(done + 1)).drop_last() =~= ps + all.take(done));
                        done = done + 1;
                    }
                }
                proof {
                    assert(all.take(done) =~= all);
                    lemma_assoc_map_onto_empty(ps + all);
                }
                Some(b)
            },
            None => None,
        },
        None => {
            proof {
                lemma_assoc_map_onto_empty(ps);
            }
            Some(b)
        },
    }
}


/// The bindings that the table named `name` of the key bindings document `doc` gives: none
/// where it has no such table.
pub open spec fn mode_table_bindings(doc: ConfigValue, name: Seq<char>) -> Option<Map<Seq<KeyEvent>, Seq<char>>> {
    match lookup(doc, name) {
        None => Some(Map::empty()),
        Some(t) => match binding_pairs(t, bindable_commands()) {
            Some(ps) => Some(assoc_map(ps)),
            None => None,
        },
    }
}

/// The key bindings that the document `doc` gives: those of its `Universal` table for every
/// mode, and those of its `Normal`, `Insert`, `Command`, `Selection`, `Search` and `Replace`
/// tables for each of these modes. Nothing where one of them cannot be read.
pub open spec fn user_bindings(doc: ConfigValue) -> Option<KeybindingsView> {
    let u = mode_table_bindings(doc, "Universal"@);
    let n = mode_table_bindings(doc, "Normal"@);
    let i = mode_table_bindings(doc, "Insert"@);
    let c = mode_table_bindings(doc, "Command"@);
    let s = mode_table_bindings(doc, "Selection"@);
    let f = mode_table_bindings(doc, "Search"@);
    let r = mode_table_bindings(doc, "Replace"@);
    if u is Some && n is Some && i is Some && c is Some && s is Some && f is Some && r is Some {
        Some(
            KeybindingsView {
                universal: u->0,
                modes: Map::empty().insert("Normal"@, n->0).insert("Insert"@, i->0).insert(
                    "Command"@,
                    c->0,
                ).insert("Selection"@, s->0).insert("Search"@, f->0).insert("Replace"@, r->0),
            },
        )
    } else {
        None
    }
}

/// The bindings of the table named `name` of the document `doc`.
fn mode_table(doc: &ConfigValue, name: &str, commands: &Vec<&str>) -> (r: Option<Bindings>)
    requires
        commands@.map_values(|s: &str| s@) == bindable_commands(),
    ensures
        match r {
            Some(b) => mode_table_bindings(*doc, name@) == Some(b@),
            None => mode_table_bindings(*doc, name@) is None,
        },
{
    match doc.get(name) {
        Some(t) => parse_keybindings(t, commands),
        None => Some(Bindings::new()),
    }
}

impl ModeKeybindings {
    /// The key bindings of the key bindings file text `file_string`; nothing where it is no
    /// TOML document or one of its tables cannot be read.
    pub fn load_user_bindings(file_string: &str) -> (r: Option<ModeKeybindings>)
        ensures
            match toml_document(file_string@) {
                Some(doc) => match user_bindings(doc) {
                    Some(k) => r matches Some(m) && m@ == k,
                    None => r is None,
                },
                None => r is None,
            },
    {
        let doc = match parse_toml_document(file_string) {
            Some(d) => d,
            None => {
                return None;
            },
        };
        let commands = bindable_command_list();
        let universal = mode_table(&doc, "Universal", &commands);
        let normal = mode_table(&doc, "Normal", &commands);
        let insert = mode_table(&doc, "Insert", &commands);
        let command = mode_table(&doc, "Command", &commands);
        let selection = mode_table(&doc, "Selection", &commands);
        let search = mode_table(&doc, "Search", &commands);
        let replace = mode_table(&doc, "Replace", &commands);
        match (universal, normal, insert, command, selection, search, replace) {
            (Some(u), Some(n), Some(i), Some(c), Some(s), Some(f), Some(r)) => {
                let ghost views = seq![
                    ("Normal"@, n@),
                    ("Insert"@, i@),
                    ("Command"@, c@),
                    ("Selection"@, s@),
                    ("Search"@, f@),
                    ("Replace"@, r@),
                ];
                let mut modes: Vec<(String, Bindings)> = Vec::new();
                modes.push((String::from_str("Normal"), n));
                modes.push((String::from_str("Insert"), i));
                modes.push((String::from_str("Command"), c));
                modes.push((String::from_str("Selection"), s));
                modes.push((String::from_str("Search"), f));
                modes.push((String::from_str("Replace"), r));
                let k = ModeKeybindings::from_parts(u, modes);
                proof {
                    let ms = mode_views(modes@);
                    assert(ms =~= views);
                    reveal_with_fuel(assoc_map, 7);
                    assert(ms.drop_last().drop_last().drop_last().drop_last().drop_last().drop_last() =~= Seq::empty());
                    assert(ms.drop_last().drop_last().drop_last().drop_last().drop_last() =~= seq![views[0]]);
                    assert(ms.drop_last().drop_last().drop_last().drop_last() =~= seq![views[0], views[1]]);
                    assert(ms.drop_last().drop_last().drop_last() =~= seq![views[0], views[1], views[2]]);
                    assert(k@ =~= user_bindings(doc)->0);
                }
                Some(k)
            },
            _ => None,
        }
    }
}

} // verus!
