use vstd::prelude::*;
use vstd::string::StringExecFns;
use crate::file::str_eq;
use crate::default_bindings::{
    command_table, generate_command_keybindings, generate_insert_keybindings,
    generate_normal_keybindings, generate_search_keybindings, generate_selection_keybindings,
    generate_universal_keybindings, insert_table, normal_table, search_table, selection_table,
    universal_table,
};
use crate::key::KeyEvent;

verus! {

/// The map that a list of pairs stands for: a later pair wins over an earlier one of the same
/// key.
pub open spec fn assoc_map<K, V>(s: Seq<(K, V)>) -> Map<K, V>
    decreases s.len(),
{
    if s.len() == 0 {
        Map::empty()
    } else {
        assoc_map(s.drop_last()).insert(s.last().0, s.last().1)
    }
}

/// Whether `i` is the last index of `s` whose key is `k`.
pub open spec fn last_with_key<K, V>(s: Seq<(K, V)>, k: K, i: int) -> bool {
    &&& 0 <= i < s.len()
    &&& s[i].0 == k
    &&& forall|j: int| i < j < s.len() ==> s[j].0 != k
}

/// The value of a key is that of its last pair.
pub proof fn lemma_assoc_lookup<K, V>(s: Seq<(K, V)>, k: K, i: int)
    requires
        last_with_key(s, k, i),
    ensures
        assoc_map(s).contains_key(k),
        assoc_map(s)[k] == s[i].1,
    decreases s.len(),
{
    if i < s.len() - 1 {
        lemma_assoc_lookup(s.drop_last(), k, i);
    }
}

/// A key of no pair is not in the map.
pub proof fn lemma_assoc_absent<K, V>(s: Seq<(K, V)>, k: K)
    requires
        forall|j: int| 0 <= j < s.len() ==> s[j].0 != k,
    ensures
        !assoc_map(s).contains_key(k),
    decreases s.len(),
{
    if s.len() > 0 {
        lemma_assoc_absent(s.drop_last(), k);
    }
}

/// Giving the last pair of a key a new value gives the key that value in the map.
pub proof fn lemma_assoc_update<K, V>(s: Seq<(K, V)>, i: int, k: K, v: V)
    requires
        last_with_key(s, k, i),
    ensures
        assoc_map(s.update(i, (k, v))) == assoc_map(s).insert(k, v),
    decreases s.len(),
{
    let t = s.update(i, (k, v));
    if i == s.len() - 1 {
        assert(t.drop_last() =~= s.drop_last());
        assert(assoc_map(t) =~= assoc_map(s).insert(k, v));
    } else {
        lemma_assoc_update(s.drop_last(), i, k, v);
        assert(t.drop_last() =~= s.drop_last().update(i, (k, v)));
        assert(t.last() == s.last());
        assert(assoc_map(t) =~= assoc_map(s).insert(k, v));
    }
}

/// Whether two key sequences are equal.
pub fn keys_eq(a: &Vec<KeyEvent>, b: &Vec<KeyEvent>) -> (e: bool)
    ensures
        e == (a@ == b@),
{
    if a.len() != b.len() {
        return false;
    }
    let mut i: usize = 0;
    while i < a.len()
        invariant
            a@.len() == b@.len(),
            i <= a@.len(),
            forall|j: int| 0 <= j < i ==> a@[j] == b@[j],
        decreases a.len() - i,
    {
        if a[i] != b[i] {
            return false;
        }
        i = i + 1;
    }
    assert(a@ =~= b@);
    true
}

/// The commands bound to key sequences, the later binding of a sequence winning.
pub struct Bindings {
    entries: Vec<(Vec<KeyEvent>, String)>,
}

/// The pairs of a list of bindings, seen as sequences and texts.
pub open spec fn entry_views(es: Seq<(Vec<KeyEvent>, String)>) -> Seq<(Seq<KeyEvent>, Seq<char>)> {
    es.map_values(|e: (Vec<KeyEvent>, String)| (e.0@, e.1@))
}

impl View for Bindings {
    type V = Map<Seq<KeyEvent>, Seq<char>>;

    closed spec fn view(&self) -> Map<Seq<KeyEvent>, Seq<char>> {
        assoc_map(entry_views(self.entries@))
    }
}

impl Bindings {
    /// No binding.
    pub fn new() -> (b: Bindings)
        ensures
            b@ == Map::<Seq<KeyEvent>, Seq<char>>::empty(),
    {
        let b = Bindings { entries: Vec::new() };
        assert(entry_views(b.entries@) =~= Seq::empty());
        b
    }

    /// The index of the last binding of `keys`, if there is one.
    fn find(&self, keys: &Vec<KeyEvent>) -> (r: Option<usize>)
        ensures
            r matches Some(i) ==> last_with_key(entry_views(self.entries@), keys@, i as int),
            r is None ==> forall|j: int|
                0 <= j < self.entries@.len() ==> #[trigger] entry_views(self.entries@)[j].0 != keys@,
    {
        let mut i = self.entries.len();
        while i > 0
            invariant
                i <= self.entries@.len(),
                forall|j: int|
                    i <= j < self.entries@.len() ==> #[trigger] entry_views(self.entries@)[j].0 != keys@,
            decreases i,
        {
            if keys_eq(&self.entries[i - 1].0, keys) {
                return Some(i - 1);
            }
            i = i - 1;
        }
        None
    }

    /// The command bound to `keys`, if any.
    pub fn get(&self, keys: &Vec<KeyEvent>) -> (r: Option<&String>)
        ensures
            r matches Some(s) ==> self@.contains_key(keys@) && self@[keys@] == s@,
            r is None ==> !self@.contains_key(keys@),
    {
        match self.find(keys) {
            Some(i) => {
                proof {
                    lemma_assoc_lookup(entry_views(self.entries@), keys@, i as int);
                }
                Some(&self.entries[i].1)
            },
            None => {
                proof {
                    lemma_assoc_absent(entry_views(self.entries@), keys@);
                }
                None
            },
        }
    }

    /// Binds `keys` to `command`, in place of any binding it had.
    pub fn insert(&mut self, keys: Vec<KeyEvent>, command: String)
        ensures
            final(self)@ == old(self)@.insert(keys@, command@),
    {
        let ghost k = keys@;
        let ghost v = command@;
        match self.find(&keys) {
            Some(i) => {
                self.entries.set(i, (keys, command));
                proof {
                    lemma_assoc_update(entry_views(old(self).entries@), i as int, k, v);
                    assert(entry_views(self.entries@) =~= entry_views(old(self).entries@).update(
                        i as int,
                        (k, v),
                    ));
                }
            },
            None => {
                self.entries.push((keys, command));
                proof {
                    assert(entry_views(self.entries@).drop_last() =~= entry_views(old(self).entries@));
                }
            },
        }
    }

    /// Adds every binding of `other`, a binding of `other` winning over one of the same keys.
    pub fn extend(&mut self, other: Bindings)
        ensures
            final(self)@ == old(self)@.union_prefer_right(other@),
    {
        let mut entries = other.entries;
        let ghost es = entry_views(entries@);
        let ghost mut i: int = 0;
        proof {
            assert(es.skip(0) =~= es);
            assert(assoc_map(es.take(0)) =~= Map::empty());
            assert(old(self)@.union_prefer_right(Map::empty()) =~= old(self)@);
        }
        while entries.len() > 0
            invariant
                0 <= i <= es.len(),
                entries@.len() + i == es.len(),
                entry_views(entries@) == es.skip(i),
                self@ == old(self)@.union_prefer_right(assoc_map(es.take(i))),
            decreases entries.len(),
        {
            let ghost before = self@;
            let ghost old_e = entries@;
            let e = entries.remove(0);
            proof {
                assert(entries@ =~= old_e.subrange(1, old_e.len() as int));
                assert(entry_views(old_e)[0] == (e.0@, e.1@));
                assert forall|j: int| 0 <= j < entries@.len() implies #[trigger] entry_views(entries@)[j]
                    == es.skip(i + 1)[j] by {
                    assert(entry_views(entries@)[j] == entry_views(old_e)[j + 1]);
                }
                assert(es.skip(i)[0] == (e.0@, e.1@));
                assert(entry_views(entries@) =~= es.skip(i + 1));
            }
            self.insert(e.0, e.1);
            proof {
                assert(es.take(i + 1).drop_last() =~= es.take(i));
                assert(self@ =~= old(self)@.union_prefer_right(assoc_map(es.take(i + 1))));
                i = i + 1;
            }
        }
        proof {
            assert(es.take(i) =~= es);
        }
    }
}

/// The abstract state of the key bindings: those of every mode, and those that hold in all.
pub struct KeybindingsView {
    pub universal: Map<Seq<KeyEvent>, Seq<char>>,
    pub modes: Map<Seq<char>, Map<Seq<KeyEvent>, Seq<char>>>,
}

/// The command that `keys` run in `mode`: the mode's own binding, else the universal one.
pub open spec fn lookup(k: KeybindingsView, mode: Seq<char>, keys: Seq<KeyEvent>) -> Option<Seq<char>> {
    if k.modes.contains_key(mode) && k.modes[mode].contains_key(keys) {
        Some(k.modes[mode][keys])
    } else if k.universal.contains_key(keys) {
        Some(k.universal[keys])
    } else {
        None
    }
}

/// The command that `keys` run in `mode` by the mode's own bindings.
pub open spec fn lookup_mode(k: KeybindingsView, mode: Seq<char>, keys: Seq<KeyEvent>) -> Option<Seq<char>> {
    if k.modes.contains_key(mode) && k.modes[mode].contains_key(keys) {
        Some(k.modes[mode][keys])
    } else {
        None
    }
}

/// The bindings after `keys` are bound to `command` in `mode`.
pub open spec fn with_binding(k: KeybindingsView, mode: Seq<char>, keys: Seq<KeyEvent>, command: Seq<char>) -> KeybindingsView {
    KeybindingsView {
        modes: k.modes.insert(
            mode,
            (if k.modes.contains_key(mode) { k.modes[mode] } else { Map::empty() }).insert(keys, command),
        ),
        ..k
    }
}


/// The bindings of mode `m` in `a`, with the bindings `b` laid over them.
pub open spec fn merge_mode(
    a: Map<Seq<char>, Map<Seq<KeyEvent>, Seq<char>>>,
    m: Seq<char>,
    b: Map<Seq<KeyEvent>, Seq<char>>,
) -> Map<Seq<KeyEvent>, Seq<char>> {
    if a.contains_key(m) {
        a[m].union_prefer_right(b)
    } else {
        b
    }
}

/// The modes of `a` with those of `b` laid over them, mode by mode.
pub open spec fn merged_modes(
    a: Map<Seq<char>, Map<Seq<KeyEvent>, Seq<char>>>,
    b: Map<Seq<char>, Map<Seq<KeyEvent>, Seq<char>>>,
) -> Map<Seq<char>, Map<Seq<KeyEvent>, Seq<char>>> {
    Map::new(
        |m: Seq<char>| a.contains_key(m) || b.contains_key(m),
        |m: Seq<char>|
            if b.contains_key(m) {
                merge_mode(a, m, b[m])
            } else {
                a[m]
            },
    )
}

/// The key bindings `a` with the bindings `b` laid over them: each binding of `b` wins over
/// one of the same keys in the same mode (or in all modes), and the others of `a` stay.
pub open spec fn merged(a: KeybindingsView, b: KeybindingsView) -> KeybindingsView {
    KeybindingsView {
        universal: a.universal.union_prefer_right(b.universal),
        modes: merged_modes(a.modes, b.modes),
    }
}

/// The modes of `a` with the entries of `ms` before index `j` laid over them, each entry
/// where it is the last of its name.
pub open spec fn overlay(
    a: Map<Seq<char>, Map<Seq<KeyEvent>, Seq<char>>>,
    ms: Seq<(Seq<char>, Map<Seq<KeyEvent>, Seq<char>>)>,
    j: int,
) -> Map<Seq<char>, Map<Seq<KeyEvent>, Seq<char>>>
    decreases j,
{
    if j <= 0 {
        a
    } else {
        let prev = overlay(a, ms, j - 1);
        if last_with_key(ms, ms[j - 1].0, j - 1) {
            prev.insert(ms[j - 1].0, merge_mode(prev, ms[j - 1].0, ms[j - 1].1))
        } else {
            prev
        }
    }
}

/// A key has at most one last index.
pub proof fn lemma_last_unique<K, V>(s: Seq<(K, V)>, k: K, i: int, i2: int)
    requires
        last_with_key(s, k, i),
        last_with_key(s, k, i2),
    ensures
        i == i2,
{
}

/// A key of some pair has a last index.
pub proof fn lemma_last_exists<K, V>(s: Seq<(K, V)>, k: K, i: int)
    requires
        0 <= i < s.len(),
        s[i].0 == k,
    ensures
        exists|l: int| last_with_key(s, k, l),
    decreases s.len() - i,
{
    if !last_with_key(s, k, i) {
        let j = choose|j: int| i < j < s.len() && s[j].0 == k;
        lemma_last_exists(s, k, j);
    }
}

/// What the overlay holds for a mode `m`: the merged bindings where the last entry of `m`
/// comes before `j`, else what `a` holds.
pub proof fn lemma_overlay_at(
    a: Map<Seq<char>, Map<Seq<KeyEvent>, Seq<char>>>,
    ms: Seq<(Seq<char>, Map<Seq<KeyEvent>, Seq<char>>)>,
    j: int,
    m: Seq<char>,
)
    requires
        0 <= j <= ms.len(),
    ensures
        (exists|k: int| k < j && last_with_key(ms, m, k)) ==> overlay(a, ms, j).contains_key(m)
            && overlay(a, ms, j)[m] == merge_mode(a, m, ms[choose|k: int| k < j && last_with_key(ms, m, k)].1),
        !(exists|k: int| k < j && last_with_key(ms, m, k)) ==> (overlay(a, ms, j).contains_key(m)
            == a.contains_key(m) && (a.contains_key(m) ==> overlay(a, ms, j)[m] == a[m])),
    decreases j,
{
    if j > 0 {
        lemma_overlay_at(a, ms, j - 1, m);
        let e = ms[j - 1];
        if exists|k: int| k < j - 1 && last_with_key(ms, m, k) {
            let k = choose|k: int| k < j - 1 && last_with_key(ms, m, k);
            let k2 = choose|k: int| k < j && last_with_key(ms, m, k);
            lemma_last_unique(ms, m, k, k2);
            if last_with_key(ms, e.0, j - 1) && e.0 == m {
                lemma_last_unique(ms, m, k, j - 1);
            }
        } else if last_with_key(ms, e.0, j - 1) && e.0 == m {
            lemma_overlay_at(a, ms, j - 1, e.0);
            let k2 = choose|k: int| k < j && last_with_key(ms, m, k);
            lemma_last_unique(ms, m, k2, j - 1);
        } else {
            if exists|k: int| k < j && last_with_key(ms, m, k) {
                let k2 = choose|k: int| k < j && last_with_key(ms, m, k);
                assert(k2 == j - 1);
            }
        }
    }
}

/// Laying every entry of `ms` over `a` is merging the map of `ms` into `a`.
pub proof fn lemma_overlay_all(
    a: Map<Seq<char>, Map<Seq<KeyEvent>, Seq<char>>>,
    ms: Seq<(Seq<char>, Map<Seq<KeyEvent>, Seq<char>>)>,
)
    ensures
        overlay(a, ms, ms.len() as int) == merged_modes(a, assoc_map(ms)),
{
    let o = overlay(a, ms, ms.len() as int);
    let mm = merged_modes(a, assoc_map(ms));
    assert forall|m: Seq<char>| #[trigger] o.contains_key(m) == mm.contains_key(m) && (o.contains_key(m)
        ==> o[m] == mm[m]) by {
        lemma_overlay_at(a, ms, ms.len() as int, m);
        if exists|k: int| k < ms.len() && last_with_key(ms, m, k) {
            let k = choose|k: int| k < ms.len() && last_with_key(ms, m, k);
            lemma_assoc_lookup(ms, m, k);
        } else {
            if exists|i: int| 0 <= i < ms.len() && ms[i].0 == m {
                let i = choose|i: int| 0 <= i < ms.len() && ms[i].0 == m;
                lemma_last_exists(ms, m, i);
                let l = choose|l: int| last_with_key(ms, m, l);
                assert(l < ms.len() && last_with_key(ms, m, l));
            }
            lemma_assoc_absent(ms, m);
        }
    }
    assert(o =~= mm);
}

/// The key bindings of every mode, and those that hold in all modes.
pub struct ModeKeybindings {
    universal_bindings: Bindings,
    bindings: Vec<(String, Bindings)>,
}

/// The pairs of a list of modes, seen as names and maps.
pub open spec fn mode_views(ms: Seq<(String, Bindings)>) -> Seq<(Seq<char>, Map<Seq<KeyEvent>, Seq<char>>)> {
    ms.map_values(|m: (String, Bindings)| (m.0@, m.1@))
}

impl View for ModeKeybindings {
    type V = KeybindingsView;

    closed spec fn view(&self) -> KeybindingsView {
        KeybindingsView {
            universal: self.universal_bindings@,
            modes: assoc_map(mode_views(self.bindings@)),
        }
    }
}

impl ModeKeybindings {
    /// No binding at all.
    pub fn empty() -> (k: ModeKeybindings)
        ensures
            k@.universal == Map::<Seq<KeyEvent>, Seq<char>>::empty(),
            k@.modes == Map::<Seq<char>, Map<Seq<KeyEvent>, Seq<char>>>::empty(),
    {
        let k = ModeKeybindings { universal_bindings: Bindings::new(), bindings: Vec::new() };
        assert(mode_views(k.bindings@) =~= Seq::empty());
        k
    }

    /// The index of the last entry of `mode`, if there is one.
    fn find_mode(&self, mode: &str) -> (r: Option<usize>)
        ensures
            r matches Some(i) ==> last_with_key(mode_views(self.bindings@), mode@, i as int),
            r is None ==> forall|j: int|
                0 <= j < self.bindings@.len() ==> #[trigger] mode_views(self.bindings@)[j].0 != mode@,
    {
        let mut i = self.bindings.len();
        while i > 0
            invariant
                i <= self.bindings@.len(),
                forall|j: int|
                    i <= j < self.bindings@.len() ==> #[trigger] mode_views(self.bindings@)[j].0 != mode@,
            decreases i,
        {
            if str_eq(self.bindings[i - 1].0.as_str(), mode) {
                return Some(i - 1);
            }
            i = i - 1;
        }
        None
    }

    /// The command that `keys` run in `mode`: the mode's own binding, else the universal one.
    pub fn get(&mut self, mode: &String, keys: &Vec<KeyEvent>) -> (r: Option<&String>)
        ensures
            final(self)@ == old(self)@,
            r matches Some(s) ==> lookup(old(self)@, mode@, keys@) == Some(s@),
            r is None ==> lookup(old(self)@, mode@, keys@) is None,
    {
        match self.find_mode(mode.as_str()) {
            Some(i) => {
                proof {
                    lemma_assoc_lookup(mode_views(self.bindings@), mode@, i as int);
                }
                match self.bindings[i].1.get(keys) {
                    Some(c) => Some(c),
                    None => self.universal_bindings.get(keys),
                }
            },
            None => {
                proof {
                    lemma_assoc_absent(mode_views(self.bindings@), mode@);
                }
                self.universal_bindings.get(keys)
            },
        }
    }

    /// The command that `keys` run in `mode` by the mode's own bindings.
    pub fn get_ignore_universal(&mut self, mode: &String, keys: &Vec<KeyEvent>) -> (r: Option<&String>)
        ensures
            final(self)@ == old(self)@,
            r matches Some(s) ==> lookup_mode(old(self)@, mode@, keys@) == Some(s@),
            r is None ==> lookup_mode(old(self)@, mode@, keys@) is None,
    {
        match self.find_mode(mode.as_str()) {
            Some(i) => {
                proof {
                    lemma_assoc_lookup(mode_views(self.bindings@), mode@, i as int);
                }
                self.bindings[i].1.get(keys)
            },
            None => {
                proof {
                    lemma_assoc_absent(mode_views(self.bindings@), mode@);
                }
                None
            },
        }
    }

    /// Binds `keys` to `command` in every mode.
    pub fn set_universal(&mut self, keys: Vec<KeyEvent>, command: &str)
        ensures
            final(self)@ == (KeybindingsView {
                universal: old(self)@.universal.insert(keys@, command@),
                ..old(self)@
            }),
    {
        self.universal_bindings.insert(keys, String::from_str(command));
    }

    /// Binds `keys` to `command` in `mode`.
    pub fn set(&mut self, mode: &str, keys: Vec<KeyEvent>, command: &str)
        ensures
            final(self)@ == with_binding(old(self)@, mode@, keys@, command@),
    {
        let ghost kv = keys@;
        match self.find_mode(mode) {
            Some(i) => {
                let (name, mut b) = self.bindings.remove(i);
                proof {
                    lemma_assoc_lookup(mode_views(old(self).bindings@), mode@, i as int);
                }
                b.insert(keys, String::from_str(command));
                let ghost nb = b@;
                self.bindings.insert(i, (name, b));
                proof {
                    lemma_assoc_update(mode_views(old(self).bindings@), i as int, mode@, nb);
                    assert(mode_views(self.bindings@) =~= mode_views(old(self).bindings@).update(
                        i as int,
                        (mode@, nb),
                    ));
                }
            },
            None => {
                proof {
                    lemma_assoc_absent(mode_views(self.bindings@), mode@);
                }
                let mut b = Bindings::new();
                b.insert(keys, String::from_str(command));
                self.bindings.push((String::from_str(mode), b));
                proof {
                    assert(mode_views(self.bindings@).drop_last() =~= mode_views(old(self).bindings@));
                }
            },
        }
        assert(self@.modes =~= with_binding(old(self)@, mode@, kv, command@).modes);
    }

    /// Lays the bindings `b` over those of `mode`, or gives `mode` those bindings where it
    /// has none.
    fn extend_mode(&mut self, mode: String, b: Bindings)
        ensures
            final(self)@.universal == old(self)@.universal,
            final(self)@.modes == old(self)@.modes.insert(mode@, merge_mode(old(self)@.modes, mode@, b@)),
    {
        match self.find_mode(mode.as_str()) {
            Some(i) => {
                let (name, mut mb) = self.bindings.remove(i);
                proof {
                    lemma_assoc_lookup(mode_views(old(self).bindings@), mode@, i as int);
                }
                mb.extend(b);
                let ghost nb = mb@;
                self.bindings.insert(i, (name, mb));
                proof {
                    lemma_assoc_update(mode_views(old(self).bindings@), i as int, mode@, nb);
                    assert(mode_views(self.bindings@) =~= mode_views(old(self).bindings@).update(
                        i as int,
                        (mode@, nb),
                    ));
                }
            },
            None => {
                proof {
                    lemma_assoc_absent(mode_views(self.bindings@), mode@);
                }
                let ghost nb = b@;
                self.bindings.push((mode, b));
                proof {
                    assert(mode_views(self.bindings@).drop_last() =~= mode_views(old(self).bindings@));
                    assert(mode_views(self.bindings@).last() == (mode@, nb));
                }
            },
        }
    }

    /// Lays the bindings of `other` over these: each of its bindings wins over one of the
    /// same keys in the same mode, or in all modes for its universal ones.
    pub fn merge_bindings(&mut self, other: ModeKeybindings)
        ensures
            final(self)@ == merged(old(self)@, other@),
    {
        let ModeKeybindings { universal_bindings: other_universal, bindings: mut entries } = other;
        let ghost ms = mode_views(entries@);
        self.universal_bindings.extend(other_universal);
        let ghost mut done: int = 0;
        while entries.len() > 0
            invariant
                0 <= done <= ms.len(),
                entries@.len() + done == ms.len(),
                forall|j: int| 0 <= j < entries@.len() ==> #[trigger] mode_views(entries@)[j] == ms[done + j],
                self@.universal == old(self)@.universal.union_prefer_right(other@.universal),
                self@.modes == overlay(old(self)@.modes, ms, done),
            decreases entries.len(),
        {
            let ghost before = entries@;
            let (name, b) = entries.remove(0);
            proof {
                assert(mode_views(before)[0] == ms[done]);
                assert forall|j: int| 0 <= j < entries@.len() implies #[trigger] mode_views(entries@)[j]
                    == ms[done + 1 + j] by {
                    assert(entries@[j] == before[j + 1]);
                    assert(mode_views(before)[j + 1] == ms[done + j + 1]);
                }
            }
            let mut later = false;
            let mut j: usize = 0;
            while j < entries.len()
                invariant
                    j <= entries@.len(),
                    later == exists|k: int| 0 <= k < j && #[trigger] mode_views(entries@)[k].0 == name@,
                decreases entries.len() - j,
            {
                assert(mode_views(entries@)[j as int].0 == entries@[j as int].0@);
                if str_eq(entries[j].0.as_str(), name.as_str()) {
                    later = true;
                }
                j = j + 1;
            }
            proof {
                if later {
                    let k = choose|k: int| 0 <= k < entries@.len() && #[trigger] mode_views(entries@)[k].0 == name@;
                    assert(ms[done + 1 + k].0 == name@);
                    assert(!last_with_key(ms, ms[done].0, done));
                } else {
                    assert forall|k: int| done < k < ms.len() implies ms[k].0 != ms[done].0 by {
                        assert(mode_views(entries@)[k - done - 1] == ms[k]);
                    }
                    assert(last_with_key(ms, ms[done].0, done));
                }
            }
            if !later {
                self.extend_mode(name, b);
            }
            proof {
                done = done + 1;
            }
        }
        proof {
            lemma_overlay_all(old(self)@.modes, ms);
        }
    }

    /// The bindings `universal`, which hold in every mode, and those of each mode of `modes`
    /// (a later entry of a mode winning over an earlier one).
    pub fn from_parts(universal: Bindings, modes: Vec<(String, Bindings)>) -> (k: ModeKeybindings)
        ensures
            k@.universal == universal@,
            k@.modes == assoc_map(mode_views(modes@)),
    {
        ModeKeybindings { universal_bindings: universal, bindings: modes }
    }
}

/// After the bindings `b` are laid over `a`, a mode's own binding of some keys is the one of
/// `b` where `b` has one, else the one of `a`; the same holds of the bindings of all modes.
pub proof fn law_merge_prefers_later(a: KeybindingsView, b: KeybindingsView, mode: Seq<char>, keys: Seq<KeyEvent>)
    ensures
        lookup_mode(merged(a, b), mode, keys) == if lookup_mode(b, mode, keys) is Some {
            lookup_mode(b, mode, keys)
        } else {
            lookup_mode(a, mode, keys)
        },
        merged(a, b).universal.contains_key(keys) == (b.universal.contains_key(keys)
            || a.universal.contains_key(keys)),
        merged(a, b).universal.contains_key(keys) ==> merged(a, b).universal[keys] == if b.universal.contains_key(
            keys,
        ) {
            b.universal[keys]
        } else {
            a.universal[keys]
        },
{
}

/// After a binding is set in a mode, its keys run its command in that mode.
pub proof fn law_get_after_set(k: KeybindingsView, mode: Seq<char>, keys: Seq<KeyEvent>, command: Seq<char>)
    ensures
        lookup(with_binding(k, mode, keys, command), mode, keys) == Some(command),
        lookup_mode(with_binding(k, mode, keys, command), mode, keys) == Some(command),
{
}

/// Setting a binding changes no other binding: other keys, and other modes, run what they ran.
pub proof fn law_set_keeps_others(
    k: KeybindingsView,
    mode: Seq<char>,
    keys: Seq<KeyEvent>,
    command: Seq<char>,
    other_mode: Seq<char>,
    other_keys: Seq<KeyEvent>,
)
    requires
        other_mode != mode || other_keys != keys,
    ensures
        lookup(with_binding(k, mode, keys, command), other_mode, other_keys) == lookup(k, other_mode, other_keys),
        lookup_mode(with_binding(k, mode, keys, command), other_mode, other_keys) == lookup_mode(
            k,
            other_mode,
            other_keys,
        ),
{
}

/// A mode's own binding wins over the universal one; without it the universal one holds.
pub proof fn law_mode_over_universal(k: KeybindingsView, mode: Seq<char>, keys: Seq<KeyEvent>)
    ensures
        lookup_mode(k, mode, keys) is Some ==> lookup(k, mode, keys) == lookup_mode(k, mode, keys),
        lookup_mode(k, mode, keys) is None ==> lookup(k, mode, keys) == (if k.universal.contains_key(keys) {
            Some(k.universal[keys])
        } else {
            None
        }),
{
}

/// The default key bindings: the universal table, and the tables of the normal, insert,
/// command, selection and search modes.
pub open spec fn default_keybindings() -> KeybindingsView {
    KeybindingsView {
        universal: universal_table(),
        modes: Map::empty().insert("Normal"@, normal_table()).insert("Insert"@, insert_table()).insert(
            "Command"@,
            command_table(),
        ).insert("Selection"@, selection_table()).insert("Search"@, search_table()),
    }
}

impl Default for ModeKeybindings {
    fn default() -> (k: ModeKeybindings)
        ensures
            k@ == default_keybindings(),
    {
        let mut bindings: Vec<(String, Bindings)> = Vec::new();
        bindings.push((String::from_str("Normal"), generate_normal_keybindings()));
        bindings.push((String::from_str("Insert"), generate_insert_keybindings()));
        bindings.push((String::from_str("Command"), generate_command_keybindings()));
        bindings.push((String::from_str("Selection"), generate_selection_keybindings()));
        bindings.push((String::from_str("Search"), generate_search_keybindings()));
        let k = ModeKeybindings { universal_bindings: generate_universal_keybindings(), bindings };
        proof {
            let ms = mode_views(k.bindings@);
            assert(ms =~= seq![
                ("Normal"@, normal_table()),
                ("Insert"@, insert_table()),
                ("Command"@, command_table()),
                ("Selection"@, selection_table()),
                ("Search"@, search_table()),
            ]);
            reveal_with_fuel(assoc_map, 6);
            assert(ms.drop_last().drop_last().drop_last().drop_last().drop_last() =~= Seq::empty());
            assert(ms.drop_last().drop_last().drop_last().drop_last() =~= seq![("Normal"@, normal_table())]);
            assert(ms.drop_last().drop_last().drop_last() =~= seq![("Normal"@, normal_table()), ("Insert"@, insert_table())]);
            assert(assoc_map(ms) =~= default_keybindings().modes);
        }
        k
    }
}

} // verus!
