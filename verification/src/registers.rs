use arboard::Clipboard;
use std::collections::HashMap;
use vstd::prelude::*;
use crate::file::str_eq;
use crate::keybindings::{assoc_map, last_with_key, lemma_assoc_absent, lemma_assoc_lookup, lemma_assoc_update};
use crate::style::{join, join_strings};

verus! {

broadcast use vstd::std_specs::hash::group_hash_axioms;

#[verifier::external_type_specification]
#[verifier::external_body]
pub struct ExClipboard(Clipboard);

/// Calls `Clipboard::new` of arboard. Whether the system clipboard can be had depends on the
/// machine, so nothing is claimed of the outcome.
#[verifier::external_body]
fn clipboard_new() -> Option<Clipboard> {
    Clipboard::new().ok()
}

/// Calls `Clipboard::get_text` of arboard: the text on the system clipboard, or nothing where
/// it holds none. What the clipboard holds is set outside this program, so nothing is claimed
/// of the result.
#[verifier::external_body]
fn clipboard_get_text(c: &mut Clipboard) -> Option<String> {
    c.get_text().ok()
}

/// Calls `Clipboard::set_text` of arboard with `text`, whether or not it succeeds. Claimed:
/// the text handed to the system clipboard is `text`. What the clipboard holds afterwards is up
/// to the system, so nothing is claimed of it.
#[verifier::external_body]
fn clipboard_set_text(c: &mut Clipboard, text: String) -> (sent: Ghost<Seq<char>>)
    ensures
        sent@ == text@,
{
    let sent = Ghost(text@);
    let _ = c.set_text(text);
    sent
}

/// A message to the registers, or a reply from them.
pub enum RegisterMessage {
    /// Store the text in the named register.
    AddNamed(String, String),
    /// Store the text in the numbered register.
    AddNumbered(usize, String),
    /// Ask for the text of the named register.
    GetNamed(String),
    /// Ask for the text of the numbered register.
    GetNumbered(usize),
    /// Put the text on the clipboard.
    SetClipboard(String),
    /// Put several texts on the clipboard, joined by line feeds, and keep them apart.
    SetMulti(Vec<String>),
    /// Ask for the text of the clipboard, and the texts kept apart, if any.
    GetClipboard,
    /// The reply to a question: a text, and texts kept apart.
    RegisterResult(Option<String>, Option<Vec<String>>),
    /// Stop handling messages.
    Quit,
}

/// Where the clipboard is kept: on the system, or in the registers themselves where the
/// system has none.
pub enum ClipboardSlot {
    System(Clipboard),
    Local(Option<String>),
}

/// The registers: named and numbered texts, a clipboard, texts kept apart by the last copy of
/// several texts, and whether they have been told to stop.
pub struct Registers {
    clipboard: ClipboardSlot,
    named: Vec<(String, String)>,
    numbered: HashMap<usize, String>,
    multi: Option<Vec<String>>,
    quit: bool,
    sent: Ghost<Option<Seq<char>>>,
}

/// The abstract state of the registers; the clipboard is seen only where the registers keep
/// it themselves, and of the system clipboard only the last text handed to it.
pub struct RegistersView {
    pub named: Map<Seq<char>, Seq<char>>,
    pub numbered: Map<usize, Seq<char>>,
    pub local_clipboard: Option<Option<Seq<char>>>,
    pub multi: Option<Seq<Seq<char>>>,
    pub quit: bool,
    pub system_sent: Option<Seq<char>>,
}

/// The pairs of the named registers, seen as texts.
pub open spec fn named_views(es: Seq<(String, String)>) -> Seq<(Seq<char>, Seq<char>)> {
    es.map_values(|e: (String, String)| (e.0@, e.1@))
}

/// The numbered registers, their texts seen as sequences.
pub open spec fn texts_by_number(m: Map<usize, String>) -> Map<usize, Seq<char>> {
    m.map_values(|s: String| s@)
}

/// Texts seen as sequences.
pub open spec fn texts_view(ts: Seq<String>) -> Seq<Seq<char>> {
    ts.map_values(|t: String| t@)
}

/// An optional text seen as a sequence.
pub open spec fn opt_text(t: Option<String>) -> Option<Seq<char>> {
    match t {
        Some(s) => Some(s@),
        None => None,
    }
}

/// Optional texts seen as sequences.
pub open spec fn opt_texts(t: Option<Vec<String>>) -> Option<Seq<Seq<char>>> {
    match t {
        Some(v) => Some(texts_view(v@)),
        None => None,
    }
}

/// The value of `k` in `m`, if any.
pub open spec fn map_get<K, V>(m: Map<K, V>, k: K) -> Option<V> {
    if m.contains_key(k) {
        Some(m[k])
    } else {
        None
    }
}

impl View for Registers {
    type V = RegistersView;

    closed spec fn view(&self) -> RegistersView {
        RegistersView {
            named: assoc_map(named_views(self.named@)),
            numbered: texts_by_number(self.numbered@),
            local_clipboard: match self.clipboard {
                ClipboardSlot::System(_) => None,
                ClipboardSlot::Local(c) => Some(opt_text(c)),
            },
            multi: opt_texts(self.multi),
            quit: self.quit,
            system_sent: self.sent@,
        }
    }
}

/// The last text handed to the system clipboard after `text` is put on the clipboard: `text`
/// where the clipboard is the system's, the one before where the registers keep it.
pub open spec fn sent_after(local: Option<Option<Seq<char>>>, before: Option<Seq<char>>, text: Seq<char>) -> Option<Seq<char>> {
    match local {
        Some(_) => before,
        None => Some(text),
    }
}

/// The clipboard state after `text` is put on it: kept by the registers where they keep it,
/// handed to the system where it is there.
pub open spec fn clipboard_after(local: Option<Option<Seq<char>>>, text: Seq<char>) -> Option<Option<Seq<char>>> {
    match local {
        Some(_) => Some(Some(text)),
        None => None,
    }
}

impl Registers {
    /// Registers with nothing stored, using the system clipboard where there is one.
    pub fn new() -> (r: Registers)
        ensures
            r@.named == Map::<Seq<char>, Seq<char>>::empty(),
            r@.numbered == Map::<usize, Seq<char>>::empty(),
            r@.local_clipboard is None || r@.local_clipboard == Some(None::<Seq<char>>),
            r@.multi is None,
            !r@.quit,
            r@.system_sent is None,
    {
        let clipboard = match clipboard_new() {
            Some(c) => ClipboardSlot::System(c),
            None => ClipboardSlot::Local(None),
        };
        let r = Registers { clipboard, named: Vec::new(), numbered: HashMap::new(), multi: None, quit: false, sent: Ghost(None) };
        assert(named_views(r.named@) =~= Seq::empty());
        assert(texts_by_number(r.numbered@) =~= Map::empty());
        r
    }

    /// Whether the registers have been told to stop.
    pub fn has_quit(&self) -> (q: bool)
        ensures
            q == self@.quit,
    {
        self.quit
    }

    /// The index of the last named register called `name`, if any.
    fn find_named(&self, name: &str) -> (r: Option<usize>)
        ensures
            r matches Some(i) ==> last_with_key(named_views(self.named@), name@, i as int),
            r is None ==> forall|j: int|
                0 <= j < self.named@.len() ==> #[trigger] named_views(self.named@)[j].0 != name@,
    {
        let mut i = self.named.len();
        while i > 0
            invariant
                i <= self.named@.len(),
                forall|j: int|
                    i <= j < self.named@.len() ==> #[trigger] named_views(self.named@)[j].0 != name@,
            decreases i,
        {
            if str_eq(self.named[i - 1].0.as_str(), name) {
                return Some(i - 1);
            }
            i = i - 1;
        }
        None
    }

    /// The text of the named register `name`, if any.
    pub fn get_named(&self, name: &str) -> (r: Option<&String>)
        ensures
            match r {
                Some(s) => map_get(self@.named, name@) == Some(s@),
                None => map_get(self@.named, name@) is None,
            },
    {
        match self.find_named(name) {
            Some(i) => {
                proof {
                    lemma_assoc_lookup(named_views(self.named@), name@, i as int);
                }
                Some(&self.named[i].1)
            },
            None => {
                proof {
                    lemma_assoc_absent(named_views(self.named@), name@);
                }
                None
            },
        }
    }

    /// Stores `value` in the named register `name`.
    pub fn set_named(&mut self, name: String, value: String)
        ensures
            final(self)@ == (RegistersView { named: old(self)@.named.insert(name@, value@), ..old(self)@ }),
    {
        let ghost k = name@;
        let ghost v = value@;
        match self.find_named(name.as_str()) {
            Some(i) => {
                self.named.set(i, (name, value));
                proof {
                    lemma_assoc_update(named_views(old(self).named@), i as int, k, v);
                    assert(named_views(self.named@) =~= named_views(old(self).named@).update(i as int, (k, v)));
                }
            },
            None => {
                self.named.push((name, value));
                proof {
                    assert(named_views(self.named@).drop_last() =~= named_views(old(self).named@));
                }
            },
        }
        assert(self@.named =~= old(self)@.named.insert(k, v));
    }

    /// The text of the numbered register `n`, if any.
    pub fn get_numbered(&self, n: usize) -> (r: Option<&String>)
        ensures
            match r {
                Some(s) => map_get(self@.numbered, n) == Some(s@),
                None => map_get(self@.numbered, n) is None,
            },
    {
        self.numbered.get(&n)
    }

    /// Stores `value` in the numbered register `n`.
    pub fn set_numbered(&mut self, n: usize, value: String)
        ensures
            final(self)@ == (RegistersView { numbered: old(self)@.numbered.insert(n, value@), ..old(self)@ }),
    {
        let ghost v = value@;
        self.numbered.insert(n, value);
        assert(self@.numbered =~= old(self)@.numbered.insert(n, v));
    }

    /// The text of the clipboard: the one the registers keep, or whatever the system
    /// clipboard holds.
    pub fn get_clipboard(&mut self) -> (r: Option<String>)
        ensures
            final(self)@ == old(self)@,
            old(self)@.local_clipboard matches Some(c) ==> opt_text(r) == c,
    {
        match &mut self.clipboard {
            ClipboardSlot::System(c) => clipboard_get_text(c),
            ClipboardSlot::Local(c) => c.clone(),
        }
    }

    /// Puts `value` on the clipboard.
    pub fn set_clipboard(&mut self, value: String)
        ensures
            final(self)@ == (RegistersView {
                local_clipboard: clipboard_after(old(self)@.local_clipboard, value@),
                system_sent: sent_after(old(self)@.local_clipboard, old(self)@.system_sent, value@),
                ..old(self)@
            }),
    {
        match &mut self.clipboard {
            ClipboardSlot::System(c) => {
                let sent = clipboard_set_text(c, value);
                self.sent = Ghost(Some(sent@));
            },
            ClipboardSlot::Local(c) => {
                *c = Some(value);
            },
        }
    }

    /// Handles one message: stores what it gives, and hands back the reply to a question.
    pub fn handle_message(&mut self, message: RegisterMessage) -> (reply: Option<RegisterMessage>)
        ensures
            match message {
                RegisterMessage::AddNamed(n, v) => reply is None && final(self)@ == (RegistersView {
                    named: old(self)@.named.insert(n@, v@),
                    ..old(self)@
                }),
                RegisterMessage::AddNumbered(k, v) => reply is None && final(self)@ == (RegistersView {
                    numbered: old(self)@.numbered.insert(k, v@),
                    ..old(self)@
                }),
                RegisterMessage::GetNamed(n) => final(self)@ == old(self)@ && (reply matches Some(
                    RegisterMessage::RegisterResult(t, None),
                ) && opt_text(t) == map_get(old(self)@.named, n@)),
                RegisterMessage::GetNumbered(k) => final(self)@ == old(self)@ && (reply matches Some(
                    RegisterMessage::RegisterResult(t, None),
                ) && opt_text(t) == map_get(old(self)@.numbered, k)),
                RegisterMessage::SetClipboard(v) => reply is None && final(self)@ == (RegistersView {
                    local_clipboard: clipboard_after(old(self)@.local_clipboard, v@),
                    system_sent: sent_after(old(self)@.local_clipboard, old(self)@.system_sent, v@),
                    ..old(self)@
                }),
                RegisterMessage::SetMulti(ms) => reply is None && final(self)@ == (RegistersView {
                    local_clipboard: clipboard_after(old(self)@.local_clipboard, join(texts_view(ms@), "\n"@)),
                    system_sent: sent_after(
                        old(self)@.local_clipboard,
                        old(self)@.system_sent,
                        join(texts_view(ms@), "\n"@),
                    ),
                    multi: Some(texts_view(ms@)),
                    ..old(self)@
                }),
                RegisterMessage::GetClipboard => final(self)@ == (RegistersView { multi: None, ..old(self)@ })
                    && (reply matches Some(RegisterMessage::RegisterResult(t, m)) && opt_texts(m)
                    == old(self)@.multi && (old(self)@.local_clipboard matches Some(c) ==> opt_text(t) == c)),
                RegisterMessage::RegisterResult(_, _) => reply is None && final(self)@ == old(self)@,
                RegisterMessage::Quit => reply is None && final(self)@ == (RegistersView {
                    quit: true,
                    ..old(self)@
                }),
            },
    {
        match message {
            RegisterMessage::AddNamed(name, value) => {
                self.set_named(name, value);
                None
            },
            RegisterMessage::AddNumbered(n, value) => {
                self.set_numbered(n, value);
                None
            },
            RegisterMessage::GetNamed(name) => {
                let t = match self.get_named(name.as_str()) {
                    Some(s) => Some(s.clone()),
                    None => None,
                };
                Some(RegisterMessage::RegisterResult(t, None))
            },
            RegisterMessage::GetNumbered(n) => {
                let t = match self.get_numbered(n) {
                    Some(s) => Some(s.clone()),
                    None => None,
                };
                Some(RegisterMessage::RegisterResult(t, None))
            },
            RegisterMessage::SetClipboard(value) => {
                self.set_clipboard(value);
                None
            },
            RegisterMessage::GetClipboard => {
                let t = self.get_clipboard();
                let m = self.multi.take();
                Some(RegisterMessage::RegisterResult(t, m))
            },
            RegisterMessage::RegisterResult(_, _) => None,
            RegisterMessage::Quit => {
                self.quit = true;
                None
            },
            RegisterMessage::SetMulti(multi) => {
                let joined = join_strings(&multi, "\n");
                self.set_clipboard(joined);
                self.multi = Some(multi);
                None
            },
        }
    }
}

/// After a text is stored in a named register, asking for that register gives it back.
pub proof fn law_named_register_read_after_write(v: RegistersView, name: Seq<char>, text: Seq<char>)
    ensures
        map_get(RegistersView { named: v.named.insert(name, text), ..v }.named, name) == Some(text),
{
}

/// After a text is put on a clipboard that the registers keep, asking for the clipboard
/// gives it back.
pub proof fn law_local_clipboard_read_after_write(v: RegistersView, text: Seq<char>)
    requires
        v.local_clipboard is Some,
    ensures
        clipboard_after(v.local_clipboard, text) == Some(Some(text)),
{
}

} // verus!
