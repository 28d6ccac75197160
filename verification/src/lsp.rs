use std::collections::HashMap;
use vstd::prelude::*;
use vstd::string::StringExecFns;

verus! {

broadcast use vstd::std_specs::hash::group_hash_axioms;

/// A place in a text document: a line and a character on it, both from 0.
#[derive(Debug, PartialEq, Eq, Hash, Clone, Copy, Structural)]
pub struct Position {
    pub line: usize,
    pub character: usize,
}

/// A range of a text document between two positions.
#[derive(Debug, PartialEq, Eq, Hash, Clone, Copy, Structural)]
pub struct LspRange {
    pub start: Position,
    pub end: Position,
}

impl LspRange {
    /// The start and the end, each as its character and its line.
    pub fn get_positions(&self) -> (p: ((usize, usize), (usize, usize)))
        ensures
            p == ((self.start.character, self.start.line), (self.end.character, self.end.line)),
    {
        let start = (self.start.character, self.start.line);
        let end = (self.end.character, self.end.line);
        (start, end)
    }
}

/// A link to the description of a diagnostic's code.
#[derive(Debug, PartialEq, Eq, Hash, Clone)]
pub struct CodeDescription {
    pub href: String,
}

/// Extra data of a diagnostic: its rendered text.
#[derive(Debug, PartialEq, Eq, Hash, Clone)]
pub struct Data {
    pub rendered: String,
}

/// An error or a warning that a language server reports for a range of a document.
#[derive(Debug, PartialEq, Eq, Hash, Clone)]
pub struct Diagnostic {
    /// The type of the diagnostic.
    pub code: Option<String>,
    /// The description of the diagnostic.
    pub code_description: Option<CodeDescription>,
    /// Additional metadata about the diagnostic.
    pub data: Option<Data>,
    /// The message to display to the user.
    pub message: String,
    /// The range where the error/warning is located in the source code.
    pub range: LspRange,
    /// The severity of the error/warning.
    pub severity: usize,
    /// The source of the error/warning which is the LSP
    pub source: Option<String>,
}

/// The diagnostics that a language server published for a document.
#[derive(Debug, PartialEq)]
pub struct Diagnostics {
    pub diagnostics: Vec<Diagnostic>,
    pub uri: String,
    pub version: Option<usize>,
}

/// Whether the range of `d` spans line `line`.
pub open spec fn on_line(d: Diagnostic, line: usize) -> bool {
    d.range.start.line <= line <= d.range.end.line
}

/// Whether the range of `d` spans line `line` and, by column alone, character `character`.
pub open spec fn covers(d: Diagnostic, line: usize, character: usize) -> bool {
    &&& on_line(d, line)
    &&& d.range.start.character <= character <= d.range.end.character
}

impl Diagnostics {
    /// No diagnostic, for no document, at version 0.
    pub fn new() -> (d: Self)
        ensures
            d.diagnostics@ == Seq::<Diagnostic>::empty(),
            d.uri@ == Seq::<char>::empty(),
            d.version == Some(0usize),
    {
        Diagnostics { diagnostics: Vec::new(), uri: String::new(), version: Some(0) }
    }

    /// The diagnostics whose range spans line `line`, in order.
    pub fn diagnostics_on_line(&self, line: usize) -> (r: Vec<&Diagnostic>)
        ensures
            r@.map_values(|d: &Diagnostic| *d) == self.diagnostics@.filter(|d: Diagnostic| on_line(d, line)),
    {
        let mut result: Vec<&Diagnostic> = Vec::new();
        let mut i: usize = 0;
        assert(result@.map_values(|d: &Diagnostic| *d) =~= Seq::empty());
        assert(self.diagnostics@.take(0).filter(|d: Diagnostic| on_line(d, line)) =~= Seq::empty());
        while i < self.diagnostics.len()
            invariant
                i <= self.diagnostics@.len(),
                result@.map_values(|d: &Diagnostic| *d) == self.diagnostics@.take(i as int).filter(|d: Diagnostic| on_line(d, line)),
            decreases self.diagnostics.len() - i,
        {
            let d = &self.diagnostics[i];
            proof {
                assert(self.diagnostics@.take(i + 1).drop_last() =~= self.diagnostics@.take(i as int));
                reveal(Seq::filter);
            }
            let ghost before = result@;
            if line >= d.range.start.line && line <= d.range.end.line {
                result.push(d);
                assert(result@.map_values(|d: &Diagnostic| *d) =~= before.map_values(|d: &Diagnostic| *d).push(*d));
            }
            i = i + 1;
        }
        assert(self.diagnostics@.take(i as int) =~= self.diagnostics@);
        result
    }

    /// The first diagnostic whose range covers character `character` of line `line`, if any.
    pub fn get_diagnostic(&self, line: usize, character: usize) -> (r: Option<&Diagnostic>)
        ensures
            r matches Some(d) ==> exists|i: int|
                0 <= i < self.diagnostics@.len() && self.diagnostics@[i] == *d && covers(*d, line, character)
                    && forall|j: int| 0 <= j < i ==> !covers(#[trigger] self.diagnostics@[j], line, character),
            r is None ==> forall|j: int|
                0 <= j < self.diagnostics@.len() ==> !covers(#[trigger] self.diagnostics@[j], line, character),
    {
        let mut i: usize = 0;
        while i < self.diagnostics.len()
            invariant
                i <= self.diagnostics@.len(),
                forall|j: int| 0 <= j < i ==> !covers(#[trigger] self.diagnostics@[j], line, character),
            decreases self.diagnostics.len() - i,
        {
            let d = &self.diagnostics[i];
            if line >= d.range.start.line && line <= d.range.end.line {
                if character >= d.range.start.character && character <= d.range.end.character {
                    return Some(d);
                }
            }
            i = i + 1;
        }
        None
    }

    /// Adds the diagnostics of `other` after these.
    pub fn merge(&mut self, other: Diagnostics)
        ensures
            final(self).diagnostics@ == old(self).diagnostics@ + other.diagnostics@,
            final(self).uri == old(self).uri,
            final(self).version == old(self).version,
    {
        let mut other = other;
        self.diagnostics.append(&mut other.diagnostics);
    }
}

/// Documentation as plain text or as marked-up content.
#[derive(Debug, PartialEq, Eq, Hash, Clone)]
pub enum DocumentationType {
    String(String),
    MarkupContent(MarkupContent),
}

/// Marked-up text and the kind of its markup.
#[derive(Debug, PartialEq, Eq, Hash, Clone)]
pub struct MarkupContent {
    pub kind: String,
    pub value: String,
}

/// A range of a document.
#[derive(Debug, PartialEq, Eq, Hash, Clone)]
pub struct Location {
    pub uri: String,
    pub range: LspRange,
}

/// A link from a range of one document to a range of another.
#[allow(non_snake_case)]
#[derive(Debug, PartialEq, Eq, Hash, Clone)]
pub struct LocationLink {
    pub originSelectionRange: Option<LspRange>,
    pub targetUri: String,
    pub targetRange: LspRange,
    pub targetSelectionRange: LspRange,
}

/// What a language server answers to a request for a location.
#[derive(Debug, PartialEq, Eq, Hash, Clone)]
pub enum LocationResponse {
    Location(Location),
    LocationLink(LocationLink),
    Locations(Vec<Location>),
    Null,
}

/// More about the label of a completion.
#[derive(Debug, PartialEq, Eq, Hash, Clone)]
pub struct CompletionItemLabelDetails {
    detail: Option<String>,
    description: Option<String>,
}

/// An edit that puts new text in place of a range.
#[allow(non_snake_case)]
#[derive(Debug, PartialEq, Eq, Hash, Clone)]
pub struct TextEdit {
    pub range: LspRange,
    pub newText: String,
}

impl TextEdit {
    /// The start and the end of the range, each as its character and its line.
    pub fn get_range(&self) -> (p: ((usize, usize), (usize, usize)))
        ensures
            p == ((self.range.start.character, self.range.start.line), (
                self.range.end.character,
                self.range.end.line,
            )),
    {
        let start = self.range.start;
        let end = self.range.end;
        ((start.character, start.line), (end.character, end.line))
    }
}

/// An edit that inserts new text at one range or puts it in place of another.
#[derive(Debug, PartialEq, Eq, Hash, Clone)]
pub struct InsertReplaceEdit {
    pub insert: LspRange,
    pub replace: LspRange,
    pub new_text: String,
}

/// An edit of either kind.
#[derive(Debug, PartialEq, Eq, Hash, Clone)]
pub enum TextEditType {
    TextEdit(TextEdit),
    InsertReplaceEdit(InsertReplaceEdit),
}

/// A proposed completion, with what the editor reads of it: its label, its kind, and the texts
/// it may insert.
#[allow(non_snake_case)]
#[derive(Debug, PartialEq, Clone)]
pub struct CompletionItem {
    pub label: String,
    pub labelDetails: Option<CompletionItemLabelDetails>,
    pub kind: usize,
    pub detail: Option<String>,
    pub documentation: Option<DocumentationType>,
    pub deprecated: Option<bool>,
    pub preselect: Option<bool>,
    pub sortText: Option<String>,
    pub filterText: Option<String>,
    pub insertText: Option<String>,
    pub insertTextFormat: Option<usize>,
    pub insertTextMode: Option<usize>,
    pub textEdit: Option<TextEditType>,
    pub textEditText: Option<String>,
    pub additionalTextEdits: Option<Vec<TextEdit>>,
    pub commitCharacters: Option<Vec<String>>,
}

/// The name of a completion kind of the language server protocol.
pub open spec fn kind_name(kind: usize) -> Seq<char> {
    if kind == 1 {
        "Text"@
    } else if kind == 2 {
        "Method"@
    } else if kind == 3 {
        "Function"@
    } else if kind == 4 {
        "Constructor"@
    } else if kind == 5 {
        "Field"@
    } else if kind == 6 {
        "Variable"@
    } else if kind == 7 {
        "Class"@
    } else if kind == 8 {
        "Interface"@
    } else if kind == 9 {
        "Module"@
    } else if kind == 10 {
        "Property"@
    } else if kind == 11 {
        "Unit"@
    } else if kind == 12 {
        "Value"@
    } else if kind == 13 {
        "Enum"@
    } else if kind == 14 {
        "Keyword"@
    } else if kind == 15 {
        "Snippet"@
    } else if kind == 16 {
        "Color"@
    } else if kind == 17 {
        "File"@
    } else if kind == 18 {
        "Reference"@
    } else if kind == 19 {
        "Folder"@
    } else if kind == 20 {
        "EnumMember"@
    } else if kind == 21 {
        "Constant"@
    } else if kind == 22 {
        "Struct"@
    } else if kind == 23 {
        "Event"@
    } else if kind == 24 {
        "Operator"@
    } else if kind == 25 {
        "TypeParameter"@
    } else {
        "Unknown"@
    }
}

/// The name of a completion kind.
fn kind_name_exec(kind: usize) -> (s: &'static str)
    ensures
        s@ == kind_name(kind),
{
    match kind {
        1 => "Text",
        2 => "Method",
        3 => "Function",
        4 => "Constructor",
        5 => "Field",
        6 => "Variable",
        7 => "Class",
        8 => "Interface",
        9 => "Module",
        10 => "Property",
        11 => "Unit",
        12 => "Value",
        13 => "Enum",
        14 => "Keyword",
        15 => "Snippet",
        16 => "Color",
        17 => "File",
        18 => "Reference",
        19 => "Folder",
        20 => "EnumMember",
        21 => "Constant",
        22 => "Struct",
        23 => "Event",
        24 => "Operator",
        25 => "TypeParameter",
        _ => "Unknown",
    }
}

/// The text that a completion inserts: that of its edit, else its edit text, else its insert
/// text, else nothing.
pub open spec fn insert_text_of(c: CompletionItem) -> Seq<char> {
    match c.textEdit {
        Some(TextEditType::TextEdit(e)) => e.newText@,
        Some(TextEditType::InsertReplaceEdit(e)) => e.new_text@,
        None => match c.textEditText {
            Some(t) => t@,
            None => match c.insertText {
                Some(t) => t@,
                None => Seq::empty(),
            },
        },
    }
}

/// How a completion is described: its kind in brackets, then its label.
pub open spec fn info_of(c: CompletionItem) -> Seq<char> {
    "("@ + kind_name(c.kind) + ") "@ + c.label@
}

impl CompletionItem {
    /// The text that the completion inserts, and how it is described.
    pub fn generate_text(&self) -> (r: (String, String))
        ensures
            r.0@ == insert_text_of(*self),
            r.1@ == info_of(*self),
    {
        let mut info = String::from_str("(");
        info.append(kind_name_exec(self.kind));
        info.append(") ");
        info.append(self.label.as_str());
        let insert_text = match &self.textEdit {
            Some(TextEditType::TextEdit(e)) => e.newText.clone(),
            Some(TextEditType::InsertReplaceEdit(e)) => e.new_text.clone(),
            None => match &self.textEditText {
                Some(t) => t.clone(),
                None => match &self.insertText {
                    Some(t) => t.clone(),
                    None => String::new(),
                },
            },
        };
        (insert_text, info)
    }
}

/// The completions that a language server proposes.
#[allow(non_snake_case)]
#[derive(Debug, PartialEq, Clone)]
pub struct CompletionList {
    pub isIncomplete: bool,
    pub items: Vec<CompletionItem>,
}

impl CompletionList {
    /// For each completion, the text it inserts and how it is described, in order.
    pub fn generate_text(&self) -> (r: Vec<(String, String)>)
        ensures
            r@.len() == self.items@.len(),
            forall|i: int|
                0 <= i < r@.len() ==> (#[trigger] r@[i]).0@ == insert_text_of(self.items@[i]) && r@[i].1@
                    == info_of(self.items@[i]),
    {
        let mut result: Vec<(String, String)> = Vec::new();
        let mut i: usize = 0;
        while i < self.items.len()
            invariant
                i <= self.items@.len(),
                result@.len() == i,
                forall|j: int|
                    0 <= j < i ==> (#[trigger] result@[j]).0@ == insert_text_of(self.items@[j])
                        && result@[j].1@ == info_of(self.items@[j]),
            decreases self.items.len() - i,
        {
            let t = self.items[i].generate_text();
            result.push(t);
            i = i + 1;
        }
        result
    }

    /// The completion at `index`, if there is one.
    pub fn get_completion(&self, index: usize) -> (r: Option<&CompletionItem>)
        ensures
            r matches Some(c) ==> index < self.items@.len() && *c == self.items@[index as int],
            r is None ==> index >= self.items@.len(),
    {
        if index < self.items.len() {
            Some(&self.items[index])
        } else {
            None
        }
    }
}

/// A token of a document as a language server marks it: where it is, how long it is, its type
/// and its modifiers.
#[derive(Debug, PartialEq, Clone)]
pub struct SemanticToken {
    pub line: usize,
    pub start_character: usize,
    pub length: usize,
    pub token_type: String,
    pub token_modifiers: Vec<String>,
}

impl SemanticToken {
    /// The characters of the token, its end included, and its line.
    pub fn generate_range(&self) -> (r: (std::ops::RangeInclusive<usize>, usize))
        requires
            self.start_character + self.length <= usize::MAX,
        ensures
            r.0@.start == self.start_character,
            r.0@.end == self.start_character + self.length,
            r.1 == self.line,
    {
        let range = std::ops::RangeInclusive::new(self.start_character, self.start_character + self.length);
        (range, self.line)
    }
}

/// The tokens of a document.
#[derive(Debug, PartialEq, Clone)]
pub struct SemanticTokens {
    pub result_id: Option<String>,
    pub data: Vec<SemanticToken>,
}

impl SemanticTokens {
    /// Whether there is no token.
    pub fn is_empty(&self) -> (b: bool)
        ensures
            b == (self.data@.len() == 0),
    {
        self.data.len() == 0
    }
}

/// The names of the token types and modifiers that a language server uses.
#[allow(non_snake_case)]
#[derive(Debug, PartialEq, Clone)]
pub struct SemanticTokensLegendRaw {
    pub tokenTypes: Vec<String>,
    pub tokenModifiers: Vec<String>,
}

/// The token types of a language server by their number, and its modifiers with their bits.
pub struct SemanticTokensLegend {
    pub token_types: HashMap<u32, String>,
    pub token_modifiers: Vec<(u32, String)>,
}

/// The token types of `ts` by their place in it, the place taken as a `u32`.
pub open spec fn type_map(ts: Seq<String>) -> Map<u32, String>
    decreases ts.len(),
{
    if ts.len() == 0 {
        Map::empty()
    } else {
        type_map(ts.drop_last()).insert((ts.len() - 1) as u32, ts.last())
    }
}

/// The bit of the `k`-th modifier: one, shifted left once for each modifier before it (to
/// zero from the thirty-third on).
pub open spec fn modifier_bit(k: nat) -> u32
    decreases k,
{
    if k == 0 {
        1
    } else {
        modifier_bit((k - 1) as nat) << 1
    }
}

impl SemanticTokensLegendRaw {
    /// The legend with the token types numbered by their place and the modifiers given their
    /// bits in order.
    pub fn into_legend(self) -> (r: SemanticTokensLegend)
        ensures
            r.token_types@ == type_map(self.tokenTypes@),
            r.token_modifiers@.len() == self.tokenModifiers@.len(),
            forall|k: int|
                0 <= k < self.tokenModifiers@.len() ==> #[trigger] r.token_modifiers@[k] == (
                    modifier_bit(k as nat),
                    self.tokenModifiers@[k],
                ),
    {
        let mut token_types: HashMap<u32, String> = HashMap::new();
        let mut token_modifiers: Vec<(u32, String)> = Vec::new();
        let mut i: usize = 0;
        while i < self.tokenTypes.len()
            invariant
                i <= self.tokenTypes.len(),
                token_types@ == type_map(self.tokenTypes@.take(i as int)),
            decreases self.tokenTypes.len() - i,
        {
            token_types.insert(i as u32, self.tokenTypes[i].clone());
            proof {
                assert(self.tokenTypes@.take(i + 1).drop_last() =~= self.tokenTypes@.take(i as int));
            }
            i = i + 1;
        }
        assert(self.tokenTypes@.take(self.tokenTypes.len() as int) =~= self.tokenTypes@);
        let mut bit: u32 = 1;
        let mut k: usize = 0;
        while k < self.tokenModifiers.len()
            invariant
                k <= self.tokenModifiers.len(),
                token_modifiers@.len() == k,
                bit == modifier_bit(k as nat),
                forall|j: int|
                    0 <= j < k ==> #[trigger] token_modifiers@[j] == (modifier_bit(j as nat), self.tokenModifiers@[j]),
            decreases self.tokenModifiers.len() - k,
        {
            token_modifiers.push((bit, self.tokenModifiers[k].clone()));
            bit = bit << 1;
            k = k + 1;
        }
        SemanticTokensLegend { token_types, token_modifiers }
    }
}

/// The tokens of a document as a language server sends them: groups of five numbers.
#[allow(non_snake_case)]
#[derive(Debug, PartialEq, Clone)]
pub struct SemanticTokensRaw {
    pub resultId: Option<String>,
    pub data: Vec<u32>,
}

/// A part of the tokens of a document.
pub struct SemanticTokensPartialResultRaw {
    data: Vec<u32>,
}

/// The names of the modifiers of `mods` whose bits are all set in `bits`, in order.
pub open spec fn modifier_names(mods: Seq<(u32, String)>, bits: u32) -> Seq<Seq<char>>
    decreases mods.len(),
{
    if mods.len() == 0 {
        Seq::empty()
    } else {
        let prev = modifier_names(mods.drop_last(), bits);
        if bits & mods.last().0 == mods.last().0 {
            prev.push(mods.last().1@)
        } else {
            prev
        }
    }
}

/// Whether `t` is the token that the five numbers of group `k` of `data` stand for.
pub open spec fn token_is(
    t: SemanticToken,
    data: Seq<u32>,
    k: int,
    types: Map<u32, String>,
    mods: Seq<(u32, String)>,
) -> bool {
    &&& t.line == data[5 * k] as usize
    &&& t.start_character == data[5 * k + 1] as usize
    &&& t.length == data[5 * k + 2] as usize
    &&& t.token_type@ == types[data[5 * k + 3]]@
    &&& t.token_modifiers@.map_values(|s: String| s@) == modifier_names(mods, data[5 * k + 4])
}

impl SemanticTokensRaw {
    /// The tokens of the complete groups of five numbers, in order: line, start, length, the
    /// type named in `token_types`, and the modifiers of `modifiers` whose bits are set.
    pub fn to_semantic_tokens(self, token_types: &HashMap<u32, String>, modifiers: &Vec<(u32, String)>) -> (r: SemanticTokens)
        requires
            forall|k: int|
                0 <= k < self.data@.len() / 5 ==> token_types@.contains_key(#[trigger] self.data@[5 * k + 3]),
        ensures
            r.result_id == self.resultId,
            r.data@.len() == self.data@.len() / 5,
            forall|k: int|
                0 <= k < r.data@.len() ==> token_is(#[trigger] r.data@[k], self.data@, k, token_types@, modifiers@),
    {
        let mut tokens: Vec<SemanticToken> = Vec::new();
        let n = self.data.len();
        let mut g: usize = 0;
        let mut b: usize = 0;
        while n - b >= 5
            invariant
                n == self.data@.len(),
                b == 5 * g,
                b <= n,
                tokens@.len() == g,
                forall|k: int|
                    0 <= k < self.data@.len() / 5 ==> token_types@.contains_key(#[trigger] self.data@[5 * k + 3]),
                forall|k: int|
                    0 <= k < g ==> token_is(#[trigger] tokens@[k], self.data@, k, token_types@, modifiers@),
            decreases n - g,
        {
            let line = self.data[b] as usize;
            let start_character = self.data[b + 1] as usize;
            let length = self.data[b + 2] as usize;
            let token_type = self.data[b + 3];
            let token_modifiers = self.data[b + 4];
            let mut tok_modifiers: Vec<String> = Vec::new();
            let mut m: usize = 0;
            assert(modifiers@.take(0) =~= Seq::<(u32, String)>::empty());
            while m < modifiers.len()
                invariant
                    m <= modifiers@.len(),
                    tok_modifiers@.map_values(|s: String| s@) == modifier_names(modifiers@.take(m as int), token_modifiers),
                decreases modifiers.len() - m,
            {
                let ghost before = tok_modifiers@;
                assert(modifiers@.take(m + 1).drop_last() =~= modifiers@.take(m as int));
                if token_modifiers & modifiers[m].0 == modifiers[m].0 {
                    tok_modifiers.push(modifiers[m].1.clone());
                    assert(tok_modifiers@.map_values(|s: String| s@) =~= before.map_values(|s: String| s@).push(
                        modifiers@[m as int].1@,
                    ));
                }
                m = m + 1;
            }
            assert(modifiers@.take(m as int) =~= modifiers@);
            assert(g < self.data@.len() / 5) by (nonlinear_arith)
                requires
                    5 * g + 5 <= self.data@.len(),
            ;
            let name = match token_types.get(&token_type) {
                Some(t) => t.clone(),
                None => String::new(),
            };
            let token = SemanticToken {
                line,
                start_character,
                length,
                token_type: name,
                token_modifiers: tok_modifiers,
            };
            tokens.push(token);
            g = g + 1;
            b = b + 5;
        }
        assert(g == self.data@.len() / 5) by (nonlinear_arith)
            requires
                5 * g <= self.data@.len(),
                5 * g + 5 > self.data@.len(),
        ;
        SemanticTokens { result_id: self.resultId, data: tokens }
    }
}

} // verus!
