use vstd::prelude::*;
use crate::file::str_eq;

verus! {

/// A number of a JSON document: a whole number of no sign, a negative whole number, or a
/// number with a fraction or an exponent, kept as the text that writes it.
#[derive(Debug, PartialEq, Clone)]
pub enum JsonNumber {
    PosInt(u64),
    NegInt(i64),
    Float(String),
}

/// A value of a JSON document. The members of an object stand in the order of the
/// document, each name once.
#[derive(Debug, PartialEq)]
pub enum JsonValue {
    Null,
    Bool(bool),
    Number(JsonNumber),
    String(String),
    Array(Vec<JsonValue>),
    Object(Vec<(String, JsonValue)>),
}

/// What a message of a language server is, and the part of it that is to be read as a value
/// of that kind: the parameters of published diagnostics, or the result of an answered
/// request, by the number of the request.
#[derive(Debug, PartialEq)]
pub enum LspPayload {
    Nothing,
    Diagnostics(JsonValue),
    Capabilities(JsonValue),
    Completions(JsonValue),
    Locations(JsonValue),
    Location(JsonValue),
    LocationLink(JsonValue),
    NullLocation,
    SemanticTokens(JsonValue),
}

/// The value of the first member of `es` named `key`, if there is one.
pub open spec fn member(es: Seq<(String, JsonValue)>, key: Seq<char>) -> Option<JsonValue>
    decreases es.len(),
{
    if es.len() == 0 {
        None
    } else if es[0].0@ == key {
        Some(es[0].1)
    } else {
        member(es.drop_first(), key)
    }
}

/// The member of `v` named `key`; nothing where `v` is no object or has no such member.
pub open spec fn json_get(v: JsonValue, key: Seq<char>) -> Option<JsonValue> {
    match v {
        JsonValue::Object(es) => member(es@, key),
        _ => None,
    }
}

/// `v[key]`: the member of `v` named `key`, or null where there is none.
pub open spec fn json_index(v: JsonValue, key: Seq<char>) -> JsonValue {
    match json_get(v, key) {
        Some(x) => x,
        None => JsonValue::Null,
    }
}

/// The number of a request that `v` names: a whole number of no sign that fits a `usize`.
pub open spec fn request_number(v: JsonValue) -> Option<int> {
    match v {
        JsonValue::Number(JsonNumber::PosInt(u)) => if u <= usize::MAX {
            Some(u as int)
        } else {
            None
        },
        JsonValue::Number(JsonNumber::NegInt(i)) => if 0 <= i <= usize::MAX {
            Some(i as int)
        } else {
            None
        },
        _ => None,
    }
}

/// Whether the method that `json` names, if any, is written as a text.
pub open spec fn method_readable(json: JsonValue) -> bool {
    let method = json_index(json, "method"@);
    method is Null || method is String
}

/// What an answer to a request for locations carries: a list of locations, one location,
/// one link, or no location (an object with neither `uri` nor `targetUri` at the top of the
/// message).
pub open spec fn location_payload(json: JsonValue) -> LspPayload {
    let result = json_index(json, "result"@);
    match result {
        JsonValue::Array(_) => LspPayload::Locations(result),
        JsonValue::Object(_) => if json_get(json, "uri"@) is Some {
            LspPayload::Location(result)
        } else if json_get(json, "targetUri"@) is Some {
            LspPayload::LocationLink(result)
        } else {
            LspPayload::NullLocation
        },
        _ => LspPayload::Nothing,
    }
}

/// What the answer to the request numbered `id` carries.
pub open spec fn answer_payload(json: JsonValue, id: int) -> LspPayload {
    if id == 1 {
        LspPayload::Capabilities(json_index(json_index(json, "result"@), "capabilities"@))
    } else if id == 2 {
        LspPayload::Completions(json_index(json, "result"@))
    } else if 3 <= id <= 6 {
        location_payload(json)
    } else if id == 7 {
        LspPayload::SemanticTokens(json_index(json, "result"@))
    } else {
        LspPayload::Nothing
    }
}

/// What the message `json` carries: by its method where it names one (only published
/// diagnostics are read), else by the number of the request that it answers, else nothing.
pub open spec fn payload_of(json: JsonValue) -> LspPayload {
    let method = json_index(json, "method"@);
    let id = json_index(json, "id"@);
    if !(method is Null) {
        match method {
            JsonValue::String(s) => if s@ == "textDocument/publishDiagnostics"@ {
                LspPayload::Diagnostics(json_index(json, "params"@))
            } else {
                LspPayload::Nothing
            },
            _ => LspPayload::Nothing,
        }
    } else if !(id is Null) {
        match request_number(id) {
            Some(n) => answer_payload(json, n),
            None => LspPayload::Nothing,
        }
    } else {
        LspPayload::Nothing
    }
}

proof fn lemma_member_at(es: Seq<(String, JsonValue)>, key: Seq<char>, i: int)
    requires
        0 <= i < es.len(),
        es[i].0@ == key,
        forall|j: int| 0 <= j < i ==> es[j].0@ != key,
    ensures
        member(es, key) == Some(es[i].1),
    decreases i,
{
    if i > 0 {
        lemma_member_at(es.drop_first(), key, i - 1);
    }
}

proof fn lemma_member_absent(es: Seq<(String, JsonValue)>, key: Seq<char>)
    requires
        forall|j: int| 0 <= j < es.len() ==> es[j].0@ != key,
    ensures
        member(es, key) is None,
    decreases es.len(),
{
    if es.len() > 0 {
        lemma_member_absent(es.drop_first(), key);
    }
}

/// The place of the first member of `es` named `key`, if there is one.
fn find_member(es: &Vec<(String, JsonValue)>, key: &str) -> (r: Option<usize>)
    ensures
        r matches Some(i) ==> i < es.len() && member(es@, key@) == Some(es@[i as int].1),
        r is None ==> member(es@, key@) is None,
{
    let mut i: usize = 0;
    while i < es.len()
        invariant
            i <= es.len(),
            forall|j: int| 0 <= j < i ==> es@[j].0@ != key@,
        decreases es.len() - i,
    {
        if str_eq(es[i].0.as_str(), key) {
            proof {
                lemma_member_at(es@, key@, i as int);
            }
            return Some(i);
        }
        i = i + 1;
    }
    proof {
        lemma_member_absent(es@, key@);
    }
    None
}

/// The member of `v` named `key`, if `v` is an object that has one.
fn get_member<'a>(v: &'a JsonValue, key: &str) -> (r: Option<&'a JsonValue>)
    ensures
        r matches Some(x) ==> json_get(*v, key@) == Some(*x),
        r is None ==> json_get(*v, key@) is None,
{
    match v {
        JsonValue::Object(es) => match find_member(es, key) {
            Some(i) => Some(&es[i].1),
            None => None,
        },
        _ => None,
    }
}

/// Whether `v` has a member named `key` that is not null.
fn has_value(v: &JsonValue, key: &str) -> (b: bool)
    ensures
        b == !(json_index(*v, key@) is Null),
{
    match get_member(v, key) {
        Some(x) => !matches!(x, JsonValue::Null),
        None => false,
    }
}

/// Takes the member of `v` named `key` out of it: `v[key]`, null where there is none.
fn take_member(v: JsonValue, key: &str) -> (r: JsonValue)
    ensures
        r == json_index(v, key@),
{
    match v {
        JsonValue::Object(es) => {
            let mut es = es;
            match find_member(&es, key) {
                Some(i) => {
                    let entry = es.remove(i);
                    entry.1
                },
                None => JsonValue::Null,
            }
        },
        _ => JsonValue::Null,
    }
}

/// The number of the request that `v` names, if it names one that fits a `usize`.
fn read_request_number(v: &JsonValue) -> (r: Option<usize>)
    ensures
        r matches Some(n) ==> request_number(*v) == Some(n as int),
        r is None ==> request_number(*v) is None,
{
    match v {
        JsonValue::Number(JsonNumber::PosInt(u)) => {
            if *u <= usize::MAX as u64 {
                Some(*u as usize)
            } else {
                None
            }
        },
        JsonValue::Number(JsonNumber::NegInt(i)) => {
            if *i >= 0 && (*i as u64) <= usize::MAX as u64 {
                Some(*i as usize)
            } else {
                None
            }
        },
        _ => None,
    }
}

/// Sorts a message of a language server by what it carries, and takes out the part of it
/// that is to be read as a value of that kind.
pub fn process_json(json: JsonValue) -> (r: LspPayload)
    requires
        method_readable(json),
    ensures
        r == payload_of(json),
{
    if has_value(&json, "method") {
        let is_diagnostics = match get_member(&json, "method") {
            Some(JsonValue::String(s)) => str_eq(s.as_str(), "textDocument/publishDiagnostics"),
            _ => false,
        };
        if is_diagnostics {
            LspPayload::Diagnostics(take_member(json, "params"))
        } else {
            LspPayload::Nothing
        }
    } else if has_value(&json, "id") {
        let id = match get_member(&json, "id") {
            Some(v) => read_request_number(v),
            None => None,
        };
        match id {
            Some(n) => {
                if n == 1 {
                    let result = take_member(json, "result");
                    LspPayload::Capabilities(take_member(result, "capabilities"))
                } else if n == 2 {
                    LspPayload::Completions(take_member(json, "result"))
                } else if 3 <= n && n <= 6 {
                    let has_uri = get_member(&json, "uri").is_some();
                    let has_target = get_member(&json, "targetUri").is_some();
                    let result = take_member(json, "result");
                    match result {
                        JsonValue::Array(_) => LspPayload::Locations(result),
                        JsonValue::Object(_) => {
                            if has_uri {
                                LspPayload::Location(result)
                            } else if has_target {
                                LspPayload::LocationLink(result)
                            } else {
                                LspPayload::NullLocation
                            }
                        },
                        _ => LspPayload::Nothing,
                    }
                } else if n == 7 {
                    LspPayload::SemanticTokens(take_member(json, "result"))
                } else {
                    LspPayload::Nothing
                }
            },
            None => LspPayload::Nothing,
        }
    } else {
        LspPayload::Nothing
    }
}


/// A request to a language server, with what it needs: the URI of a document, a place in it
/// (column and line), and how a completion was set off.
pub enum LspRequest {
    Shutdown,
    Exit,
    RequestDiagnostic(Box<str>),
    RequestCompletion(Box<str>, (usize, usize), Box<str>),
    GotoDeclaration(Box<str>, (usize, usize)),
    GotoDefinition(Box<str>, (usize, usize)),
    GotoTypeDefinition(Box<str>, (usize, usize)),
    GotoImplementation(Box<str>, (usize, usize)),
    SemanticTokens(Box<str>),
}

/// A notice to a language server about a document: its URI, and its version and text where
/// the notice carries them, or the reason it will be saved.
pub enum LspNotification {
    ChangeText(Box<str>, usize, Box<str>),
    Open(Box<str>, Box<str>),
    Close(Box<str>),
    Save(Box<str>, Box<str>),
    WillSave(Box<str>, Box<str>),
}

} // verus!
