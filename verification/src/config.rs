use vstd::prelude::*;
use vstd::string::StringExecFns;
use crate::editor_settings::{is_default_settings, EditorSettings, FontSettings, NumberLineStyle};
use crate::file::str_eq;

verus! {

/// A value of a configuration file: a text, an integer, a truth value, a list, a table of
/// named values, or any other value (a float or a date), which the editor never reads.
#[derive(Debug)]
pub enum ConfigValue {
    String(String),
    Integer(i64),
    Boolean(bool),
    Array(Vec<ConfigValue>),
    Table(Vec<(String, ConfigValue)>),
    Other,
}

#[verifier::external_type_specification]
#[verifier::external_body]
pub struct ExTomlValue(toml::Value);

/// The document that the TOML text `text` holds, as a table of its values; nothing where
/// the text is not a valid TOML document.
pub uninterp spec fn toml_document(text: Seq<char>) -> Option<ConfigValue>;

/// Parses `text` as a TOML document with `toml::Table`'s `FromStr`. Claimed: the result is
/// `toml_document` of the text, and a parsed document is a table. Not stated: which texts
/// parse and what values they give, which the TOML grammar decides.
#[verifier::external_body]
pub(crate) fn parse_toml_document(text: &str) -> (r: Option<ConfigValue>)
    ensures
        r == toml_document(text@),
        r matches Some(d) ==> d is Table,
{
    match text.parse::<toml::Table>() {
        Ok(t) => Some(ConfigValue::Table(t.iter().map(|(k, v)| (k.clone(), config_value(v))).collect())),
        Err(_) => None,
    }
}

/// Converts a value of `toml` into a `ConfigValue`, variant by variant; floats and dates,
/// which the editor never reads, become `Other`. Part of `parse_toml_document`.
#[verifier::external_body]
fn config_value(v: &toml::Value) -> ConfigValue {
    match v {
        toml::Value::String(s) => ConfigValue::String(s.clone()),
        toml::Value::Integer(i) => ConfigValue::Integer(*i),
        toml::Value::Boolean(b) => ConfigValue::Boolean(*b),
        toml::Value::Array(a) => ConfigValue::Array(a.iter().map(config_value).collect()),
        toml::Value::Table(t) => ConfigValue::Table(t.iter().map(|(k, v)| (k.clone(), config_value(v))).collect()),
        _ => ConfigValue::Other,
    }
}

/// The value of the first entry of `es` named `key`, if there is one.
pub open spec fn find_entry(es: Seq<(String, ConfigValue)>, key: Seq<char>) -> Option<ConfigValue>
    decreases es.len(),
{
    if es.len() == 0 {
        None
    } else if es[0].0@ == key {
        Some(es[0].1)
    } else {
        find_entry(es.drop_first(), key)
    }
}

/// The value named `key` in the table `v`; nothing where `v` is no table.
pub open spec fn lookup(v: ConfigValue, key: Seq<char>) -> Option<ConfigValue> {
    match v {
        ConfigValue::Table(es) => find_entry(es@, key),
        _ => None,
    }
}

/// The text that `v` holds, if it is a text.
pub open spec fn str_of(v: ConfigValue) -> Option<Seq<char>> {
    match v {
        ConfigValue::String(s) => Some(s@),
        _ => None,
    }
}

/// The integer that `v` holds, if it is an integer.
pub open spec fn int_of(v: ConfigValue) -> Option<i64> {
    match v {
        ConfigValue::Integer(i) => Some(i),
        _ => None,
    }
}

/// The truth value that `v` holds, if it is one.
pub open spec fn bool_of(v: ConfigValue) -> Option<bool> {
    match v {
        ConfigValue::Boolean(b) => Some(b),
        _ => None,
    }
}

impl ConfigValue {
    /// The value named `key`, if this is a table that has one.
    pub fn get(&self, key: &str) -> (r: Option<&ConfigValue>)
        ensures
            r matches Some(v) ==> lookup(*self, key@) == Some(*v),
            r is None ==> lookup(*self, key@) is None,
    {
        match self {
            ConfigValue::Table(es) => {
                let mut i: usize = 0;
                assert(es@.skip(0) =~= es@);
                while i < es.len()
                    invariant
                        i <= es@.len(),
                        lookup(*self, key@) == find_entry(es@, key@),
                        find_entry(es@, key@) == find_entry(es@.skip(i as int), key@),
                    decreases es.len() - i,
                {
                    assert(es@.skip(i as int)[0] == es@[i as int]);
                    if str_eq(es[i].0.as_str(), key) {
                        assert(find_entry(es@.skip(i as int), key@) == Some(es@[i as int].1));
                        return Some(&es[i].1);
                    }
                    assert(es@.skip(i as int).drop_first() =~= es@.skip(i + 1));
                    i = i + 1;
                }
                None
            },
            _ => None,
        }
    }

    /// The text, if this is a text.
    pub fn as_str(&self) -> (r: Option<&str>)
        ensures
            r matches Some(s) ==> str_of(*self) == Some(s@),
            r is None ==> str_of(*self) is None,
    {
        match self {
            ConfigValue::String(s) => Some(s.as_str()),
            _ => None,
        }
    }

    /// The integer, if this is an integer.
    pub fn as_integer(&self) -> (r: Option<i64>)
        ensures
            r == int_of(*self),
    {
        match self {
            ConfigValue::Integer(i) => Some(*i),
            _ => None,
        }
    }

    /// The truth value, if this is one.
    pub fn as_bool(&self) -> (r: Option<bool>)
        ensures
            r == bool_of(*self),
    {
        match self {
            ConfigValue::Boolean(b) => Some(*b),
            _ => None,
        }
    }

    /// The values of the list, if this is a list.
    pub fn as_array(&self) -> (r: Option<&Vec<ConfigValue>>)
        ensures
            r matches Some(a) ==> *self == ConfigValue::Array(*a),
            r is None ==> !(*self is Array),
    {
        match self {
            ConfigValue::Array(a) => Some(a),
            _ => None,
        }
    }

    /// Whether this is a text.
    pub fn is_str(&self) -> (b: bool)
        ensures
            b == (*self is String),
    {
        match self {
            ConfigValue::String(_) => true,
            _ => false,
        }
    }

    /// Whether this is a list.
    pub fn is_array(&self) -> (b: bool)
        ensures
            b == (*self is Array),
    {
        match self {
            ConfigValue::Array(_) => true,
            _ => false,
        }
    }

    /// Whether this is a table.
    pub fn is_table(&self) -> (b: bool)
        ensures
            b == (*self is Table),
    {
        match self {
            ConfigValue::Table(_) => true,
            _ => false,
        }
    }

    /// Whether this is an integer.
    pub fn is_integer(&self) -> (b: bool)
        ensures
            b == (*self is Integer),
    {
        match self {
            ConfigValue::Integer(_) => true,
            _ => false,
        }
    }
}

/// The line number style that a configuration file names.
pub open spec fn number_line_named(s: Seq<char>) -> NumberLineStyle {
    if s == "Relative"@ {
        NumberLineStyle::Relative
    } else if s == "Absolute"@ {
        NumberLineStyle::Absolute
    } else {
        NumberLineStyle::Hidden
    }
}

/// Whether the editor settings table `t` can be read: each setting that it holds has the
/// right kind, and the line number style is one of the three names.
pub open spec fn settings_table_ok(t: ConfigValue) -> bool {
    &&& (lookup(t, "number_line"@) matches Some(v) ==> str_of(v) matches Some(s) && (s == "None"@ || s
        == "Relative"@ || s == "Absolute"@))
    &&& (lookup(t, "tab_size"@) matches Some(v) ==> int_of(v) is Some)
    &&& (lookup(t, "use_spaces"@) matches Some(v) ==> bool_of(v) is Some)
    &&& (lookup(t, "rainbow_delimiters"@) matches Some(v) ==> bool_of(v) is Some)
    &&& (lookup(t, "font_settings"@) matches Some(f) ==> {
        &&& (lookup(f, "size"@) matches Some(v) ==> int_of(v) is Some)
        &&& (lookup(f, "family"@) matches Some(v) ==> str_of(v) is Some)
    })
    &&& (lookup(t, "default_mode"@) matches Some(v) ==> str_of(v) is Some)
}

/// Whether the value named `key` in `t`, where there is one, is an integer.
fn integer_or_absent(t: &ConfigValue, key: &str) -> (b: bool)
    ensures
        b == (lookup(*t, key@) matches Some(v) ==> int_of(v) is Some),
{
    match t.get(key) {
        Some(v) => v.is_integer(),
        None => true,
    }
}

/// Whether the value named `key` in `t`, where there is one, is a truth value.
fn bool_or_absent(t: &ConfigValue, key: &str) -> (b: bool)
    ensures
        b == (lookup(*t, key@) matches Some(v) ==> bool_of(v) is Some),
{
    match t.get(key) {
        Some(v) => v.as_bool().is_some(),
        None => true,
    }
}

/// Whether the value named `key` in `t`, where there is one, is a text.
fn str_or_absent(t: &ConfigValue, key: &str) -> (b: bool)
    ensures
        b == (lookup(*t, key@) matches Some(v) ==> str_of(v) is Some),
{
    match t.get(key) {
        Some(v) => v.is_str(),
        None => true,
    }
}

/// Whether the editor settings table `t` can be read.
pub fn check_settings_table(t: &ConfigValue) -> (b: bool)
    ensures
        b == settings_table_ok(*t),
{
    proof {
        reveal_strlit("None");
        reveal_strlit("Relative");
        reveal_strlit("Absolute");
    }
    let number_line_ok = match t.get("number_line") {
        Some(v) => match v.as_str() {
            Some(name) => str_eq(name, "None") || str_eq(name, "Relative") || str_eq(name, "Absolute"),
            None => false,
        },
        None => true,
    };
    let font_ok = match t.get("font_settings") {
        Some(f) => integer_or_absent(f, "size") && str_or_absent(f, "family"),
        None => true,
    };
    number_line_ok && integer_or_absent(t, "tab_size") && bool_or_absent(t, "use_spaces")
        && bool_or_absent(t, "rainbow_delimiters") && font_ok && str_or_absent(t, "default_mode")
}

/// The font size that the font table `f` gives: 12 where it holds none.
pub open spec fn font_size_from(f: ConfigValue) -> u8 {
    match lookup(f, "size"@) {
        Some(v) => int_of(v)->0 as u8,
        None => 12u8,
    }
}

/// The font family that the font table `f` gives: monospace where it holds none.
pub open spec fn font_family_from(f: ConfigValue) -> Seq<char> {
    match lookup(f, "family"@) {
        Some(v) => str_of(v)->0,
        None => "monospace"@,
    }
}

/// Whether `s` holds the settings that the table `t` gives: each one that it holds, and the
/// default of each one that it does not (a font of size 12 in the monospace family, where
/// the font table leaves them out).
pub open spec fn settings_from(s: EditorSettings, t: ConfigValue) -> bool {
    &&& s.number_line == match lookup(t, "number_line"@) {
        Some(v) => number_line_named(str_of(v)->0),
        None => NumberLineStyle::Hidden,
    }
    &&& s.tab_size == match lookup(t, "tab_size"@) {
        Some(v) => int_of(v)->0 as u8,
        None => 4u8,
    }
    &&& s.use_spaces == match lookup(t, "use_spaces"@) {
        Some(v) => bool_of(v)->0,
        None => true,
    }
    &&& s.rainbow_delimiters == match lookup(t, "rainbow_delimiters"@) {
        Some(v) => bool_of(v)->0,
        None => false,
    }
    &&& match lookup(t, "font_settings"@) {
        Some(f) => s.font_settings matches Some(fs) && fs.size == font_size_from(f) && fs.family@
            == font_family_from(f),
        None => s.font_settings is None,
    }
    &&& s.default_mode@ == match lookup(t, "default_mode"@) {
        Some(v) => str_of(v)->0,
        None => "Normal"@,
    }
}

/// The editor settings that the table `table` gives.
pub fn parse_settings(table: &ConfigValue) -> (s: EditorSettings)
    requires
        settings_table_ok(*table),
    ensures
        settings_from(s, *table),
{
    proof {
        reveal_strlit("None");
        reveal_strlit("Relative");
        reveal_strlit("Absolute");
    }
    let number_line = match table.get("number_line") {
        Some(v) => {
            let name = v.as_str().unwrap();
            if str_eq(name, "None") {
                assert(name@.len() == 4 && "Relative"@.len() == 8 && "Absolute"@.len() == 8);
                NumberLineStyle::Hidden
            } else if str_eq(name, "Relative") {
                NumberLineStyle::Relative
            } else {
                NumberLineStyle::Absolute
            }
        },
        None => NumberLineStyle::Hidden,
    };
    let tab_size: u8 = match table.get("tab_size") {
        Some(v) => #[verifier::truncate] (v.as_integer().unwrap() as u8),
        None => 4,
    };
    let use_spaces = match table.get("use_spaces") {
        Some(v) => v.as_bool().unwrap(),
        None => true,
    };
    let rainbow_delimiters = match table.get("rainbow_delimiters") {
        Some(v) => v.as_bool().unwrap(),
        None => false,
    };
    let font_settings = match table.get("font_settings") {
        Some(f) => {
            let size: u8 = match f.get("size") {
                Some(v) => #[verifier::truncate] (v.as_integer().unwrap() as u8),
                None => 12,
            };
            let family = match f.get("family") {
                Some(v) => String::from_str(v.as_str().unwrap()),
                None => String::from_str("monospace"),
            };
            Some(FontSettings { size, family })
        },
        None => None,
    };
    let default_mode = match table.get("default_mode") {
        Some(v) => String::from_str(v.as_str().unwrap()),
        None => String::from_str("Normal"),
    };
    EditorSettings { number_line, tab_size, use_spaces, rainbow_delimiters, font_settings, default_mode }
}

/// The editor settings of a configuration document `doc`: those of its `EditorSettings`
/// table, or the defaults where it has none.
pub fn settings_of_document(doc: &ConfigValue) -> (s: EditorSettings)
    requires
        lookup(*doc, "EditorSettings"@) matches Some(t) ==> settings_table_ok(t),
    ensures
        lookup(*doc, "EditorSettings"@) matches Some(t) ==> settings_from(s, t),
        lookup(*doc, "EditorSettings"@) is None ==> is_default_settings(s),
{
    match doc.get("EditorSettings") {
        Some(t) => parse_settings(t),
        None => EditorSettings::default(),
    }
}

/// Whether the configuration document `doc` can be read for editor settings.
pub open spec fn document_settings_ok(doc: ConfigValue) -> bool {
    lookup(doc, "EditorSettings"@) matches Some(t) ==> settings_table_ok(t)
}

/// The editor settings of the configuration file text `config`; nothing where it is no
/// TOML document or its `EditorSettings` table cannot be read.
pub fn load_user_settings(config: &str) -> (r: Option<EditorSettings>)
    ensures
        match toml_document(config@) {
            Some(doc) => if document_settings_ok(doc) {
                r matches Some(s) && (match lookup(doc, "EditorSettings"@) {
                    Some(t) => settings_from(s, t),
                    None => is_default_settings(s),
                })
            } else {
                r is None
            },
            None => r is None,
        },
{
    match parse_toml_document(config) {
        Some(doc) => {
            let ok = match doc.get("EditorSettings") {
                Some(t) => check_settings_table(t),
                None => true,
            };
            if ok {
                Some(settings_of_document(&doc))
            } else {
                None
            }
        },
        None => None,
    }
}

} // verus!
