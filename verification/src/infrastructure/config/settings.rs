//! The settings of the session, in an object of `serde_json`.

use vstd::prelude::*;

verus! {

/// The value of a setting.
pub enum Setting {
    Text(Seq<char>),
    Number(serde_json::Number),
    Flag(bool),
}

/// The value of a setting on its way into the object.
#[derive(Debug)]
pub enum SettingValue {
    Text(String),
    Number(serde_json::Number),
    Flag(bool),
}

impl View for SettingValue {
    type V = Setting;

    open spec fn view(&self) -> Setting {
        match *self {
            SettingValue::Text(s) => Setting::Text(s@),
            SettingValue::Number(n) => Setting::Number(n),
            SettingValue::Flag(b) => Setting::Flag(b),
        }
    }
}

#[verifier::external_type_specification]
#[verifier::external_body]
#[verifier::reject_recursive_types(K)]
#[verifier::reject_recursive_types(V)]
pub struct ExJsonMap<K, V>(serde_json::Map<K, V>);

#[verifier::external_type_specification]
#[verifier::external_body]
pub struct ExJsonValue(serde_json::Value);

#[verifier::external_type_specification]
#[verifier::external_body]
pub struct ExJsonNumber(serde_json::Number);

#[verifier::external_type_specification]
#[verifier::external_body]
pub struct ExJsonError(serde_json::Error);

/// The settings that an object holds.
pub uninterp spec fn contents(map: serde_json::Map<String, serde_json::Value>) -> Map<Seq<char>, Setting>;

/// The JSON text of an object with these settings, if it can be written.
pub uninterp spec fn json_text(settings: Map<Seq<char>, Setting>) -> Option<Seq<char>>;

pub open spec fn no_settings() -> Map<Seq<char>, Setting> {
    Map::empty()
}

/// `serde_json::Map::new`: an object without settings.
#[verifier::external_body]
pub(crate) fn new_settings() -> (r: serde_json::Map<String, serde_json::Value>)
    ensures
        contents(r) == no_settings(),
{
    serde_json::Map::new()
}

/// `serde_json::Map::insert`: puts a value under a key, in place of the one there.
#[verifier::external_body]
fn insert_setting(
    map: &mut serde_json::Map<String, serde_json::Value>,
    key: &str,
    value: SettingValue,
)
    ensures
        contents(*final(map)) == contents(*old(map)).insert(key@, value@),
{
    let value = match value {
        SettingValue::Text(s) => serde_json::Value::String(s),
        SettingValue::Number(n) => serde_json::Value::Number(n),
        SettingValue::Flag(b) => serde_json::Value::Bool(b),
    };
    map.insert(key.to_string(), value);
}

/// `serde_json::to_string`: the text of an object, which depends on its settings alone. That of
/// an object without settings is a pair of braces.
#[verifier::external_body]
pub(crate) fn settings_to_string(
    map: &serde_json::Map<String, serde_json::Value>,
) -> (r: Result<String, serde_json::Error>)
    ensures
        match r {
            Ok(t) => json_text(contents(*map)) == Some(t@),
            Err(_) => json_text(contents(*map)) is None,
        },
        contents(*map) == no_settings() ==> r is Ok && r->Ok_0@ == "{}"@,
{
    serde_json::to_string(map)
}

/// An integer as a number of `serde_json`.
pub uninterp spec fn json_integer(n: i64) -> serde_json::Number;

/// `serde_json::Number::from`: the number for an integer, which depends on the integer alone.
#[verifier::external_body]
fn integer(n: i64) -> (r: serde_json::Number)
    ensures
        r == json_integer(n),
{
    serde_json::Number::from(n)
}

/// `serde_json::Number::clone`: the same number.
#[verifier::external_body]
fn same_number(n: &serde_json::Number) -> (r: serde_json::Number)
    ensures
        r == *n,
{
    n.clone()
}

pub open spec fn with_number(
    m: Map<Seq<char>, Setting>,
    key: Seq<char>,
    value: Option<i64>,
) -> Map<Seq<char>, Setting> {
    match value {
        Some(n) => m.insert(key, Setting::Number(json_integer(n))),
        None => m,
    }
}

pub open spec fn with_flag(
    m: Map<Seq<char>, Setting>,
    key: Seq<char>,
    value: Option<bool>,
) -> Map<Seq<char>, Setting> {
    match value {
        Some(b) => m.insert(key, Setting::Flag(b)),
        None => m,
    }
}

/// An empty text is no setting.
pub open spec fn with_text(
    m: Map<Seq<char>, Setting>,
    key: Seq<char>,
    value: Option<String>,
) -> Map<Seq<char>, Setting> {
    match value {
        Some(s) => if s@.len() > 0 {
            m.insert(key, Setting::Text(s@))
        } else {
            m
        },
        None => m,
    }
}

pub open spec fn with_fraction(
    m: Map<Seq<char>, Setting>,
    key: Seq<char>,
    value: Option<serde_json::Number>,
) -> Map<Seq<char>, Setting> {
    match value {
        Some(n) => m.insert(key, Setting::Number(n)),
        None => m,
    }
}

pub(crate) fn put_number(
    map: &mut serde_json::Map<String, serde_json::Value>,
    key: &str,
    value: Option<i64>,
)
    ensures
        contents(*final(map)) == with_number(contents(*old(map)), key@, value),
{
    if let Some(n) = value {
        insert_setting(map, key, SettingValue::Number(integer(n)));
    }
}

pub(crate) fn put_flag(
    map: &mut serde_json::Map<String, serde_json::Value>,
    key: &str,
    value: Option<bool>,
)
    ensures
        contents(*final(map)) == with_flag(contents(*old(map)), key@, value),
{
    if let Some(b) = value {
        insert_setting(map, key, SettingValue::Flag(b));
    }
}

pub(crate) fn put_text(
    map: &mut serde_json::Map<String, serde_json::Value>,
    key: &str,
    value: &Option<String>,
)
    ensures
        contents(*final(map)) == with_text(contents(*old(map)), key@, *value),
{
    if let Some(s) = value {
        if !s.as_str().is_empty() {
            insert_setting(map, key, SettingValue::Text(s.clone()));
        }
    }
}

pub(crate) fn put_fraction(
    map: &mut serde_json::Map<String, serde_json::Value>,
    key: &str,
    value: &Option<serde_json::Number>,
)
    ensures
        contents(*final(map)) == with_fraction(contents(*old(map)), key@, *value),
{
    if let Some(n) = value {
        insert_setting(map, key, SettingValue::Number(same_number(n)));
    }
}

} // verus!
