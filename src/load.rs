use crate::config::{ConfigTable, ConfigValue};
use vstd::prelude::*;

verus! {

/// How reading the settings text failed.
pub enum ReadFailure {
    NotFound,
    PermissionDenied,
    Other(String),
}

/// Why the settings document could not be loaded.
pub enum LoadError {
    NotFound,
    PermissionDenied,
    /// The text is not a TOML document; the parser's own message.
    ParseError(String),
    Other(String),
}

/// A value as the TOML parser yields it; only moved, never read, by verified code.
#[verifier::external_type_specification]
#[verifier::external_body]
pub struct ExTomlValue(toml::Value);

/// A table as the TOML parser yields it; only moved, never read, by verified code.
#[verifier::external_type_specification]
#[verifier::external_body]
#[verifier::reject_recursive_types(K)]
#[verifier::reject_recursive_types(V)]
pub struct ExTomlMap<K, V>(toml::map::Map<K, V>);

/// The entries of the table that the TOML parser reads from `text`, or its
/// message for the syntax error it finds there.
pub uninterp spec fn toml_table(text: Seq<char>) -> Result<Seq<(String, ConfigValue)>, Seq<char>>;

/// Relies on toml::from_str into a toml::Table: the table parsed from the
/// text, or the error whose message is reported. The table is a map, so its
/// keys are distinct.
#[verifier::external_body]
fn parse_toml(text: &str) -> (r: Result<ConfigTable, String>)
    ensures
        match r {
            Ok(t) => t.wf() && toml_table(text@) == Ok::<Seq<(String, ConfigValue)>, Seq<char>>(t@),
            Err(m) => toml_table(text@) == Err::<Seq<(String, ConfigValue)>, Seq<char>>(m@),
        },
{
    match toml::from_str::<toml::Table>(text) {
        Ok(t) => Ok(table_from_toml(t)),
        Err(e) => Err(e.message().to_string()),
    }
}

/// Moves a parsed toml::Table into the library's table, entry for entry.
#[verifier::external_body]
fn table_from_toml(t: toml::Table) -> ConfigTable {
    ConfigTable { entries: t.into_iter().map(|(k, v)| (k, value_from_toml(v))).collect() }
}

/// Moves a parsed toml::Value into the library's value, variant for variant.
#[verifier::external_body]
fn value_from_toml(v: toml::Value) -> ConfigValue {
    match v {
        toml::Value::String(s) => ConfigValue::Str(s),
        toml::Value::Integer(i) => ConfigValue::Integer(i),
        toml::Value::Float(x) => ConfigValue::Float(x.to_string()),
        toml::Value::Boolean(b) => ConfigValue::Boolean(b),
        toml::Value::Datetime(d) => ConfigValue::Datetime(d.to_string()),
        toml::Value::Array(a) => ConfigValue::Array(a.into_iter().map(value_from_toml).collect()),
        toml::Value::Table(t) => ConfigValue::Table(table_from_toml(t)),
    }
}

/// Parses the settings text into a document.
pub fn parse_config(text: &str) -> (r: Result<ConfigTable, LoadError>)
    ensures
        match toml_table(text@) {
            Ok(e) => r matches Ok(t) && t@ == e && t.wf(),
            Err(m) => r matches Err(LoadError::ParseError(pm)) && pm@ == m,
        },
{
    match parse_toml(text) {
        Ok(t) => Ok(t),
        Err(m) => Err(LoadError::ParseError(m)),
    }
}

/// Loads the settings document from the outcome of reading its text.
pub fn get_config(read: Result<String, ReadFailure>) -> (r: Result<ConfigTable, LoadError>)
    ensures
        match read {
            Ok(text) => match toml_table(text@) {
                Ok(e) => r matches Ok(t) && t@ == e && t.wf(),
                Err(m) => r matches Err(LoadError::ParseError(pm)) && pm@ == m,
            },
            Err(ReadFailure::NotFound) => r matches Err(LoadError::NotFound),
            Err(ReadFailure::PermissionDenied) => r matches Err(LoadError::PermissionDenied),
            Err(ReadFailure::Other(m)) => r matches Err(LoadError::Other(om)) && om@ == m@,
        },
{
    match read {
        Ok(text) => parse_config(text.as_str()),
        Err(ReadFailure::NotFound) => Err(LoadError::NotFound),
        Err(ReadFailure::PermissionDenied) => Err(LoadError::PermissionDenied),
        Err(ReadFailure::Other(m)) => Err(LoadError::Other(m)),
    }
}

impl LoadError {
    /// A one-line description of the failure.
    pub fn message(&self) -> (r: String)
        ensures
            match self {
                LoadError::ParseError(m) => r@ == m@,
                LoadError::Other(m) => r@ == m@,
                LoadError::NotFound => r@ == "the settings file does not exist"@,
                LoadError::PermissionDenied => r@ == "no permission to open the settings file"@,
            },
    {
        match self {
            LoadError::NotFound => String::from_str("the settings file does not exist"),
            LoadError::PermissionDenied => String::from_str("no permission to open the settings file"),
            LoadError::ParseError(m) => m.clone(),
            LoadError::Other(m) => m.clone(),
        }
    }
}

} // verus!
