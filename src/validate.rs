use crate::config::{lookup, ConfigTable, ConfigValue};
use vstd::prelude::*;

verus! {

/// One of the two sections that a settings document must hold.
#[derive(Clone, Copy, Debug, PartialEq, Eq, Structural)]
pub enum Section {
    /// `PATHS`: the list of installation directories.
    Paths,
    /// `SERVERS`: the table from alias to realm address.
    Servers,
}

/// Why a settings document does not have the shape that the tool needs.
#[derive(Clone, Copy, Debug, PartialEq, Eq, Structural)]
pub enum ConfigError {
    MissingSection(Section),
    InvalidFormat(Section),
}

impl Section {
    /// The key under which the section stands in the document.
    pub open spec fn key_spec(self) -> Seq<char> {
        match self {
            Section::Paths => seq!['P', 'A', 'T', 'H', 'S'],
            Section::Servers => seq!['S', 'E', 'R', 'V', 'E', 'R', 'S'],
        }
    }

    /// The key under which the section stands in the document.
    pub fn key(self) -> (r: &'static str)
        ensures
            r@ == self.key_spec(),
    {
        match self {
            Section::Paths => {
                proof {
                    reveal_strlit("PATHS");
                }
                "PATHS"
            },
            Section::Servers => {
                proof {
                    reveal_strlit("SERVERS");
                }
                "SERVERS"
            },
        }
    }
}

/// The section has the sampled shape: `PATHS` a list whose first element is a
/// string, `SERVERS` a table whose first value is a string.
pub open spec fn shape_ok(s: Section, v: ConfigValue) -> bool {
    match s {
        Section::Paths => match v {
            ConfigValue::Array(a) => a@.len() > 0 && a@[0] is Str,
            _ => false,
        },
        Section::Servers => match v {
            ConfigValue::Table(t) => t@.len() > 0 && t@[0].1 is Str,
            _ => false,
        },
    }
}

/// The verdict on one section of the document `e`.
pub open spec fn section_verdict(e: Seq<(String, ConfigValue)>, s: Section) -> Result<(), ConfigError> {
    match lookup(e, s.key_spec()) {
        None => Err(ConfigError::MissingSection(s)),
        Some(v) => if shape_ok(s, v) {
            Ok(())
        } else {
            Err(ConfigError::InvalidFormat(s))
        },
    }
}

/// The verdict on the document `e`: `PATHS` is judged first, then `SERVERS`.
pub open spec fn verdict(e: Seq<(String, ConfigValue)>) -> Result<(), ConfigError> {
    match section_verdict(e, Section::Paths) {
        Ok(_) => section_verdict(e, Section::Servers),
        Err(err) => Err(err),
    }
}

/// Checks one section of the document.
fn check_section(config: &ConfigTable, s: Section) -> (r: Result<(), ConfigError>)
    ensures
        r == section_verdict(config@, s),
{
    match config.get(s.key()) {
        None => Err(ConfigError::MissingSection(s)),
        Some(v) => {
            let ok = match (s, v) {
                (Section::Paths, ConfigValue::Array(a)) => a.len() > 0 && matches!(a[0], ConfigValue::Str(_)),
                (Section::Servers, ConfigValue::Table(t)) => t.len() > 0 && matches!(t.entry(0).1, ConfigValue::Str(_)),
                _ => false,
            };
            if ok {
                Ok(())
            } else {
                Err(ConfigError::InvalidFormat(s))
            }
        },
    }
}

/// Checks that the document has the two sections in the sampled shapes.
pub fn verify_config(config: &ConfigTable) -> (r: Result<(), ConfigError>)
    ensures
        r == verdict(config@),
{
    match check_section(config, Section::Paths) {
        Ok(_) => check_section(config, Section::Servers),
        Err(e) => Err(e),
    }
}

/// A document without `PATHS` is reported as missing that section.
pub proof fn lemma_missing_paths(e: Seq<(String, ConfigValue)>)
    requires
        lookup(e, Section::Paths.key_spec()) is None,
    ensures
        verdict(e) == Err::<(), ConfigError>(ConfigError::MissingSection(Section::Paths)),
{
}

/// A document whose `PATHS` passes but which has no `SERVERS` is reported as
/// missing that section.
pub proof fn lemma_missing_servers(e: Seq<(String, ConfigValue)>)
    requires
        section_verdict(e, Section::Paths) is Ok,
        lookup(e, Section::Servers.key_spec()) is None,
    ensures
        verdict(e) == Err::<(), ConfigError>(ConfigError::MissingSection(Section::Servers)),
{
}

/// A document whose `PATHS` is present but is not a list that starts with a
/// string (a number, a table, an empty list) is reported as malformed there.
pub proof fn lemma_malformed_paths(e: Seq<(String, ConfigValue)>, v: ConfigValue)
    requires
        lookup(e, Section::Paths.key_spec()) == Some(v),
        !shape_ok(Section::Paths, v),
    ensures
        verdict(e) == Err::<(), ConfigError>(ConfigError::InvalidFormat(Section::Paths)),
{
}

impl ConfigError {
    /// The one-line description of the fault.
    pub open spec fn message_spec(self) -> Seq<char> {
        match self {
            ConfigError::MissingSection(s) => "missing section <"@ + s.key_spec() + "> in the settings file"@,
            ConfigError::InvalidFormat(s) => "invalid format of section <"@ + s.key_spec() + "> in the settings file"@,
        }
    }

    /// A one-line description of the fault.
    pub fn message(&self) -> (r: String)
        ensures
            r@ == self.message_spec(),
    {
        match *self {
            ConfigError::MissingSection(s) => String::from_str("missing section <").concat(s.key()).concat("> in the settings file"),
            ConfigError::InvalidFormat(s) => String::from_str("invalid format of section <").concat(s.key()).concat("> in the settings file"),
        }
    }
}

} // verus!
