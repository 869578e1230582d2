use crate::config::ConfigTable;
use crate::resolve::{all_str, get_server_from, resolution, servers_of};
use crate::validate::{verdict, verify_config, ConfigError};
use crate::writer::{directive_of, realmlist_line};
use vstd::prelude::*;

verus! {

/// Why no directive can be made for the requested server.
pub enum RunError {
    /// The settings document has the wrong shape.
    Config(ConfigError),
    /// The name is neither an alias nor a listed address.
    UnknownServer(String),
}

/// Checks the document and resolves `server` in it, giving the directive to
/// write into every installation directory.
pub fn directive_for(server: &str, config: &ConfigTable) -> (r: Result<String, RunError>)
    requires
        match servers_of(config@) {
            Some(t) => all_str(t),
            None => true,
        },
    ensures
        match verdict(config@) {
            Err(e) => r matches Err(RunError::Config(re)) && re == e,
            Ok(_) => match resolution(config@, server@) {
                Some(a) => r matches Ok(line) && line@ == directive_of(a),
                None => r matches Err(RunError::UnknownServer(s)) && s@ == server@,
            },
        },
{
    if let Err(e) = verify_config(config) {
        return Err(RunError::Config(e));
    }
    match get_server_from(server, config) {
        Some(address) => Ok(realmlist_line(address.as_str())),
        None => Err(RunError::UnknownServer(String::from_str(server))),
    }
}

impl RunError {
    /// A one-line description of the failure.
    pub fn message(&self) -> (r: String)
        ensures
            match self {
                RunError::Config(e) => r@ == e.message_spec(),
                RunError::UnknownServer(s) => r@ == "value `"@ + s@ + "` does not exist in the settings file"@,
            },
    {
        match self {
            RunError::Config(e) => e.message(),
            RunError::UnknownServer(s) => String::from_str("value `").concat(s.as_str()).concat(
                "` does not exist in the settings file",
            ),
        }
    }
}

} // verus!
