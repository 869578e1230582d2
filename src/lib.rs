//! Switches the realm a game client connects to: loads and checks a settings
//! document, resolves a server name against its table of realms, and decides
//! what is written into each configured installation directory.

pub mod config;
pub mod load;
pub mod resolve;
pub mod session;
pub mod validate;
pub mod writer;

pub use config::{ConfigTable, ConfigValue};
pub use load::{get_config, parse_config, LoadError, ReadFailure};
pub use resolve::{get_server_from, select_server};
pub use session::{directive_for, RunError};
pub use validate::{verify_config, ConfigError, Section};
pub use writer::{collect_outcome, ModifiedFilesResult, realmlist_line, target_paths, TargetStatus, WriteFailure, PATHS_SHAPE_ERROR, REALMLIST_FILE};
