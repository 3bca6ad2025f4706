//! Generation of SSH client configuration stanzas.
//!
//! The library turns a set of host aliases and a few optional settings into
//! the text block that an SSH client configuration file expects.  It has two
//! stages: resolving raw argument values into a [`config::ConfigRecord`], and
//! rendering that record into the fixed-format text block.

pub mod config;
pub mod render;

pub use crate::config::build_config;
pub use crate::config::parse_destination;
pub use crate::config::ConfigError;
pub use crate::config::ConfigRecord;
pub use crate::render::render_template;
