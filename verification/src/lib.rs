//! Asynchronous application logging, fanned out to a rotating set of local
//! files and to a remote syslog collector.
//!
//! The crate holds the rules of the logger: how a record is rendered for each
//! destination, when the local file is rotated and which files are retired,
//! and how a producer's record is offered to the bounded queue. Opening files
//! and sockets is left to the caller, who reports back what happened.

pub mod clock;
pub mod dispatcher;
pub mod facade;
pub mod file_sink;
pub mod format;
pub mod intake;
pub mod level;
pub mod record;
pub mod text;

pub use level::Level;
pub use record::{LogMessage, LoggerConfig};
