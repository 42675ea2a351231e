//! The record that producers emit and the logger's configuration.

use vstd::prelude::*;
use crate::level::Level;

verus! {

/// `std::path::PathBuf`, carried in the configuration and never read here.
#[verifier::external_type_specification]
#[verifier::external_body]
pub struct ExPathBuf(std::path::PathBuf);

/// `PathBuf::clone`, so that a configuration can be copied. A path is carried
/// through unread, and nothing is claimed of the copy.
pub assume_specification[ <std::path::PathBuf as Clone>::clone ](path: &std::path::PathBuf) -> (copy:
    std::path::PathBuf);

/// One log emission. Its time is taken when the dispatcher dequeues it.
pub struct LogMessage {
    pub level: Level,
    pub target: String,
    pub body: String,
}

/// A record as the formats read it.
pub struct RecordView {
    pub level: Level,
    pub target: Seq<char>,
    pub body: Seq<char>,
}

impl View for LogMessage {
    type V = RecordView;

    open spec fn view(&self) -> RecordView {
        RecordView { level: self.level, target: self.target@, body: self.body@ }
    }
}

/// Settings for local and remote logging, fixed once the logger runs.
#[derive(Debug)]
pub struct LoggerConfig {
    pub log_dir: std::path::PathBuf,
    pub max_file_size: u64,
    pub max_files: usize,
    pub papertrail_endpoint: Option<String>,
    pub hostname: String,
    pub enable_local: bool,
    pub enable_papertrail: bool,
}

impl Clone for LoggerConfig {
    /// A copy with the same settings. Of the directory it is only known that
    /// it was copied as a path is.
    fn clone(&self) -> (copy: LoggerConfig)
        ensures
            copy.max_file_size == self.max_file_size,
            copy.max_files == self.max_files,
            copy.papertrail_endpoint == self.papertrail_endpoint,
            copy.hostname == self.hostname,
            copy.enable_local == self.enable_local,
            copy.enable_papertrail == self.enable_papertrail,
    {
        LoggerConfig {
            log_dir: self.log_dir.clone(),
            max_file_size: self.max_file_size,
            max_files: self.max_files,
            papertrail_endpoint: match &self.papertrail_endpoint {
                Some(endpoint) => Some(endpoint.clone()),
                None => None,
            },
            hostname: self.hostname.clone(),
            enable_local: self.enable_local,
            enable_papertrail: self.enable_papertrail,
        }
    }
}

impl LoggerConfig {
    /// The limits a configuration has to respect: a positive size threshold
    /// and room for at least one file.
    pub open spec fn limits_ok(&self) -> bool {
        self.max_file_size > 0 && self.max_files >= 1
    }

    /// Whether the size threshold is positive and at least one file is kept.
    pub fn has_valid_limits(&self) -> (ok: bool)
        ensures
            ok == self.limits_ok(),
    {
        self.max_file_size > 0 && self.max_files >= 1
    }
}

} // verus!
