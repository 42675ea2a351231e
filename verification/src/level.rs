//! Record levels and their syslog severities.

use vstd::prelude::*;

verus! {

/// The syslog facility of every frame this logger emits: user-level messages.
pub const FACILITY: u8 = 1;

/// How severe a record is, most severe first.
#[derive(Clone, Copy, Debug, PartialEq, Eq, Structural)]
pub enum Level {
    Error,
    Warn,
    Info,
    Debug,
    Trace,
}

impl Level {
    /// The syslog severity of the level.
    pub open spec fn severity_of(self) -> nat {
        match self {
            Level::Error => 3,
            Level::Warn => 4,
            Level::Info => 6,
            Level::Debug => 7,
            Level::Trace => 7,
        }
    }

    /// The syslog priority of the level: eight times the facility, plus the
    /// severity.
    pub open spec fn priority_of(self) -> nat {
        FACILITY as nat * 8 + self.severity_of()
    }

    /// The level's name as it is written into a line.
    pub open spec fn name_of(self) -> Seq<char> {
        match self {
            Level::Error => "ERROR"@,
            Level::Warn => "WARN"@,
            Level::Info => "INFO"@,
            Level::Debug => "DEBUG"@,
            Level::Trace => "TRACE"@,
        }
    }

    /// The level's place in the order of verbosity, from 1 for `Error` to 5
    /// for `Trace`.
    pub open spec fn rank_of(self) -> nat {
        match self {
            Level::Error => 1,
            Level::Warn => 2,
            Level::Info => 3,
            Level::Debug => 4,
            Level::Trace => 5,
        }
    }

    /// The syslog severity: 3 for `Error`, 4 for `Warn`, 6 for `Info`, 7 for
    /// `Debug` and for `Trace`.
    pub fn severity(self) -> (s: u8)
        ensures
            s == self.severity_of(),
    {
        match self {
            Level::Error => 3,
            Level::Warn => 4,
            Level::Info => 6,
            Level::Debug => 7,
            Level::Trace => 7,
        }
    }

    /// The syslog priority: 11, 12, 14, 15 and 15, from `Error` to `Trace`.
    pub fn priority(self) -> (p: u8)
        ensures
            p == self.priority_of(),
            self == Level::Error ==> p == 11,
            self == Level::Warn ==> p == 12,
            self == Level::Info ==> p == 14,
            self == Level::Debug ==> p == 15,
            self == Level::Trace ==> p == 15,
    {
        FACILITY * 8 + self.severity()
    }

    /// The level's name in capitals.
    pub fn name(self) -> (s: &'static str)
        ensures
            s@ == self.name_of(),
    {
        match self {
            Level::Error => "ERROR",
            Level::Warn => "WARN",
            Level::Info => "INFO",
            Level::Debug => "DEBUG",
            Level::Trace => "TRACE",
        }
    }

    /// The level's place in the order of verbosity.
    pub fn rank(self) -> (r: u8)
        ensures
            r == self.rank_of(),
    {
        match self {
            Level::Error => 1,
            Level::Warn => 2,
            Level::Info => 3,
            Level::Debug => 4,
            Level::Trace => 5,
        }
    }

    /// Whether a record of this level passes a filter that lets through
    /// `most_verbose` and everything more severe.
    pub fn passes(self, most_verbose: Level) -> (yes: bool)
        ensures
            yes == (self.rank_of() <= most_verbose.rank_of()),
    {
        self.rank() <= most_verbose.rank()
    }
}

} // verus!
