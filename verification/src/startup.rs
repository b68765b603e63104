use vstd::prelude::*;

use crate::text::replace_all;
use crate::text::replace_spec;

verus! {

/// Logging verbosity selected at startup, ordered from most to least
/// detailed.  The caller maps this onto whatever logging backend it uses.
#[derive(Clone, Copy, Debug, PartialEq, Eq, Structural)]
pub enum LogLevel {
    Trace,
    Debug,
    Info,
    Error,
}

/// The command-line switches every program of the suite shares.
#[derive(Clone, Copy, Debug, PartialEq, Eq, Structural)]
pub struct OptsCommon {
    pub verbose: bool,
    pub debug: bool,
    pub trace: bool,
}

impl OptsCommon {
    /// The log level the switches select: the most detailed one asked
    /// for, or errors only when none is.
    pub fn get_loglevel(&self) -> (r: LogLevel)
        ensures
            self.trace ==> r == LogLevel::Trace,
            !self.trace && self.debug ==> r == LogLevel::Debug,
            !self.trace && !self.debug && self.verbose ==> r == LogLevel::Info,
            !self.trace && !self.debug && !self.verbose ==> r == LogLevel::Error,
    {
        if self.trace {
            LogLevel::Trace
        } else if self.debug {
            LogLevel::Debug
        } else if self.verbose {
            LogLevel::Info
        } else {
            LogLevel::Error
        }
    }
}

/// The reduced switch set of the combined monitor program.
#[derive(Clone, Copy, Debug, PartialEq, Eq, Structural)]
pub struct GlobalOptions {
    pub debug: bool,
    pub trace: bool,
}

impl GlobalOptions {
    /// The log level the switches select; the monitor defaults to
    /// informational output.
    pub fn get_loglevel(&self) -> (r: LogLevel)
        ensures
            self.trace ==> r == LogLevel::Trace,
            !self.trace && self.debug ==> r == LogLevel::Debug,
            !self.trace && !self.debug ==> r == LogLevel::Info,
    {
        if self.trace {
            LogLevel::Trace
        } else if self.debug {
            LogLevel::Debug
        } else {
            LogLevel::Info
        }
    }
}

/// Expands every `$HOME` marker in a path to the given home directory,
/// leftmost first; reading the environment stays with the caller, which
/// hands the home directory in as plain text.
pub fn expand_home(pathname: &str, home: &str) -> (r: String)
    ensures
        r@ == replace_spec(pathname@, "$HOME"@, home@),
{
    replace_all(pathname, "$HOME", home)
}

} // verus!
