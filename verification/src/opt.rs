//! Options of the server process.

use vstd::prelude::*;

verus! {

#[verifier::external_type_specification]
pub struct ExLevelFilter(log::LevelFilter);

/// The name of the log file where none is given.
pub open spec fn default_log_file() -> Seq<char> {
    "svls.log"@
}

/// What the command line sets.
pub struct Opt {
    /// The level of log printing; nothing is logged at `Off`.
    pub log_level: log::LevelFilter,
    /// The file to print log information to.
    pub log_file: String,
}

impl Default for Opt {
    /// The options of a command line without arguments: logging off, the
    /// log file under its default name.
    fn default() -> (opt: Opt)
        ensures
            opt.log_level is Off,
            opt.log_file@ == default_log_file(),
    {
        Opt { log_level: log::LevelFilter::Off, log_file: "svls.log".to_owned() }
    }
}

impl Opt {
    /// Whether a log is to be written: at every level but `Off`.
    pub fn logging_enabled(&self) -> (r: bool)
        ensures
            r == !(self.log_level is Off),
    {
        match self.log_level {
            log::LevelFilter::Off => false,
            _ => true,
        }
    }
}

} // verus!
