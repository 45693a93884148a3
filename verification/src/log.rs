//! Log levels for messages handed to the host's logger.

use vstd::prelude::*;

verus! {

/// How important a log message is.
#[derive(Debug, Clone, Copy, PartialEq, Eq, Structural, Hash)]
pub enum Level {
    /// Details for development only.
    Debug,
    /// Ordinary progress notes.
    Info,
    /// Something surprising that the script survived.
    Warn,
    /// Something went wrong.
    Error,
}

impl Level {
    /// The numeric code the host's logging entry point expects for this
    /// level.
    pub fn code(self) -> (c: i32)
        ensures
            self == Level::Debug ==> c == 0,
            self == Level::Info ==> c == 1,
            self == Level::Warn ==> c == 2,
            self == Level::Error ==> c == 3,
    {
        match self {
            Level::Debug => 0,
            Level::Info => 1,
            Level::Warn => 2,
            Level::Error => 3,
        }
    }
}

} // verus!
