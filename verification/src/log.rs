//! How much a message weighs, and whether it is to be shown.
use vstd::prelude::*;

verus! {

/// The weight of a message, from the lightest to the heaviest.
#[derive(Clone, Copy, Debug, PartialEq, Eq, PartialOrd, Ord, Structural)]
pub enum LogLevel {
    Debug,
    Info,
    Success,
    Error,
}

impl LogLevel {
    /// The place of the level in the order of weights: `Debug` comes
    /// first, then `Info`, `Success` and `Error`.
    pub open spec fn rank_of(self) -> nat {
        match self {
            LogLevel::Debug => 0,
            LogLevel::Info => 1,
            LogLevel::Success => 2,
            LogLevel::Error => 3,
        }
    }

    /// The word that marks a message of the level.
    pub open spec fn tag_of(self) -> Seq<char> {
        match self {
            LogLevel::Debug => "DEBUG"@,
            LogLevel::Info => "INFO"@,
            LogLevel::Success => "OK"@,
            LogLevel::Error => "ERROR"@,
        }
    }

    /// The place of the level in the order of weights.
    pub fn rank(self) -> (rank: u8)
        ensures
            rank == self.rank_of(),
    {
        match self {
            LogLevel::Debug => 0,
            LogLevel::Info => 1,
            LogLevel::Success => 2,
            LogLevel::Error => 3,
        }
    }

    /// The word that marks a message of the level.
    pub fn tag(self) -> (tag: &'static str)
        ensures
            tag@ == self.tag_of(),
    {
        match self {
            LogLevel::Debug => "DEBUG",
            LogLevel::Info => "INFO",
            LogLevel::Success => "OK",
            LogLevel::Error => "ERROR",
        }
    }

    /// Whether a logger set to this level shows a message of the level
    /// `message`: it shows what weighs as much as its own level or more.
    pub fn allows(self, message: LogLevel) -> (shown: bool)
        ensures
            shown == (self.rank_of() <= message.rank_of()),
    {
        self.rank() <= message.rank()
    }
}

} // verus!
