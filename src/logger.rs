use vstd::prelude::*;

verus! {

/// How much a log event matters.
#[derive(Clone, Copy, Debug, PartialEq, Eq, Structural)]
pub enum LogLevel {
    Info,
    Warning,
    Error,
    Trace,
}

/// The name of a level as it appears in a log line.
pub open spec fn level_name(l: LogLevel) -> Seq<char> {
    match l {
        LogLevel::Info => seq!['I', 'n', 'f', 'o'],
        LogLevel::Warning => seq!['W', 'a', 'r', 'n', 'i', 'n', 'g'],
        LogLevel::Error => seq!['E', 'r', 'r', 'o', 'r'],
        LogLevel::Trace => seq!['T', 'r', 'a', 'c', 'e'],
    }
}

impl LogLevel {
    /// The name of this level as it appears in a log line.
    pub fn as_str(&self) -> (r: &'static str)
        ensures
            r@ == level_name(*self),
    {
        proof {
            reveal_strlit("Info");
            reveal_strlit("Warning");
            reveal_strlit("Error");
            reveal_strlit("Trace");
        }
        match self {
            LogLevel::Info => "Info",
            LogLevel::Warning => "Warning",
            LogLevel::Error => "Error",
            LogLevel::Trace => "Trace",
        }
    }
}

} // verus!
