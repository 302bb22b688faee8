use vstd::prelude::*;

verus! {

/// Numeric level of `Severity::Debug`.
pub const DEBUG: u8 = 0;

/// Numeric level of `Severity::Info`.
pub const INFO: u8 = 1;

/// Numeric level of `Severity::Warning`.
pub const WARNING: u8 = 2;

/// Numeric level of `Severity::Error`.
pub const ERROR: u8 = 3;

/// How important a log line is, from least to most severe.
#[derive(Clone, Copy, Debug, PartialEq, Eq, Structural, PartialOrd, Ord, Hash)]
pub enum Severity {
    Debug,
    Info,
    Warning,
    Error,
}

/// The tag that opens a line of the given severity.
pub open spec fn label_of(s: Severity) -> Seq<char> {
    match s {
        Severity::Debug => seq!['D', 'E', 'B', 'U', 'G'],
        Severity::Info => seq!['I', 'N', 'F', 'O'],
        Severity::Warning => seq!['W', 'A', 'R', 'N', 'I', 'N', 'G'],
        Severity::Error => seq!['E', 'R', 'R', 'O', 'R'],
    }
}

/// The numeric level of a severity: its rank in the order
/// debug < info < warning < error.
pub open spec fn level_of(s: Severity) -> nat {
    match s {
        Severity::Debug => 0,
        Severity::Info => 1,
        Severity::Warning => 2,
        Severity::Error => 3,
    }
}

impl Severity {
    /// The upper-case tag written at the start of a line.
    pub fn label(&self) -> (r: &'static str)
        ensures
            r@ == label_of(*self),
    {
        match self {
            Severity::Debug => {
                proof {
                    reveal_strlit("DEBUG");
                }
                "DEBUG"
            },
            Severity::Info => {
                proof {
                    reveal_strlit("INFO");
                }
                "INFO"
            },
            Severity::Warning => {
                proof {
                    reveal_strlit("WARNING");
                }
                "WARNING"
            },
            Severity::Error => {
                proof {
                    reveal_strlit("ERROR");
                }
                "ERROR"
            },
        }
    }

    /// The numeric level, one of `DEBUG`, `INFO`, `WARNING`, `ERROR`.
    pub fn level(&self) -> (r: u8)
        ensures
            r as nat == level_of(*self),
    {
        match self {
            Severity::Debug => DEBUG,
            Severity::Info => INFO,
            Severity::Warning => WARNING,
            Severity::Error => ERROR,
        }
    }
}

} // verus!
