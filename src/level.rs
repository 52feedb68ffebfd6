//! The closed set of severity levels.
use vstd::prelude::*;

verus! {

/// A severity level; only these four exist.
#[derive(Clone, Copy, Debug, PartialEq, Eq, Structural)]
pub enum Level {
    Info,
    Warn,
    Error,
    Debug,
}

impl Level {
    /// The text token that names this level in a log line.
    pub open spec fn spec_token(self) -> Seq<char> {
        match self {
            Level::Info => seq!['I', 'N', 'F', 'O'],
            Level::Warn => seq!['W', 'A', 'R', 'N'],
            Level::Error => seq!['E', 'R', 'R', 'O', 'R'],
            Level::Debug => seq!['D', 'E', 'B', 'U', 'G'],
        }
    }

    /// The token of this level as text.
    pub fn as_str(&self) -> (r: &'static str)
        ensures
            r@ == self.spec_token(),
    {
        match self {
            Level::Info => {
                proof {
                    reveal_strlit("INFO");
                }
                assert("INFO"@ =~= Level::Info.spec_token());
                "INFO"
            },
            Level::Warn => {
                proof {
                    reveal_strlit("WARN");
                }
                assert("WARN"@ =~= Level::Warn.spec_token());
                "WARN"
            },
            Level::Error => {
                proof {
                    reveal_strlit("ERROR");
                }
                assert("ERROR"@ =~= Level::Error.spec_token());
                "ERROR"
            },
            Level::Debug => {
                proof {
                    reveal_strlit("DEBUG");
                }
                assert("DEBUG"@ =~= Level::Debug.spec_token());
                "DEBUG"
            },
        }
    }
}

} // verus!
