//! The record extracted from one log line.
use vstd::prelude::*;

verus! {

/// One parsed log line: its timestamp, its level token and its message.
#[derive(Debug, PartialEq, Eq, Clone)]
pub struct LogEntry {
    pub timestamp: String,
    pub level: String,
    pub message: String,
}

/// The mathematical value of a `LogEntry`: its three fields as character sequences.
pub struct LogEntryView {
    pub timestamp: Seq<char>,
    pub level: Seq<char>,
    pub message: Seq<char>,
}

impl View for LogEntry {
    type V = LogEntryView;

    open spec fn view(&self) -> LogEntryView {
        LogEntryView { timestamp: self.timestamp@, level: self.level@, message: self.message@ }
    }
}

/// The line that writes a record: `"[" timestamp "] " level ": " message`.
pub open spec fn log_line(timestamp: Seq<char>, level: Seq<char>, message: Seq<char>) -> Seq<char> {
    seq!['['] + timestamp + seq![']', ' '] + level + seq![':', ' '] + message
}

impl LogEntry {
    /// Writes the record back as a log line, without a line terminator.
    pub fn to_line(&self) -> (r: String)
        ensures
            r@ == log_line(self.timestamp@, self.level@, self.message@),
    {
        let mut line = String::new();
        line.append("[");
        line.append(self.timestamp.as_str());
        line.append("] ");
        line.append(self.level.as_str());
        line.append(": ");
        line.append(self.message.as_str());
        proof {
            reveal_strlit("[");
            reveal_strlit("] ");
            reveal_strlit(": ");
        }
        assert(line@ =~= log_line(self.timestamp@, self.level@, self.message@));
        line
    }
}

} // verus!
