//! Parsing of single-line log records of the form `[DATE TIME] LEVEL: MESSAGE`.
pub mod batch;
pub mod entry;
pub mod grammar;
pub mod laws;
pub mod level;
pub mod scan;

pub use batch::Parser;
pub use entry::LogEntry;
pub use grammar::{parse_raw, parse_strict};
pub use level::Level;
