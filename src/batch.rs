//! The parser handle and the parsing of a batch of lines.
use vstd::prelude::*;

use crate::entry::{LogEntry, LogEntryView};
use crate::grammar::{parse_strict, parse_strict_spec};

verus! {

/// The text of each line.
pub open spec fn line_texts(lines: Seq<String>) -> Seq<Seq<char>> {
    lines.map_values(|l: String| l@)
}

/// The value of each record.
pub open spec fn entry_views(entries: Seq<LogEntry>) -> Seq<LogEntryView> {
    entries.map_values(|e: LogEntry| e@)
}

/// The records of the lines that parse, in the order of the lines.
pub open spec fn parsed_lines(lines: Seq<Seq<char>>) -> Seq<LogEntryView>
    decreases lines.len(),
{
    if lines.len() == 0 {
        Seq::empty()
    } else {
        let before = parsed_lines(lines.drop_last());
        match parse_strict_spec(lines.last()) {
            Some(e) => before.push(e),
            None => before,
        }
    }
}

/// Parses log lines; it holds no state, so one value serves any number of calls.
pub struct Parser {}

impl Parser {
    pub fn new() -> (r: Parser) {
        Parser {}
    }

    /// Parses one line: the record when the whole line matches the grammar.
    pub fn parse_log_line(&self, line: &str) -> (r: Option<LogEntry>)
        ensures
            match r {
                Some(e) => parse_strict_spec(line@) == Some(e@),
                None => parse_strict_spec(line@) is None,
            },
    {
        parse_strict(line)
    }

    /// The records of the lines that parse, in order; the other lines are skipped.
    pub fn parse_log_lines(&self, lines: &Vec<String>) -> (r: Vec<LogEntry>)
        ensures
            entry_views(r@) == parsed_lines(line_texts(lines@)),
    {
        let mut out: Vec<LogEntry> = Vec::new();
        let mut i: usize = 0;
        while i < lines.len()
            invariant
                i <= lines@.len(),
                entry_views(out@) == parsed_lines(line_texts(lines@).take(i as int)),
            decreases lines@.len() - i,
        {
            let parsed = self.parse_log_line(lines[i].as_str());
            proof {
                let texts = line_texts(lines@);
                assert(texts.take(i + 1).drop_last() =~= texts.take(i as int));
                assert(texts.take(i + 1).last() == lines@[i as int]@);
            }
            match parsed {
                Some(e) => {
                    let ghost before = out@;
                    let ghost ev = e@;
                    out.push(e);
                    assert(entry_views(out@) =~= entry_views(before).push(ev));
                },
                None => {},
            }
            i = i + 1;
        }
        assert(line_texts(lines@).take(lines@.len() as int) =~= line_texts(lines@));
        out
    }

    /// The number of lines that parse; every line is parsed in full.
    pub fn count_log_lines(&self, lines: &Vec<String>) -> (r: usize)
        ensures
            r == parsed_lines(line_texts(lines@)).len(),
    {
        let entries = self.parse_log_lines(lines);
        assert(entry_views(entries@).len() == entries@.len());
        entries.len()
    }
}

} // verus!
