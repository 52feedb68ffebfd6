//! The line grammar `"[" date " " time "]" " " level ":" " " message`.
use vstd::prelude::*;

use crate::entry::{LogEntry, LogEntryView};
use crate::level::Level;
use crate::scan::{find_char, find_char_from, find_terminator, find_terminator_from, first_where, lemma_first_where_at};

verus! {

/// An ASCII letter.
pub open spec fn is_letter(c: char) -> bool {
    ('a' <= c && c <= 'z') || ('A' <= c && c <= 'Z')
}

/// The test that an index of `s` holds no letter.
pub open spec fn is_not_letter(s: Seq<char>) -> spec_fn(int) -> bool {
    |k: int| !is_letter(s[k])
}

/// The end of the run of letters that starts at `i` in `s`.
pub open spec fn letters_end(s: Seq<char>, i: int) -> int {
    first_where(is_not_letter(s), i, s.len() as int)
}

/// The level that a token names, if it names one.
pub open spec fn level_of_token(t: Seq<char>) -> Option<Level> {
    if t == Level::Info.spec_token() {
        Some(Level::Info)
    } else if t == Level::Warn.spec_token() {
        Some(Level::Warn)
    } else if t == Level::Error.spec_token() {
        Some(Level::Error)
    } else if t == Level::Debug.spec_token() {
        Some(Level::Debug)
    } else {
        None
    }
}

/// What the grammar extracts from `s`: the text left after the message, and the record.
///
/// The date runs from after `[` to the first space; the time from there to the first `]`,
/// which a space follows; the level is the run of letters after it, which must name a
/// level and be followed by `": "`; the message runs to the first line terminator.
/// The timestamp is the date, one space and the time, which is all that stood between
/// the brackets.
pub open spec fn parse_raw_spec(s: Seq<char>) -> Option<(Seq<char>, LogEntryView)> {
    let n = s.len() as int;
    if n == 0 || s[0] != '[' {
        None
    } else {
        let sp = find_char_from(s, ' ', 1);
        if sp >= n {
            None
        } else {
            let cb = find_char_from(s, ']', sp + 1);
            if cb + 1 >= n || s[cb + 1] != ' ' {
                None
            } else {
                let ls = cb + 2;
                let le = letters_end(s, ls);
                match level_of_token(s.subrange(ls, le)) {
                    None => None,
                    Some(level) => {
                        if le + 1 >= n || s[le] != ':' || s[le + 1] != ' ' {
                            None
                        } else {
                            let ms = le + 2;
                            let me = find_terminator_from(s, ms);
                            Some(
                                (
                                    s.subrange(me, n),
                                    LogEntryView {
                                        timestamp: s.subrange(1, cb),
                                        level: level.spec_token(),
                                        message: s.subrange(ms, me),
                                    },
                                ),
                            )
                        }
                    },
                }
            }
        }
    }
}

/// Whether what is left after the message ends the line: nothing, or one line terminator.
pub open spec fn is_line_end(rest: Seq<char>) -> bool {
    rest == Seq::<char>::empty() || rest == seq!['\n'] || rest == seq!['\r', '\n']
}

/// The record of a whole line: the grammar matches and leaves at most a line terminator.
pub open spec fn parse_strict_spec(s: Seq<char>) -> Option<LogEntryView> {
    match parse_raw_spec(s) {
        Some((rest, e)) => if is_line_end(rest) {
            Some(e)
        } else {
            None
        },
        None => None,
    }
}

/// Finds the end of the run of letters that starts at `start` in `s`, of `n` characters.
fn find_letters_end(s: &str, n: usize, start: usize) -> (r: usize)
    requires
        n == s@.len(),
        start <= n,
    ensures
        start <= r <= n,
        r == letters_end(s@, start as int),
{
    let mut k: usize = start;
    while k < n && is_ascii_letter(s.get_char(k))
        invariant
            n == s@.len(),
            start <= k <= n,
            forall|j: int| start <= j < k ==> is_letter(s@[j]),
        decreases n - k,
    {
        k = k + 1;
    }
    proof {
        lemma_first_where_at(is_not_letter(s@), start as int, n as int, k as int);
    }
    k
}

/// Whether `c` is an ASCII letter.
fn is_ascii_letter(c: char) -> (r: bool)
    ensures
        r == is_letter(c),
{
    ('a' <= c && c <= 'z') || ('A' <= c && c <= 'Z')
}

/// Whether the characters `from..to` of `s` are exactly `t`.
fn span_equals(s: &str, from: usize, to: usize, t: &str) -> (r: bool)
    requires
        from <= to <= s@.len(),
    ensures
        r == (s@.subrange(from as int, to as int) == t@),
{
    let m = t.unicode_len();
    if to - from != m {
        proof {
            assert(s@.subrange(from as int, to as int).len() != t@.len());
        }
        return false;
    }
    let mut k: usize = 0;
    while k < m
        invariant
            from <= to <= s@.len(),
            m == t@.len(),
            to - from == m,
            k <= m,
            forall|j: int| 0 <= j < k ==> s@[from + j] == t@[j],
        decreases m - k,
    {
        if s.get_char(from + k) != t.get_char(k) {
            proof {
                assert(s@.subrange(from as int, to as int)[k as int] != t@[k as int]);
            }
            return false;
        }
        k = k + 1;
    }
    assert(s@.subrange(from as int, to as int) =~= t@);
    true
}

/// The level named by the characters `from..to` of `s`, if they name one.
fn level_of_span(s: &str, from: usize, to: usize) -> (r: Option<Level>)
    requires
        from <= to <= s@.len(),
    ensures
        r == level_of_token(s@.subrange(from as int, to as int)),
{
    if span_equals(s, from, to, Level::Info.as_str()) {
        Some(Level::Info)
    } else if span_equals(s, from, to, Level::Warn.as_str()) {
        Some(Level::Warn)
    } else if span_equals(s, from, to, Level::Error.as_str()) {
        Some(Level::Error)
    } else if span_equals(s, from, to, Level::Debug.as_str()) {
        Some(Level::Debug)
    } else {
        None
    }
}

impl Level {
    /// The level that a text token names, if it names one.
    pub fn from_token(t: &str) -> (r: Option<Level>)
        ensures
            r == level_of_token(t@),
    {
        let n = t.unicode_len();
        assert(t@.subrange(0, n as int) =~= t@);
        level_of_span(t, 0, n)
    }
}

/// Applies the grammar to `line`: the text left after the message, and the record.
pub fn parse_raw(line: &str) -> (r: Option<(String, LogEntry)>)
    ensures
        match r {
            Some((rest, e)) => parse_raw_spec(line@) == Some((rest@, e@)),
            None => parse_raw_spec(line@) is None,
        },
{
    let n = line.unicode_len();
    if n == 0 || line.get_char(0) != '[' {
        return None;
    }
    let sp = find_char(line, n, ' ', 1);
    if sp >= n {
        return None;
    }
    let cb = find_char(line, n, ']', sp + 1);
    if cb >= n - 1 || line.get_char(cb + 1) != ' ' {
        return None;
    }
    let ls = cb + 2;
    let le = find_letters_end(line, n, ls);
    let level = match level_of_span(line, ls, le) {
        Some(level) => level,
        None => return None,
    };
    if le >= n - 1 || line.get_char(le) != ':' || line.get_char(le + 1) != ' ' {
        return None;
    }
    let ms = le + 2;
    let me = find_terminator(line, n, ms);
    let entry = LogEntry {
        timestamp: line.substring_char(1, cb).to_owned(),
        level: level.as_str().to_owned(),
        message: line.substring_char(ms, me).to_owned(),
    };
    Some((line.substring_char(me, n).to_owned(), entry))
}

/// Parses one whole line; `None` when it does not match the grammar or text follows
/// the message other than a single line terminator.
pub fn parse_strict(line: &str) -> (r: Option<LogEntry>)
    ensures
        match r {
            Some(e) => parse_strict_spec(line@) == Some(e@),
            None => parse_strict_spec(line@) is None,
        },
{
    match parse_raw(line) {
        Some((rest, e)) => {
            let m = rest.as_str().unicode_len();
            let ends = if m == 0 {
                true
            } else if m == 1 {
                rest.as_str().get_char(0) == '\n'
            } else if m == 2 {
                rest.as_str().get_char(0) == '\r' && rest.as_str().get_char(1) == '\n'
            } else {
                false
            };
            proof {
                if m == 1 && rest@[0] == '\n' {
                    assert(rest@ =~= seq!['\n']);
                } else if m == 2 && rest@[0] == '\r' && rest@[1] == '\n' {
                    assert(rest@ =~= seq!['\r', '\n']);
                } else if m == 0 {
                    assert(rest@ =~= Seq::<char>::empty());
                }
            }
            if ends {
                Some(e)
            } else {
                None
            }
        },
        None => None,
    }
}

} // verus!
