//! What holds of the grammar on every line, and of batches of lines.
use vstd::prelude::*;

use crate::batch::parsed_lines;
use crate::entry::{log_line, LogEntryView};
use crate::grammar::{
    is_letter, is_line_end, is_not_letter, level_of_token, letters_end, parse_raw_spec,
    parse_strict_spec,
};
use crate::level::Level;
use crate::scan::{
    find_char_from, find_terminator_from, is_char, is_terminator, lemma_first_where,
    lemma_first_where_at, terminator_at,
};

verus! {

/// A date holds no space, a time no `]`, and a message no line feed.
pub open spec fn well_formed_parts(date: Seq<char>, time: Seq<char>, message: Seq<char>) -> bool {
    &&& forall|j: int| 0 <= j < date.len() ==> date[j] != ' '
    &&& forall|j: int| 0 <= j < time.len() ==> time[j] != ']'
    &&& forall|j: int| 0 <= j < message.len() ==> message[j] != '\n'
}

proof fn lemma_tokens_are_letters(level: Level)
    ensures
        forall|j: int| 0 <= j < level.spec_token().len() ==> is_letter(#[trigger] level.spec_token()[j]),
        level.spec_token().len() > 0,
        level_of_token(level.spec_token()) == Some(level),
{
    match level {
        Level::Info => {},
        Level::Warn => {
            assert(Level::Warn.spec_token()[0] != Level::Info.spec_token()[0]);
        },
        Level::Error => {
            assert(Level::Error.spec_token()[0] != Level::Info.spec_token()[0]);
            assert(Level::Error.spec_token()[0] != Level::Warn.spec_token()[0]);
        },
        Level::Debug => {
            assert(Level::Debug.spec_token()[0] != Level::Info.spec_token()[0]);
            assert(Level::Debug.spec_token()[0] != Level::Warn.spec_token()[0]);
            assert(Level::Debug.spec_token()[0] != Level::Error.spec_token()[0]);
        },
    }
}

/// A well-formed line followed by nothing or by one line terminator parses to its parts.
proof fn lemma_parse_parts(
    date: Seq<char>,
    time: Seq<char>,
    level: Level,
    message: Seq<char>,
    end: Seq<char>,
)
    requires
        well_formed_parts(date, time, message),
        is_line_end(end),
        end == seq!['\n'] && message.len() > 0 ==> message.last() != '\r',
    ensures
        parse_strict_spec(log_line(date + seq![' '] + time, level.spec_token(), message) + end)
            == Some(
            LogEntryView {
                timestamp: date + seq![' '] + time,
                level: level.spec_token(),
                message: message,
            },
        ),
{
    let tok = level.spec_token();
    let ts = date + seq![' '] + time;
    let s = log_line(ts, tok, message) + end;
    let n = s.len() as int;
    let sp: int = 1 + date.len() as int;
    let cb: int = sp + 1 + time.len() as int;
    let ls = cb + 2;
    let le: int = ls + tok.len() as int;
    let ms = le + 2;
    let me: int = ms + message.len() as int;
    lemma_tokens_are_letters(level);
    assert(n == me + end.len());
    assert(s[0] == '[');
    assert forall|j: int| 0 <= j < date.len() implies s[1 + j] == date[j] by {}
    assert(s[sp] == ' ');
    assert forall|j: int| 0 <= j < time.len() implies s[sp + 1 + j] == time[j] by {}
    assert(s[cb] == ']');
    assert(s[cb + 1] == ' ');
    assert forall|j: int| 0 <= j < tok.len() implies s[ls + j] == tok[j] by {}
    assert(s[le] == ':');
    assert(s[le + 1] == ' ');
    assert forall|j: int| 0 <= j < message.len() implies s[ms + j] == message[j] by {}
    assert forall|j: int| 0 <= j < end.len() implies s[me + j] == end[j] by {}

    assert forall|j: int| 1 <= j < sp implies !#[trigger] is_char(s, ' ')(j) by {
        assert(s[1 + (j - 1)] == date[j - 1]);
    }
    lemma_first_where_at(is_char(s, ' '), 1, n, sp);
    assert(find_char_from(s, ' ', 1) == sp);

    assert forall|j: int| sp + 1 <= j < cb implies !#[trigger] is_char(s, ']')(j) by {
        assert(s[sp + 1 + (j - sp - 1)] == time[j - sp - 1]);
    }
    lemma_first_where_at(is_char(s, ']'), sp + 1, n, cb);
    assert(find_char_from(s, ']', sp + 1) == cb);

    assert forall|j: int| ls <= j < le implies !#[trigger] is_not_letter(s)(j) by {
        assert(s[ls + (j - ls)] == tok[j - ls]);
    }
    lemma_first_where_at(is_not_letter(s), ls, n, le);
    assert(letters_end(s, ls) == le);
    assert(s.subrange(ls, le) =~= tok);

    assert forall|j: int| ms <= j < me implies !#[trigger] is_terminator(s)(j) by {
        assert(s[ms + (j - ms)] == message[j - ms]);
        if j + 1 < me {
            assert(s[ms + (j + 1 - ms)] == message[j + 1 - ms]);
        } else if end.len() > 0 {
            assert(s[me + 0] == end[0]);
            if end == seq!['\n'] {
                assert(message.last() == message[j - ms]);
            }
        }
    }
    if end.len() > 0 {
        assert(s[me + 0] == end[0]);
        if end.len() == 2 {
            assert(s[me + 1] == end[1]);
        }
        assert(terminator_at(s, me));
    }
    lemma_first_where_at(is_terminator(s), ms, n, me);
    assert(find_terminator_from(s, ms) == me);

    assert(s.subrange(1, cb) =~= ts);
    assert(s.subrange(ms, me) =~= message);
    assert(s.subrange(me, n) =~= end);
}

/// Every well-formed line `"[" date " " time "] " level ": " message` parses to the
/// record whose timestamp is the date, a space and the time, with that level and
/// that message.
pub proof fn well_formed_line_parses(date: Seq<char>, time: Seq<char>, level: Level, message: Seq<char>)
    requires
        well_formed_parts(date, time, message),
    ensures
        parse_strict_spec(log_line(date + seq![' '] + time, level.spec_token(), message)) == Some(
            LogEntryView {
                timestamp: date + seq![' '] + time,
                level: level.spec_token(),
                message: message,
            },
        ),
{
    let line = log_line(date + seq![' '] + time, level.spec_token(), message);
    lemma_parse_parts(date, time, level, message, Seq::empty());
    assert(line + Seq::<char>::empty() =~= line);
}

/// A well-formed line parses to the same record with or without a trailing line feed.
pub proof fn trailing_newline_kept_out(date: Seq<char>, time: Seq<char>, level: Level, message: Seq<char>)
    requires
        well_formed_parts(date, time, message),
        message.len() > 0 ==> message.last() != '\r',
    ensures
        parse_strict_spec(log_line(date + seq![' '] + time, level.spec_token(), message) + seq!['\n'])
            == parse_strict_spec(log_line(date + seq![' '] + time, level.spec_token(), message)),
        parse_strict_spec(log_line(date + seq![' '] + time, level.spec_token(), message)) is Some,
{
    well_formed_line_parses(date, time, level, message);
    lemma_parse_parts(date, time, level, message, seq!['\n']);
}

/// A record that a line parses to, written back as a line, parses to the same record.
pub proof fn parsed_record_round_trips(line: Seq<char>)
    requires
        parse_strict_spec(line) is Some,
    ensures
        parse_strict_spec(
            log_line(
                parse_strict_spec(line)->0.timestamp,
                parse_strict_spec(line)->0.level,
                parse_strict_spec(line)->0.message,
            ),
        ) == parse_strict_spec(line),
{
    let s = line;
    let n = s.len() as int;
    let e = parse_strict_spec(s)->0;
    let sp = find_char_from(s, ' ', 1);
    let cb = find_char_from(s, ']', sp + 1);
    let ls = cb + 2;
    let le = letters_end(s, ls);
    assert(parse_raw_spec(s) is Some);
    assert(n > 0 && sp < n && cb + 1 < n && le + 1 < n);
    assert(level_of_token(s.subrange(ls, le)) is Some);
    let level = level_of_token(s.subrange(ls, le))->0;
    let ms = le + 2;
    let me = find_terminator_from(s, ms);
    lemma_first_where(is_char(s, ' '), 1, n);
    lemma_first_where(is_char(s, ']'), sp + 1, n);
    lemma_first_where(is_not_letter(s), ls, n);
    lemma_first_where(is_terminator(s), ms, n);
    let date = s.subrange(1, sp);
    let time = s.subrange(sp + 1, cb);
    let message = s.subrange(ms, me);
    assert forall|j: int| 0 <= j < date.len() implies date[j] != ' ' by {
        assert(!is_char(s, ' ')(1 + j));
    }
    assert forall|j: int| 0 <= j < time.len() implies time[j] != ']' by {
        assert(!is_char(s, ']')(sp + 1 + j));
    }
    assert(ms <= me <= n);
    assert forall|j: int| 0 <= j < message.len() implies message[j] != '\n' by {
        assert(!is_terminator(s)(ms + j));
    }
    assert(e.timestamp =~= date + seq![' '] + time);
    assert(e.level == level.spec_token());
    assert(e.message == message);
    well_formed_line_parses(date, time, level, message);
}

/// Parsing a batch keeps exactly the lines that parse, in their order, each as its record.
pub proof fn batch_keeps_parsed_lines_in_order(lines: Seq<Seq<char>>)
    ensures
        parsed_lines(lines) == lines.filter(|l: Seq<char>| parse_strict_spec(l) is Some).map_values(
            |l: Seq<char>| parse_strict_spec(l)->0,
        ),
        parsed_lines(lines).len() == lines.filter(|l: Seq<char>| parse_strict_spec(l) is Some).len(),
    decreases lines.len(),
{
    let keep = |l: Seq<char>| parse_strict_spec(l) is Some;
    let record = |l: Seq<char>| parse_strict_spec(l)->0;
    reveal(Seq::filter);
    if lines.len() > 0 {
        batch_keeps_parsed_lines_in_order(lines.drop_last());
        let before = lines.drop_last().filter(keep);
        if keep(lines.last()) {
            assert(lines.filter(keep) == before.push(lines.last()));
            assert(before.push(lines.last()).map_values(record) =~= before.map_values(record).push(
                record(lines.last()),
            ));
        }
    } else {
        assert(lines.filter(keep) =~= Seq::<Seq<char>>::empty());
        assert(lines.filter(keep).map_values(record) =~= Seq::<LogEntryView>::empty());
    }
}

} // verus!
