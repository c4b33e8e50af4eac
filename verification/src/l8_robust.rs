//! Robust line parsing: structured errors, bad lines skipped but counted,
//! and a health check for the application layer.
use vstd::prelude::*;
use crate::text::{chars_of, split_once_at, string_from, trim, trim_owned, is_blank, parse_unsigned, parse_u32, split_once, push_dec, dec, all_ws};

verus! {

/// Why a line could not be parsed.
#[derive(Debug, PartialEq, Eq)]
pub enum ParseError {
    /// The line is empty or only white space.
    Empty,
    /// The line has no `:`; carries the line.
    NoDelimiter(String),
    /// The part before `:` is not a number; carries that part, trimmed.
    BadPid(String),
}

#[derive(Debug, Clone, PartialEq, Eq)]
pub struct Event {
    pub pid: u32,
    pub message: String,
}

/// What `parse_line` gives for a line, over views: `Ok((pid, message))` or
/// the error with the text it carries.
pub enum LineOutcome {
    Parsed(u32, Seq<char>),
    Empty,
    NoDelimiter(Seq<char>),
    BadPid(Seq<char>),
}

pub open spec fn line_outcome(line: Seq<char>) -> LineOutcome {
    if all_ws(line) {
        LineOutcome::Empty
    } else {
        match split_once(line, ':') {
            None => LineOutcome::NoDelimiter(line),
            Some((p, m)) => match parse_unsigned(trim(p), u32::MAX as nat) {
                Some(v) => LineOutcome::Parsed(v as u32, trim(m)),
                None => LineOutcome::BadPid(trim(p)),
            },
        }
    }
}

pub open spec fn matches_outcome(r: Result<Event, ParseError>, o: LineOutcome) -> bool {
    match (r, o) {
        (Ok(e), LineOutcome::Parsed(pid, msg)) => e.pid == pid && e.message@ == msg,
        (Err(ParseError::Empty), LineOutcome::Empty) => true,
        (Err(ParseError::NoDelimiter(s)), LineOutcome::NoDelimiter(t)) => s@ == t,
        (Err(ParseError::BadPid(s)), LineOutcome::BadPid(t)) => s@ == t,
        _ => false,
    }
}

/// Parses `pid:message`; each way of failing has its own error.
pub fn parse_line(line: &str) -> (r: Result<Event, ParseError>)
    ensures
        matches_outcome(r, line_outcome(line@)),
{
    if is_blank(line) {
        return Err(ParseError::Empty);
    }
    let v = chars_of(line);
    match split_once_at(&v, ':') {
        None => Err(ParseError::NoDelimiter(line.to_owned())),
        Some(i) => {
            let pid_part = string_from(&v, 0, i);
            let pid_text = trim_owned(pid_part.as_str());
            match parse_u32(pid_text.as_str()) {
                Some(pid) => {
                    let rest = string_from(&v, i + 1, v.len());
                    let message = trim_owned(rest.as_str());
                    Ok(Event { pid, message })
                },
                None => Err(ParseError::BadPid(pid_text)),
            }
        },
    }
}

/// Parsed events and the number of lines that were skipped.
#[derive(Debug, PartialEq, Eq)]
pub struct CollectResult {
    pub events: Vec<Event>,
    pub skipped: usize,
}

impl Default for CollectResult {
    fn default() -> (r: Self)
        ensures
            r.events@.len() == 0,
            r.skipped == 0,
    {
        CollectResult { events: Vec::new(), skipped: 0 }
    }
}

/// The outcomes of the good lines among `lines`, in order.
pub open spec fn good_lines(lines: Seq<&str>) -> Seq<(u32, Seq<char>)>
    decreases lines.len(),
{
    if lines.len() == 0 {
        seq![]
    } else {
        match line_outcome(lines.last()@) {
            LineOutcome::Parsed(pid, msg) => good_lines(lines.drop_last()).push((pid, msg)),
            _ => good_lines(lines.drop_last()),
        }
    }
}

/// Parses every line; good ones become events in order, bad ones are counted.
pub fn collect_valid(lines: &[&str]) -> (r: CollectResult)
    ensures
        r.events@.len() == good_lines(lines@).len(),
        forall|k: int|
            0 <= k < r.events@.len() ==> (#[trigger] r.events@[k]).pid == good_lines(lines@)[k].0
                && r.events@[k].message@ == good_lines(lines@)[k].1,
        r.events@.len() + r.skipped == lines.len(),
{
    let mut events: Vec<Event> = Vec::new();
    let mut skipped: usize = 0;
    let mut i: usize = 0;
    while i < lines.len()
        invariant
            i <= lines.len(),
            events@.len() == good_lines(lines@.subrange(0, i as int)).len(),
            forall|k: int|
                0 <= k < events@.len() ==> (#[trigger] events@[k]).pid == good_lines(
                    lines@.subrange(0, i as int),
                )[k].0 && events@[k].message@ == good_lines(lines@.subrange(0, i as int))[k].1,
            events@.len() + skipped == i,
        decreases lines.len() - i,
    {
        let ghost prev = lines@.subrange(0, i as int);
        let r = parse_line(lines[i]);
        proof {
            let t = lines@.subrange(0, i + 1);
            assert(t.drop_last() =~= prev);
            assert(t.last() == lines@[i as int]);
        }
        match r {
            Ok(e) => {
                events.push(e);
            },
            Err(_) => {
                skipped += 1;
            },
        }
        i += 1;
    }
    assert(lines@.subrange(0, lines.len() as int) =~= lines@);
    CollectResult { events, skipped }
}

/// The text of the health-check failure.
pub open spec fn too_many_skips_text(skipped: nat, max_skip: nat) -> Seq<char> {
    "跳过 "@ + dec(skipped) + " 行，超过阈值 "@ + dec(max_skip)
}

pub fn too_many_skips_message(skipped: usize, max_skip: usize) -> (s: String)
    ensures
        s@ == too_many_skips_text(skipped as nat, max_skip as nat),
{
    let mut s = String::new();
    s.push_str("跳过 ");
    push_dec(&mut s, skipped as u64);
    s.push_str(" 行，超过阈值 ");
    push_dec(&mut s, max_skip as u64);
    assert(s@ =~= too_many_skips_text(skipped as nat, max_skip as nat));
    s
}

#[verifier::external_type_specification]
#[verifier::external_body]
pub struct ExAnyhowError(anyhow::Error);

/// `anyhow::Error::msg`: an error whose message is `message`.
#[verifier::external_body]
fn anyhow_message(message: String) -> anyhow::Error {
    anyhow::Error::msg(message)
}

/// Fails when more lines were skipped than `max_skip` allows.
pub fn require_healthy(result: &CollectResult, max_skip: usize) -> (r: Result<(), anyhow::Error>)
    ensures
        r is Ok <==> result.skipped <= max_skip,
{
    if result.skipped <= max_skip {
        Ok(())
    } else {
        Err(anyhow_message(too_many_skips_message(result.skipped, max_skip)))
    }
}

} // verus!
