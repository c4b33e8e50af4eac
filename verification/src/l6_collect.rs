//! Parallel collection of log lines. The threads live in the application;
//! the parsing each of them does is here.
use vstd::prelude::*;
use crate::text::{chars_of, split_once_at, string_from, trim, trim_owned, parse_unsigned, split_once};

verus! {

#[derive(Debug, Clone, PartialEq, Eq, PartialOrd, Ord)]
pub struct Event {
    pub pid: u32,
    pub message: String,
}

/// One log source: raw lines of the form `pid:message`.
pub struct Source {
    pub id: u32,
    pub raw: Vec<String>,
}

/// `s.trim().parse::<u32>().unwrap_or(0)`.
pub open spec fn pid_or_zero(s: Seq<char>) -> u32 {
    match parse_unsigned(trim(s), u32::MAX as nat) {
        Some(v) => v as u32,
        None => 0,
    }
}

/// The pid of a line: the part before the first `:`, or 0 without one.
pub open spec fn line_pid(line: Seq<char>) -> u32 {
    match split_once(line, ':') {
        Some((p, _)) => pid_or_zero(p),
        None => 0,
    }
}

/// The message of a line: the trimmed part after the first `:`, or the
/// whole trimmed line without one.
pub open spec fn line_message(line: Seq<char>) -> Seq<char> {
    match split_once(line, ':') {
        Some((_, m)) => trim(m),
        None => trim(line),
    }
}

/// `s.trim().parse::<u32>().unwrap_or(0)` on `v[from..to]`.
fn pid_in(v: &Vec<char>, from: usize, to: usize) -> (p: u32)
    requires
        from <= to <= v.len(),
    ensures
        p == pid_or_zero(v@.subrange(from as int, to as int)),
{
    let part = string_from(v, from, to);
    let t = crate::text::trim_str(part.as_str());
    match crate::text::parse_u32(t) {
        Some(x) => x,
        None => 0,
    }
}

/// Parses one raw line.
pub fn parse(line: &str) -> (e: Event)
    ensures
        e.pid == line_pid(line@),
        e.message@ == line_message(line@),
{
    let v = chars_of(line);
    match split_once_at(&v, ':') {
        Some(i) => {
            let pid = pid_in(&v, 0, i);
            let rest = string_from(&v, i + 1, v.len());
            let message = trim_owned(rest.as_str());
            Event { pid, message }
        },
        None => {
            let message = trim_owned(line);
            Event { pid: 0, message }
        },
    }
}

/// The events of one source's lines, in order.
pub fn parse_source(source: &Source) -> (out: Vec<Event>)
    ensures
        out.len() == source.raw.len(),
        forall|i: int|
            0 <= i < out.len() ==> (#[trigger] out@[i]).pid == line_pid(source.raw@[i]@)
                && out@[i].message@ == line_message(source.raw@[i]@),
{
    let mut out: Vec<Event> = Vec::new();
    let mut i: usize = 0;
    while i < source.raw.len()
        invariant
            i <= source.raw.len(),
            out.len() == i,
            forall|k: int|
                0 <= k < i ==> (#[trigger] out@[k]).pid == line_pid(source.raw@[k]@)
                    && out@[k].message@ == line_message(source.raw@[k]@),
        decreases source.raw.len() - i,
    {
        out.push(parse(source.raw[i].as_str()));
        i += 1;
    }
    out
}

} // verus!
