//! The borrowing version: nothing is copied, results point into the input.
use vstd::prelude::*;
use super::{Event, with_pid, messages_with, count_pid};
use crate::text::str_contains;

verus! {

/// The events with the given pid, as references into `events`.
pub fn filter_by_pid(events: &[Event], pid: u32) -> (r: Vec<&Event>)
    ensures
        r@.map_values(|e: &Event| *e) == with_pid(events@, pid),
{
    let mut out: Vec<&Event> = Vec::new();
    let mut i: usize = 0;
    while i < events.len()
        invariant
            i <= events.len(),
            out@.map_values(|e: &Event| *e) == with_pid(events@.subrange(0, i as int), pid),
        decreases events.len() - i,
    {
        let e = &events[i];
        proof {
            let t = events@.subrange(0, i + 1);
            assert(t.drop_last() =~= events@.subrange(0, i as int));
        }
        if e.pid == pid {
            out.push(e);
            assert(out@.map_values(|e: &Event| *e) =~= with_pid(events@.subrange(0, i as int), pid).push(*e));
        }
        i += 1;
    }
    assert(events@.subrange(0, events.len() as int) =~= events@);
    out
}

/// The messages that contain `needle`, as slices of the events' own text.
pub fn messages_containing<'a>(events: &'a [Event], needle: &str) -> (r: Vec<&'a str>)
    ensures
        r@.map_values(|m: &str| m@) == messages_with(events@, needle@),
{
    let mut out: Vec<&'a str> = Vec::new();
    let mut i: usize = 0;
    while i < events.len()
        invariant
            i <= events.len(),
            out@.map_values(|m: &str| m@) == messages_with(events@.subrange(0, i as int), needle@),
        decreases events.len() - i,
    {
        let m: &'a str = events[i].message.as_str();
        let hit = str_contains(m, needle);
        proof {
            let t = events@.subrange(0, i + 1);
            assert(t.drop_last() =~= events@.subrange(0, i as int));
        }
        if hit {
            out.push(m);
            assert(out@.map_values(|m: &str| m@) =~= messages_with(events@.subrange(0, i as int), needle@).push(events@[i as int].message@));
        }
        i += 1;
    }
    assert(events@.subrange(0, events.len() as int) =~= events@);
    out
}

/// The number of events with the given pid.
pub fn count_by_pid(events: &[Event], pid: u32) -> (n: usize)
    ensures
        n == count_pid(events@, pid),
{
    let mut n: usize = 0;
    let mut i: usize = 0;
    while i < events.len()
        invariant
            i <= events.len(),
            n == count_pid(events@.subrange(0, i as int), pid),
            n <= i,
        decreases events.len() - i,
    {
        proof {
            let t = events@.subrange(0, i + 1);
            assert(t.drop_last() =~= events@.subrange(0, i as int));
        }
        if events[i].pid == pid {
            n += 1;
        }
        i += 1;
    }
    assert(events@.subrange(0, events.len() as int) =~= events@);
    n
}

} // verus!
