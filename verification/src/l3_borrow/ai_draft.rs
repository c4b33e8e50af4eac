//! The owning first draft: each function consumes its input.
use vstd::prelude::*;
use super::{Event, with_pid, messages_with, count_pid};
use crate::text::str_contains;

verus! {

/// The events with the given pid, moved out of `events`.
pub fn filter_by_pid(events: Vec<Event>, pid: u32) -> (r: Vec<Event>)
    ensures
        r@ == with_pid(events@, pid),
{
    let mut events = events;
    let ghost all = events@;
    let mut kept_rev: Vec<Event> = Vec::new();
    // Taken from the back so that each event is moved, not copied.
    while events.len() > 0
        invariant
            with_pid(all, pid) == with_pid(events@, pid) + kept_rev@.reverse(),
        decreases events.len(),
    {
        let ghost before = events@;
        let e = events.pop().unwrap();
        proof {
            assert(before.drop_last() =~= events@);
        }
        if e.pid == pid {
            let ghost kr = kept_rev@;
            kept_rev.push(e);
            assert(kept_rev@.reverse() =~= seq![e] + kr.reverse());
            assert(with_pid(events@, pid).push(e) + kr.reverse() =~= with_pid(events@, pid) + kept_rev@.reverse());
        }
    }
    let mut out: Vec<Event> = Vec::new();
    assert(with_pid(events@, pid) =~= Seq::<Event>::empty());
    assert(Seq::<Event>::empty() + kept_rev@.reverse() =~= kept_rev@.reverse());
    while kept_rev.len() > 0
        invariant
            with_pid(all, pid) == out@ + kept_rev@.reverse(),
        decreases kept_rev.len(),
    {
        let ghost kr = kept_rev@;
        let e = kept_rev.pop().unwrap();
        assert(kr.reverse() =~= seq![e] + kept_rev@.reverse()) by {
            assert(kr =~= kept_rev@.push(e));
        }
        let ghost o = out@;
        out.push(e);
        assert(o + kr.reverse() =~= out@ + kept_rev@.reverse());
    }
    assert(out@ + kept_rev@.reverse() =~= out@);
    out
}

/// The messages that contain `needle`, moved out of `events`.
pub fn messages_containing(events: Vec<Event>, needle: String) -> (r: Vec<String>)
    ensures
        r@.map_values(|m: String| m@) == messages_with(events@, needle@),
{
    let mut out: Vec<String> = Vec::new();
    let mut i: usize = 0;
    while i < events.len()
        invariant
            i <= events.len(),
            out@.map_values(|m: String| m@) == messages_with(events@.subrange(0, i as int), needle@),
        decreases events.len() - i,
    {
        let hit = str_contains(events[i].message.as_str(), needle.as_str());
        proof {
            let t = events@.subrange(0, i + 1);
            assert(t.drop_last() =~= events@.subrange(0, i as int));
        }
        if hit {
            let m = events[i].message.clone();
            out.push(m);
            assert(out@.map_values(|m: String| m@) =~= messages_with(events@.subrange(0, i as int), needle@).push(events@[i as int].message@));
        }
        i += 1;
    }
    assert(events@.subrange(0, events.len() as int) =~= events@);
    out
}

/// The number of events with the given pid; `events` is consumed.
pub fn count_by_pid(events: Vec<Event>, pid: u32) -> (n: usize)
    ensures
        n == count_pid(events@, pid),
{
    super::clean::count_by_pid(events.as_slice(), pid)
}

} // verus!
