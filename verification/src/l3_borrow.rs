//! Event filters: a first version that takes ownership and copies, and a
//! borrowing version that returns references into its input.
use vstd::prelude::*;
use crate::text::contains_sub;

pub mod ai_draft;
pub mod clean;

verus! {

/// One event in its simplest form.
#[derive(Debug, Clone, PartialEq)]
pub struct Event {
    pub pid: u32,
    pub message: String,
}

impl Event {
    pub fn new(pid: u32, message: &str) -> (e: Self)
        ensures
            e.pid == pid,
            e.message@ == message@,
    {
        Event { pid, message: message.to_owned() }
    }
}

/// The events of `s` whose pid is `pid`, in order.
pub open spec fn with_pid(s: Seq<Event>, pid: u32) -> Seq<Event>
    decreases s.len(),
{
    if s.len() == 0 {
        seq![]
    } else if s.last().pid == pid {
        with_pid(s.drop_last(), pid).push(s.last())
    } else {
        with_pid(s.drop_last(), pid)
    }
}

/// The messages of the events of `s` that contain `needle`, in order.
pub open spec fn messages_with(s: Seq<Event>, needle: Seq<char>) -> Seq<Seq<char>>
    decreases s.len(),
{
    if s.len() == 0 {
        seq![]
    } else if contains_sub(s.last().message@, needle) {
        messages_with(s.drop_last(), needle).push(s.last().message@)
    } else {
        messages_with(s.drop_last(), needle)
    }
}

/// The number of events of `s` whose pid is `pid`.
pub open spec fn count_pid(s: Seq<Event>, pid: u32) -> nat {
    with_pid(s, pid).len()
}

} // verus!
