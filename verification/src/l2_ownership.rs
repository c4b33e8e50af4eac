//! The event buffer: events are moved in, counted by borrowing, and handed
//! on all at once without copying.
use vstd::prelude::*;

verus! {

/// One event in its simplest form.
#[derive(Debug, Clone, PartialEq)]
pub struct Event {
    pub pid: u32,
    pub message: String,
}

impl Event {
    pub fn new(pid: u32, message: &str) -> (e: Self)
        ensures
            e.pid == pid,
            e.message@ == message@,
    {
        Event { pid, message: message.to_owned() }
    }
}

/// Collects events until they are handed on downstream.
pub struct EventBuffer {
    pub events: Vec<Event>,
}

impl View for EventBuffer {
    type V = Seq<Event>;

    open spec fn view(&self) -> Seq<Event> {
        self.events@
    }
}

impl Default for EventBuffer {
    fn default() -> (b: Self)
        ensures
            b@ == Seq::<Event>::empty(),
    {
        EventBuffer { events: Vec::new() }
    }
}

impl EventBuffer {
    pub fn new() -> (b: Self)
        ensures
            b@ == Seq::<Event>::empty(),
    {
        EventBuffer { events: Vec::new() }
    }

    /// Moves `event` into the buffer, after those already there.
    pub fn push(&mut self, event: Event)
        ensures
            final(self)@ == old(self)@.push(event),
    {
        self.events.push(event);
    }

    /// Number of buffered events.
    pub fn len(&self) -> (n: usize)
        ensures
            n == self@.len(),
    {
        self.events.len()
    }

    pub fn is_empty(&self) -> (b: bool)
        ensures
            b == (self@.len() == 0),
    {
        self.events.len() == 0
    }

    /// Hands every buffered event over, oldest first, and leaves the buffer
    /// empty; the returned vector is the buffer's own storage.
    pub fn take_all(&mut self) -> (taken: Vec<Event>)
        ensures
            taken@ == old(self)@,
            final(self)@ == Seq::<Event>::empty(),
    {
        let mut out: Vec<Event> = Vec::new();
        std::mem::swap(&mut out, &mut self.events);
        out
    }
}

} // verus!
