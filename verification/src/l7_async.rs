//! Periodic sampling. The timers, tasks and channels live in the
//! application; the value of one sample is computed here.
use vstd::prelude::*;

verus! {

#[derive(Debug, Clone, Copy, PartialEq, Eq, Structural)]
pub struct Event {
    pub source_id: u32,
    pub value: u32,
}

/// The event one sample of `source_id` yields: its value is ten times the id.
pub fn sample_event(source_id: u32) -> (e: Event)
    requires
        source_id * 10 <= u32::MAX,
    ensures
        e.source_id == source_id,
        e.value == source_id * 10,
{
    Event { source_id, value: source_id * 10 }
}

/// The events of one round, one per source, in the order of the ids.
pub fn round_events(ids: &[u32]) -> (v: Vec<Event>)
    requires
        forall|i: int| 0 <= i < ids.len() ==> ids@[i] * 10 <= u32::MAX,
    ensures
        v.len() == ids.len(),
        forall|i: int| 0 <= i < ids.len() ==> (#[trigger] v@[i]).source_id == ids@[i] && v@[i].value == ids@[i] * 10,
{
    let mut v: Vec<Event> = Vec::new();
    let mut i: usize = 0;
    while i < ids.len()
        invariant
            i <= ids.len(),
            forall|k: int| 0 <= k < ids.len() ==> ids@[k] * 10 <= u32::MAX,
            v.len() == i,
            forall|k: int| 0 <= k < i ==> (#[trigger] v@[k]).source_id == ids@[k] && v@[k].value == ids@[k] * 10,
        decreases ids.len() - i,
    {
        v.push(sample_event(ids[i]));
        i += 1;
    }
    v
}

/// What wakes the sampling loop.
#[derive(Debug, Clone, Copy, PartialEq, Eq, Structural)]
pub enum SamplerEvent {
    /// The interval elapsed.
    Tick,
    /// The shutdown signal changed.
    ShutdownChanged,
}

/// What the sampling loop does next.
#[derive(Debug, Clone, Copy, PartialEq, Eq, Structural)]
pub enum SamplerAction {
    /// Sample every source once and send the events.
    SampleRound,
    /// Stop and report the rounds completed.
    Stop,
}

/// The decision of the sampling loop: a shutdown already signalled stops it
/// before anything else; otherwise a tick starts a round and a change of the
/// shutdown signal stops it.
pub fn sampler_action(shutdown_signalled: bool, event: SamplerEvent) -> (a: SamplerAction)
    ensures
        shutdown_signalled ==> a == SamplerAction::Stop,
        !shutdown_signalled ==> a == match event {
            SamplerEvent::Tick => SamplerAction::SampleRound,
            SamplerEvent::ShutdownChanged => SamplerAction::Stop,
        },
{
    if shutdown_signalled {
        return SamplerAction::Stop;
    }
    match event {
        SamplerEvent::Tick => SamplerAction::SampleRound,
        SamplerEvent::ShutdownChanged => SamplerAction::Stop,
    }
}

} // verus!
