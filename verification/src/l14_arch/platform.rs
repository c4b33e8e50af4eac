//! The platform layer; here, the fake collector that lets the core run on
//! any platform.
use vstd::prelude::*;
use super::winmon_core::{Collector, ProcessInfo, duplicate_all};

verus! {

/// A collector that returns a fixed list.
pub struct FakeCollector(pub Vec<ProcessInfo>);

impl Collector for FakeCollector {
    fn collect(&self) -> (r: Vec<ProcessInfo>)
        ensures
            r@ == self.0@,
    {
        duplicate_all(self.0.as_slice())
    }
}

} // verus!
