//! A platform-independent core and a platform layer that depends on it.
use vstd::prelude::*;

pub mod winmon_core;
pub mod platform;

verus! {
} // verus!
