//! The private supertrait that closes the set of connection states.
use vstd::prelude::*;

verus! {

/// Implemented only inside this crate, so no other crate can add a state.
pub trait Sealed {
}

} // verus!
