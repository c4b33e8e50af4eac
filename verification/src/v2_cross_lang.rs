//! A to-do list written once in Rust, with a thin layer shaped for foreign
//! bindings on top of it.
use vstd::prelude::*;

pub mod domain;
pub mod ffi;

verus! {
} // verus!
