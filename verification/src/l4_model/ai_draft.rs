//! The loose first model: a string tag and optional fields, which admits
//! contradictory events.
use vstd::prelude::*;

verus! {

#[derive(Debug, Clone, PartialEq)]
pub struct Event {
    pub kind: String,
    pub pid: Option<u32>,
    pub name: Option<String>,
    pub code: Option<i32>,
    pub resource: Option<String>,
    pub percent: Option<u8>,
}

} // verus!
