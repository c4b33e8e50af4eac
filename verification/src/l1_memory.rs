//! Layout report: size and alignment of the types the monitor uses, one
//! line of explanation each.
use vstd::prelude::*;

pub mod ai_draft;
pub mod fixed;

verus! {

/// One report line: type name, size, alignment and a plain-language note.
#[derive(Debug, Clone, PartialEq)]
pub struct LayoutRow {
    pub name: &'static str,
    pub size: usize,
    pub align: usize,
    pub note: &'static str,
}

} // verus!
