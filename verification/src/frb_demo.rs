//! The Rust side of a Flutter bridge: a greeting and an addition.
use vstd::prelude::*;
use crate::text::lit;

verus! {

/// `Hello, ` and the name, with an exclamation mark.
pub fn greet(name: String) -> (r: String)
    ensures
        r@ == "Hello, "@ + name@ + "!"@,
{
    let mut r = lit("Hello, ");
    r.push_str(name.as_str());
    r.push_str("!");
    r
}

/// The sum of two integers.
pub fn add(a: i32, b: i32) -> (r: i32)
    requires
        i32::MIN <= a + b <= i32::MAX,
    ensures
        r == a + b,
{
    a + b
}

} // verus!
