//! A small C math library's interface, as safe functions: wrapping addition,
//! string length in bytes, ASCII upper-casing, and division that reports
//! failure instead of trapping. Strings that cannot cross into C (those with
//! an interior NUL) are refused.
use vstd::prelude::*;
use vstd::utf8::encode_utf8;
use crate::text::{ascii_upper, ascii_uppercase, chars_of, lit};

verus! {

/// Why a string cannot be handed to C.
#[derive(Debug, PartialEq, Eq, Structural)]
pub enum FfiError {
    /// The string holds a NUL, which would end a C string early.
    InteriorNul,
}

impl FfiError {
    /// The error message, as the `Display` form shows it.
    pub fn message(&self) -> (r: String)
        ensures
            r@ == "输入字符串含内嵌 NUL，无法转换为 C 字符串"@,
    {
        lit("输入字符串含内嵌 NUL，无法转换为 C 字符串")
    }
}

/// `s` holds a NUL character.
pub open spec fn has_nul(s: Seq<char>) -> bool {
    exists|i: int| 0 <= i < s.len() && s[i] == '\0'
}

/// Whether `s` holds a NUL character, which no C string can.
pub fn has_interior_nul(s: &str) -> (b: bool)
    ensures
        b == has_nul(s@),
{
    let v = chars_of(s);
    let mut i: usize = 0;
    while i < v.len()
        invariant
            i <= v.len(),
            v@ == s@,
            forall|k: int| 0 <= k < i ==> v@[k] != '\0',
        decreases v.len() - i,
    {
        if v[i] == '\0' {
            return true;
        }
        i += 1;
    }
    false
}

/// Two's-complement addition: the sum wraps around at the bounds of `i32`.
pub fn add(a: i32, b: i32) -> (r: i32)
    ensures
        r == vstd::wrapping::i32_specs::wrapping_add(a, b),
{
    a.wrapping_add(b)
}

/// The length of `s` in bytes, as C's `strlen` measures it on the string's
/// UTF-8 form; refused where `s` holds a NUL.
pub fn c_strlen(s: &str) -> (r: Result<usize, FfiError>)
    ensures
        has_nul(s@) ==> r == Err::<usize, FfiError>(FfiError::InteriorNul),
        !has_nul(s@) ==> r == Ok::<usize, FfiError>(encode_utf8(s@).len() as usize),
{
    if has_interior_nul(s) {
        return Err(FfiError::InteriorNul);
    }
    Ok(s.len())
}

/// `s` with ASCII letters in upper case and every other character kept;
/// refused where `s` holds a NUL.
pub fn to_upper(s: &str) -> (r: Result<String, FfiError>)
    ensures
        has_nul(s@) ==> r == Err::<String, FfiError>(FfiError::InteriorNul),
        !has_nul(s@) ==> (r matches Ok(u) && u@ == ascii_upper(s@)),
{
    if has_interior_nul(s) {
        return Err(FfiError::InteriorNul);
    }
    Ok(ascii_uppercase(s))
}

/// Rust's integer division, which rounds toward zero. (Division in
/// specifications is Euclidean, which rounds toward zero for a non-negative
/// dividend; a negative dividend is divided by its magnitude and negated.)
pub open spec fn div_trunc(a: int, b: int) -> int {
    if a >= 0 {
        a / b
    } else {
        -((-a) / b)
    }
}

/// The quotient rounded toward zero; `None` for a zero divisor and for the
/// one quotient that does not fit, `i32::MIN / -1`.
pub fn checked_div(a: i32, b: i32) -> (r: Option<i32>)
    ensures
        b == 0 || (a == i32::MIN && b == -1) ==> r is None,
        !(b == 0 || (a == i32::MIN && b == -1)) ==> r == Some(div_trunc(a as int, b as int) as i32),
{
    if b == 0 || (a == i32::MIN && b == -1) {
        return None;
    }
    Some(a / b)
}

} // verus!
