//! The checksum library that events pass before they are stored: a byte sum
//! modulo 256, and its description.
use vstd::prelude::*;
use crate::text::{lit, dec, push_dec};

verus! {

/// The sum of the bytes, as an integer.
pub open spec fn byte_sum(s: Seq<u8>) -> nat
    decreases s.len(),
{
    if s.len() == 0 {
        0
    } else {
        byte_sum(s.drop_last()) + s.last() as nat
    }
}

/// The checksum of the data: the sum of its bytes modulo 256. An empty
/// slice sums to zero.
pub fn checksum(data: &[u8]) -> (c: u8)
    ensures
        c == byte_sum(data@) % 256,
{
    let mut c: u8 = 0;
    let mut i: usize = 0;
    while i < data.len()
        invariant
            i <= data.len(),
            c == byte_sum(data@.take(i as int)) % 256,
        decreases data.len() - i,
    {
        proof {
            assert(data@.take(i + 1).drop_last() =~= data@.take(i as int));
            vstd::arithmetic::div_mod::lemma_add_mod_noop(
                byte_sum(data@.take(i as int)) as int,
                data@[i as int] as int,
                256,
            );
        }
        c = c.wrapping_add(data[i]);
        i += 1;
    }
    assert(data@.take(data.len() as int) =~= data@);
    c
}

/// The description of a checksum: `checksum=` and its decimal value.
pub fn describe(sum: u8) -> (r: String)
    ensures
        r@ == "checksum="@ + dec(sum as nat),
{
    let mut r = lit("checksum=");
    push_dec(&mut r, sum as u64);
    r
}

} // verus!
