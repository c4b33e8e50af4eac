//! Memory information and handle ownership, the platform-independent part
//! of the Win32 lesson.
use vstd::prelude::*;
use std::rc::Rc;
use std::cell::Cell;
use crate::text::{dec, push_dec};

verus! {

/// Memory figures as the platform reports them.
#[derive(Debug, Clone, Copy, PartialEq, Eq)]
pub struct MemoryInfo {
    pub total_bytes: u64,
    pub avail_bytes: u64,
}

impl MemoryInfo {
    /// Percentage of memory in use, rounded down; 0 when the total is 0.
    pub fn used_percent(&self) -> (p: u8)
        requires
            self.total_bytes == 0 || self.avail_bytes <= self.total_bytes,
        ensures
            self.total_bytes == 0 ==> p == 0,
            self.total_bytes > 0 ==> p as int == (self.total_bytes - self.avail_bytes) * 100
                / (self.total_bytes as int),
    {
        if self.total_bytes == 0 {
            return 0;
        }
        let used = self.total_bytes - self.avail_bytes;
        let q = (used as u128 * 100) / self.total_bytes as u128;
        proof {
            let u = used as int;
            let t = self.total_bytes as int;
            assert((u * 100) / t <= 100) by (nonlinear_arith)
                requires
                    0 <= u <= t,
                    t > 0,
            ;
        }
        q as u8
    }
}

/// Size of a unit: 2^10, 2^20, 2^30.
pub open spec fn kib() -> nat {
    1024
}

pub open spec fn mib() -> nat {
    1024 * 1024
}

pub open spec fn gib() -> nat {
    1024 * 1024 * 1024
}

/// `bytes / unit` in tenths, rounded half up, written `whole.tenth suffix`.
pub open spec fn scaled(bytes: nat, unit: nat, suffix: Seq<char>) -> Seq<char> {
    let tenths = (bytes * 10 + unit / 2) / unit;
    dec(tenths / 10) + "."@ + dec(tenths % 10) + " "@ + suffix
}

/// Human-readable size: the largest unit that fits, one decimal place.
pub open spec fn format_bytes_spec(bytes: nat) -> Seq<char> {
    if bytes >= gib() {
        scaled(bytes, gib(), "GiB"@)
    } else if bytes >= mib() {
        scaled(bytes, mib(), "MiB"@)
    } else if bytes >= kib() {
        scaled(bytes, kib(), "KiB"@)
    } else {
        dec(bytes) + " B"@
    }
}

fn push_scaled(out: &mut String, bytes: u64, unit: u64, suffix: &str)
    requires
        unit >= 1024,
    ensures
        final(out)@ == old(out)@ + scaled(bytes as nat, unit as nat, suffix@),
{
    let tenths: u128 = (bytes as u128 * 10 + (unit / 2) as u128) / unit as u128;
    proof {
        let n = bytes as int * 10 + (unit / 2) as int;
        let d = unit as int;
        assert(n / d <= n) by (nonlinear_arith)
            requires
                d > 0,
                n >= 0,
        ;
        assert(n / d <= bytes as int * 10 + 1) by (nonlinear_arith)
            requires
                d >= 1024,
                n == bytes as int * 10 + d / 2,
                bytes >= 0,
        ;
    }
    push_dec(out, (tenths / 10) as u64);
    out.push_str(".");
    push_dec(out, (tenths % 10) as u64);
    out.push_str(" ");
    out.push_str(suffix);
    assert(out@ =~= old(out)@ + scaled(bytes as nat, unit as nat, suffix@));
}

/// Formats a byte count as `512 B`, `1.5 KiB`, `1.5 MiB`, `2.0 GiB`.
pub fn format_bytes(bytes: u64) -> (s: String)
    ensures
        s@ == format_bytes_spec(bytes as nat),
{
    let mut s = String::new();
    if bytes >= 1024 * 1024 * 1024 {
        push_scaled(&mut s, bytes, 1024 * 1024 * 1024, "GiB");
    } else if bytes >= 1024 * 1024 {
        push_scaled(&mut s, bytes, 1024 * 1024, "MiB");
    } else if bytes >= 1024 {
        push_scaled(&mut s, bytes, 1024, "KiB");
    } else {
        push_dec(&mut s, bytes);
        s.push_str(" B");
    }
    assert(s@ =~= format_bytes_spec(bytes as nat));
    s
}

#[verifier::external_type_specification]
#[verifier::external_body]
#[verifier::reject_recursive_types(T)]
pub struct ExCell<T: ?Sized>(Cell<T>);

/// `Cell::set`: stores `value` in the shared cell. The cell is shared, so
/// nothing about its later contents is stated here.
#[verifier::external_body]
fn cell_set(cell: &Cell<bool>, value: bool)
    opens_invariants none
    no_unwind
{
    cell.set(value)
}

/// Owns a handle that must be closed; dropping the guard closes it, and
/// `closed` is the observable record of that.
pub struct HandleGuard {
    raw: usize,
    closed: Rc<Cell<bool>>,
}

impl HandleGuard {
    pub fn new(raw: usize, closed: Rc<Cell<bool>>) -> (g: Self)
        ensures
            g.raw_spec() == raw,
    {
        HandleGuard { raw, closed }
    }

    pub closed spec fn raw_spec(&self) -> usize {
        self.raw
    }

    pub fn raw(&self) -> (r: usize)
        ensures
            r == self.raw_spec(),
    {
        self.raw
    }
}

impl Drop for HandleGuard {
    /// Closing the handle: marks the shared flag.
    fn drop(&mut self)
        opens_invariants none
        no_unwind
    {
        cell_set(&self.closed, true);
    }
}

} // verus!
