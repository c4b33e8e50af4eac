//! Small computations paired with their defective versions, for debugging
//! practice: sliding-window sums, a balance from deposits and withdrawals,
//! and an average that states its empty case.
use vstd::prelude::*;

verus! {

/// A deposit or a withdrawal, in cents.
#[derive(Debug, Clone, Copy, PartialEq, Eq, Structural)]
pub enum Op {
    Deposit(u64),
    Withdraw(u64),
}

/// The sum of a sequence of `i32`, as an integer.
pub open spec fn sum_i32(s: Seq<i32>) -> int
    decreases s.len(),
{
    if s.len() == 0 {
        0
    } else {
        sum_i32(s.drop_last()) + s.last()
    }
}

/// Summing `s` from the left never leaves the range of `i32`.
pub open spec fn fits_i32(s: Seq<i32>) -> bool {
    forall|k: int| 0 <= k <= s.len() ==> i32::MIN <= #[trigger] sum_i32(s.take(k)) <= i32::MAX
}

/// Summing `s` from the left never leaves the range of `i64`.
pub open spec fn fits_i64(s: Seq<i32>) -> bool {
    forall|k: int| 0 <= k <= s.len() ==> i64::MIN <= #[trigger] sum_i32(s.take(k)) <= i64::MAX
}

/// The window of `w` elements that starts at `start`.
pub open spec fn window_of(s: Seq<i32>, start: int, w: int) -> Seq<i32> {
    s.subrange(start, start + w)
}

/// Every window of `w` elements can be summed within `i32`.
pub open spec fn windows_fit(s: Seq<i32>, w: int) -> bool {
    forall|start: int| 0 <= start <= s.len() - w ==> fits_i32(#[trigger] window_of(s, start, w))
}

/// The sums of the windows of `w` elements, one per start position.
pub open spec fn window_sums_spec(s: Seq<i32>, w: int) -> Seq<int> {
    if w == 0 || w > s.len() {
        seq![]
    } else {
        Seq::new((s.len() - w + 1) as nat, |start: int| sum_i32(window_of(s, start, w)))
    }
}

fn sum_range(data: &[i32], start: usize, end: usize) -> (s: i32)
    requires
        start <= end <= data.len(),
        fits_i32(data@.subrange(start as int, end as int)),
    ensures
        s == sum_i32(data@.subrange(start as int, end as int)),
{
    let ghost w = data@.subrange(start as int, end as int);
    let mut s: i32 = 0;
    let mut i: usize = start;
    while i < end
        invariant
            start <= i <= end <= data.len(),
            w == data@.subrange(start as int, end as int),
            fits_i32(w),
            s == sum_i32(w.take(i - start)),
        decreases end - i,
    {
        proof {
            assert(w.take(i - start + 1).drop_last() =~= w.take(i - start));
            assert(w.take(i - start + 1).last() == data@[i as int]);
            assert(i32::MIN <= sum_i32(w.take(i - start + 1)) <= i32::MAX);
        }
        s = s + data[i];
        i += 1;
    }
    assert(w.take(end - start) =~= w);
    s
}

/// The sum of every window of `window` consecutive elements, in order; no
/// window at all where `window` is zero or longer than the data.
pub fn window_sums(data: &[i32], window: usize) -> (r: Vec<i32>)
    requires
        window <= data.len() ==> windows_fit(data@, window as int),
    ensures
        r@.len() == window_sums_spec(data@, window as int).len(),
        forall|k: int| 0 <= k < r@.len() ==> r@[k] == #[trigger] window_sums_spec(data@, window as int)[k],
{
    if window == 0 || window > data.len() {
        return Vec::new();
    }
    let mut out: Vec<i32> = Vec::with_capacity(data.len() - window + 1);
    let last = data.len() - window;
    let mut start: usize = 0;
    while start <= last
        invariant
            0 < window <= data.len(),
            last == data.len() - window,
            start <= last + 1,
            windows_fit(data@, window as int),
            out@.len() == start,
            forall|k: int| 0 <= k < start ==> out@[k] == #[trigger] window_sums_spec(data@, window as int)[k],
        decreases last + 1 - start,
    {
        proof {
            assert(fits_i32(window_of(data@, start as int, window as int)));
        }
        let s = sum_range(data, start, start + window);
        out.push(s);
        start += 1;
    }
    out
}

/// The change an operation makes to the balance: the amount converted to
/// `i64` as `as` converts it, added for a deposit and subtracted for a
/// withdrawal.
pub open spec fn delta(op: Op) -> int {
    match op {
        Op::Deposit(a) => (a as i64) as int,
        Op::Withdraw(a) => -((a as i64) as int),
    }
}

/// The change the defective version makes: it adds withdrawals too.
pub open spec fn delta_buggy(op: Op) -> int {
    match op {
        Op::Deposit(a) => (a as i64) as int,
        Op::Withdraw(a) => (a as i64) as int,
    }
}

/// The balance after the operations, from zero.
pub open spec fn balance(ops: Seq<Op>) -> int
    decreases ops.len(),
{
    if ops.len() == 0 {
        0
    } else {
        balance(ops.drop_last()) + delta(ops.last())
    }
}

/// The balance the defective version computes.
pub open spec fn balance_buggy(ops: Seq<Op>) -> int
    decreases ops.len(),
{
    if ops.len() == 0 {
        0
    } else {
        balance_buggy(ops.drop_last()) + delta_buggy(ops.last())
    }
}

/// Every intermediate balance fits in `i64`.
pub open spec fn balances_fit(ops: Seq<Op>) -> bool {
    forall|k: int| 0 <= k <= ops.len() ==> i64::MIN <= #[trigger] balance(ops.take(k)) <= i64::MAX
}

/// Every intermediate balance of the defective version fits in `i64`.
pub open spec fn balances_buggy_fit(ops: Seq<Op>) -> bool {
    forall|k: int|
        0 <= k <= ops.len() ==> i64::MIN <= #[trigger] balance_buggy(ops.take(k)) <= i64::MAX
}

/// The balance after applying the operations in order, from zero.
pub fn apply_ops(ops: &[Op]) -> (b: i64)
    requires
        balances_fit(ops@),
    ensures
        b == balance(ops@),
{
    let mut b: i64 = 0;
    let mut i: usize = 0;
    while i < ops.len()
        invariant
            i <= ops.len(),
            balances_fit(ops@),
            b == balance(ops@.take(i as int)),
        decreases ops.len() - i,
    {
        proof {
            assert(ops@.take(i + 1).drop_last() =~= ops@.take(i as int));
            assert(i64::MIN <= balance(ops@.take(i + 1)) <= i64::MAX);
        }
        match ops[i] {
            Op::Deposit(a) => {
                b = b + a as i64;
            },
            Op::Withdraw(a) => {
                b = b - a as i64;
            },
        }
        i += 1;
    }
    assert(ops@.take(ops.len() as int) =~= ops@);
    b
}

/// The defective balance: a withdrawal is added as if it were a deposit.
pub fn apply_ops_buggy(ops: &[Op]) -> (b: i64)
    requires
        balances_buggy_fit(ops@),
    ensures
        b == balance_buggy(ops@),
{
    let mut b: i64 = 0;
    let mut i: usize = 0;
    while i < ops.len()
        invariant
            i <= ops.len(),
            balances_buggy_fit(ops@),
            b == balance_buggy(ops@.take(i as int)),
        decreases ops.len() - i,
    {
        proof {
            assert(ops@.take(i + 1).drop_last() =~= ops@.take(i as int));
            assert(i64::MIN <= balance_buggy(ops@.take(i + 1)) <= i64::MAX);
        }
        match ops[i] {
            Op::Deposit(a) => {
                b = b + a as i64;
            },
            Op::Withdraw(a) => {
                b = b + a as i64;
            },
        }
        i += 1;
    }
    assert(ops@.take(ops.len() as int) =~= ops@);
    b
}

/// The defective balance exceeds the correct one by twice the withdrawals:
/// the two agree exactly when nothing is withdrawn.
pub proof fn law_buggy_balance_gap(ops: Seq<Op>)
    ensures
        balance_buggy(ops) - balance(ops) == 2 * withdrawn(ops),
    decreases ops.len(),
{
    if ops.len() > 0 {
        law_buggy_balance_gap(ops.drop_last());
    }
}

/// The total withdrawn, each amount converted as `as` converts it.
pub open spec fn withdrawn(ops: Seq<Op>) -> int
    decreases ops.len(),
{
    if ops.len() == 0 {
        0
    } else {
        withdrawn(ops.drop_last()) + match ops.last() {
            Op::Withdraw(a) => (a as i64) as int,
            Op::Deposit(_) => 0,
        }
    }
}

/// Rust's integer division, which rounds toward zero. (Division in
/// specifications is Euclidean, which rounds toward zero for a non-negative
/// dividend; a negative dividend is divided by its magnitude and negated.)
pub open spec fn div_trunc(a: int, b: int) -> int {
    if a >= 0 {
        a / b
    } else {
        -((-a) / b)
    }
}

/// The average of the values, rounded toward zero; `None` for no values.
pub fn checked_average(data: &[i32]) -> (r: Option<i64>)
    requires
        fits_i64(data@),
        data.len() <= i64::MAX,
    ensures
        data.len() == 0 ==> r is None,
        data.len() > 0 ==> r == Some(div_trunc(sum_i32(data@), data.len() as int) as i64),
{
    if data.len() == 0 {
        return None;
    }
    let mut s: i64 = 0;
    let mut i: usize = 0;
    while i < data.len()
        invariant
            i <= data.len(),
            fits_i64(data@),
            s == sum_i32(data@.take(i as int)),
        decreases data.len() - i,
    {
        proof {
            assert(data@.take(i + 1).drop_last() =~= data@.take(i as int));
            assert(i64::MIN <= sum_i32(data@.take(i + 1)) <= i64::MAX);
        }
        s = s + data[i] as i64;
        i += 1;
    }
    assert(data@.take(data.len() as int) =~= data@);
    let n = data.len() as i64;
    Some(s / n)
}

/// The sum of the values, doubled, the doubling saturating at the bounds
/// of `i32`.
pub fn sum_then_double(values: &[i32]) -> (r: i32)
    requires
        fits_i32(values@),
    ensures
        r as int == if 2 * sum_i32(values@) > i32::MAX {
            i32::MAX as int
        } else if 2 * sum_i32(values@) < i32::MIN {
            i32::MIN as int
        } else {
            2 * sum_i32(values@)
        },
{
    assert(values@.subrange(0, values.len() as int) =~= values@);
    let s = sum_range(values, 0, values.len());
    if s > 1073741823 {
        i32::MAX
    } else if s < -1073741824 {
        i32::MIN
    } else {
        s * 2
    }
}

} // verus!
