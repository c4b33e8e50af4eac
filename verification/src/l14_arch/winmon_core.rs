//! Business logic on process lists; no platform code.
use vstd::prelude::*;
use crate::tally::{NameTotals, lookup, distinct_names, lemma_lookup_found, lemma_lookup_absent};

verus! {

#[derive(Debug, Clone, PartialEq, Eq)]
pub struct ProcessInfo {
    pub pid: u32,
    pub name: String,
    /// CPU usage in percent, 0–100.
    pub cpu: u8,
}

impl ProcessInfo {
    /// A field-for-field copy.
    pub fn duplicate(&self) -> (r: ProcessInfo)
        ensures
            r == *self,
    {
        ProcessInfo { pid: self.pid, name: self.name.clone(), cpu: self.cpu }
    }
}

/// Copies of every process, in order.
pub fn duplicate_all(procs: &[ProcessInfo]) -> (r: Vec<ProcessInfo>)
    ensures
        r@ == procs@,
{
    let mut out: Vec<ProcessInfo> = Vec::new();
    let mut i: usize = 0;
    while i < procs.len()
        invariant
            i <= procs.len(),
            out@ == procs@.subrange(0, i as int),
        decreases procs.len() - i,
    {
        out.push(procs[i].duplicate());
        i += 1;
        assert(out@ =~= procs@.subrange(0, i as int));
    }
    assert(procs@.subrange(0, procs.len() as int) =~= procs@);
    out
}

/// The source of process lists; each platform has its own.
pub trait Collector {
    fn collect(&self) -> Vec<ProcessInfo>;
}

/// The processes of `s` whose CPU usage is at least `threshold`, in order.
pub open spec fn hot(s: Seq<ProcessInfo>, threshold: u8) -> Seq<ProcessInfo>
    decreases s.len(),
{
    if s.len() == 0 {
        seq![]
    } else if s.last().cpu >= threshold {
        hot(s.drop_last(), threshold).push(s.last())
    } else {
        hot(s.drop_last(), threshold)
    }
}

/// Total CPU of the processes of `s` named `name`.
pub open spec fn cpu_total(s: Seq<ProcessInfo>, name: Seq<char>) -> nat
    decreases s.len(),
{
    if s.len() == 0 {
        0
    } else {
        cpu_total(s.drop_last(), name) + if s.last().name@ == name {
            s.last().cpu as nat
        } else {
            0
        }
    }
}

/// No name's total exceeds `u32::MAX`.
pub open spec fn totals_fit(s: Seq<ProcessInfo>) -> bool {
    forall|i: int| 0 <= i < s.len() ==> cpu_total(s, #[trigger] s[i].name@) <= u32::MAX
}

/// The processes at or above the threshold, as references into `procs`.
pub fn high_cpu(procs: &[ProcessInfo], threshold: u8) -> (r: Vec<&ProcessInfo>)
    ensures
        r@.map_values(|p: &ProcessInfo| *p) == hot(procs@, threshold),
{
    let mut out: Vec<&ProcessInfo> = Vec::new();
    let mut i: usize = 0;
    while i < procs.len()
        invariant
            i <= procs.len(),
            out@.map_values(|p: &ProcessInfo| *p) == hot(procs@.subrange(0, i as int), threshold),
        decreases procs.len() - i,
    {
        let p = &procs[i];
        proof {
            assert(procs@.subrange(0, i + 1).drop_last() =~= procs@.subrange(0, i as int));
        }
        if p.cpu >= threshold {
            out.push(p);
            assert(out@.map_values(|p: &ProcessInfo| *p) =~= hot(procs@.subrange(0, i as int), threshold).push(*p));
        }
        i += 1;
    }
    assert(procs@.subrange(0, procs.len() as int) =~= procs@);
    out
}

/// `n` capped at `u32::MAX`.
pub open spec fn cap_u32(n: nat) -> u32 {
    if n <= u32::MAX {
        n as u32
    } else {
        u32::MAX
    }
}

/// Some entry of `r` carries the name `n`.
pub open spec fn names_include(r: Seq<(String, u32)>, n: Seq<char>) -> bool {
    exists|a: int| 0 <= a < r.len() && r[a].0@ == n
}

/// Some process of `s` is named `n`.
pub open spec fn some_proc_named(s: Seq<ProcessInfo>, n: Seq<char>) -> bool {
    exists|i: int| 0 <= i < s.len() && s[i].name@ == n
}

/// Per-name totals: distinct names in order of first appearance, each with
/// the sum of its processes' CPU usage (capped at `u32::MAX`).
pub fn cpu_totals(procs: &[ProcessInfo]) -> (r: Vec<(String, u32)>)
    ensures
        forall|a: int, b: int| 0 <= a < b < r.len() ==> r@[a].0@ != r@[b].0@,
        forall|a: int| 0 <= a < r.len() ==> #[trigger] r@[a].1 == cap_u32(cpu_total(procs@, r@[a].0@)),
        forall|i: int| 0 <= i < procs.len() ==> names_include(r@, #[trigger] procs@[i].name@),
        forall|a: int| 0 <= a < r.len() ==> some_proc_named(procs@, #[trigger] r@[a].0@),
{
    let mut out: Vec<(String, u32)> = Vec::new();
    let mut i: usize = 0;
    while i < procs.len()
        invariant
            i <= procs.len(),
            forall|a: int, b: int| 0 <= a < b < out.len() ==> out@[a].0@ != out@[b].0@,
            forall|a: int|
                0 <= a < out.len() ==> #[trigger] out@[a].1 == cap_u32(cpu_total(
                    procs@.subrange(0, i as int),
                    out@[a].0@,
                )),
            forall|k: int| 0 <= k < i ==> names_include(out@, #[trigger] procs@[k].name@),
            forall|a: int| 0 <= a < out.len() ==> some_proc_named(procs@, #[trigger] out@[a].0@),
        decreases procs.len() - i,
    {
        let p = &procs[i];
        let ghost pre = procs@.subrange(0, i as int);
        let ghost post = procs@.subrange(0, i + 1);
        proof {
            assert(post.drop_last() =~= pre);
            assert(post.last() == *p);
        }
        // Look for this name among those seen so far.
        let mut a: usize = 0;
        let mut found = false;
        while a < out.len()
            invariant_except_break
                a <= out.len(),
                !found,
                forall|b: int| 0 <= b < a ==> out@[b].0@ != p.name@,
            ensures
                found ==> a < out.len() && out@[a as int].0@ == p.name@,
                !found ==> forall|b: int| 0 <= b < out.len() ==> out@[b].0@ != p.name@,
            decreases out.len() - a,
        {
            if out[a].0 == p.name {
                found = true;
                break;
            }
            a += 1;
        }
        if found {
            proof {
                assert(cpu_total(post, p.name@) == cpu_total(pre, p.name@) + p.cpu);
            }
            let c = p.cpu as u32;
            let t = if out[a].1 > u32::MAX - c {
                u32::MAX
            } else {
                out[a].1 + c
            };
            let name = out[a].0.clone();
            let ghost before = out@;
            out.set(a, (name, t));
            proof {
                assert forall|b: int| 0 <= b < out.len() implies #[trigger] out@[b].0@ == before[b].0@ by {}
                assert forall|x: int, y: int| 0 <= x < y < out.len() implies out@[x].0@ != out@[y].0@ by {
                    assert(out@[x].0@ == before[x].0@);
                    assert(out@[y].0@ == before[y].0@);
                }
                assert forall|b: int| 0 <= b < out.len() implies #[trigger] out@[b].1 == cap_u32(cpu_total(post, out@[b].0@)) by {
                    if b != a {
                        assert(out@[b] == before[b]);
                    }
                }
                assert forall|b: int| 0 <= b < out.len() implies some_proc_named(procs@, #[trigger] out@[b].0@) by {
                    assert(out@[b].0@ == before[b].0@);
                    assert(some_proc_named(procs@, before[b].0@));
                }
                assert forall|k: int| 0 <= k < i + 1 implies names_include(out@, #[trigger] procs@[k].name@) by {
                    if k < i {
                        let w = choose|b: int| 0 <= b < before.len() && before[b].0@ == procs@[k].name@;
                        assert(out@[w].0@ == before[w].0@);
                    } else {
                        assert(out@[a as int].0@ == procs@[k].name@);
                    }
                }
            }
        } else {
            proof {
                assert forall|k: int| 0 <= k < pre.len() implies pre[k].name@ != p.name@ by {
                    assert(pre[k] == procs@[k]);
                    assert(names_include(out@, procs@[k].name@));
                    let w = choose|b: int| 0 <= b < out.len() && out@[b].0@ == procs@[k].name@;
                    assert(out@[w].0@ != p.name@);
                }
                lemma_absent_total(pre, p.name@);
            }
            let ghost before = out@;
            out.push((p.name.clone(), p.cpu as u32));
            proof {
                assert forall|x: int, y: int| 0 <= x < y < out.len() implies out@[x].0@ != out@[y].0@ by {
                    if y == before.len() {
                        assert(out@[x] == before[x]);
                    } else {
                        assert(out@[x] == before[x]);
                        assert(out@[y] == before[y]);
                    }
                }
                assert forall|b: int| 0 <= b < out.len() implies #[trigger] out@[b].1 == cap_u32(cpu_total(post, out@[b].0@)) by {
                    if b < before.len() {
                        assert(out@[b] == before[b]);
                    }
                }
                assert forall|b: int| 0 <= b < out.len() implies some_proc_named(procs@, #[trigger] out@[b].0@) by {
                    if b < before.len() {
                        assert(out@[b] == before[b]);
                        assert(some_proc_named(procs@, before[b].0@));
                    } else {
                        assert(out@[b].0@ == procs@[i as int].name@);
                    }
                }
                assert forall|k: int| 0 <= k < i + 1 implies names_include(out@, #[trigger] procs@[k].name@) by {
                    if k < i {
                        let w = choose|b: int| 0 <= b < before.len() && before[b].0@ == procs@[k].name@;
                        assert(out@[w].0@ == before[w].0@);
                    } else {
                        assert(out@[before.len() as int].0@ == procs@[k].name@);
                    }
                }
            }
        }
        i += 1;
    }
    assert(procs@.subrange(0, procs.len() as int) =~= procs@);
    out
}

/// A name that no process of `s` carries totals zero.
pub proof fn lemma_absent_total(s: Seq<ProcessInfo>, name: Seq<char>)
    requires
        forall|k: int| 0 <= k < s.len() ==> s[k].name@ != name,
    ensures
        cpu_total(s, name) == 0,
    decreases s.len(),
{
    if s.len() > 0 {
        lemma_absent_total(s.drop_last(), name);
    }
}

/// The views of name–total pairs.
pub open spec fn pair_views(s: Seq<(String, u32)>) -> Seq<(Seq<char>, u32)> {
    s.map_values(|e: (String, u32)| (e.0@, e.1))
}

/// The per-name totals: exactly the names of the processes, each with the
/// sum of the CPU usage of the processes that carry it.
pub fn total_cpu_by_name(procs: &[ProcessInfo]) -> (m: NameTotals)
    requires
        totals_fit(procs@),
    ensures
        forall|n: Seq<char>| #[trigger] lookup(m@, n) == if some_proc_named(procs@, n) {
            Some(cpu_total(procs@, n) as u32)
        } else {
            None
        },
{
    let totals = cpu_totals(procs);
    let ghost pv = pair_views(totals@);
    let mut m = NameTotals::new();
    let mut i: usize = 0;
    proof {
        assert(pv.take(0) =~= Seq::<(Seq<char>, u32)>::empty());
    }
    while i < totals.len()
        invariant
            i <= totals.len(),
            pv == pair_views(totals@),
            forall|n: Seq<char>| #[trigger] lookup(m@, n) == lookup(pv.take(i as int), n),
        decreases totals.len() - i,
    {
        let ghost before = m@;
        m.set(totals[i].0.as_str(), totals[i].1);
        proof {
            assert(pv.take(i + 1).drop_last() =~= pv.take(i as int));
            assert(pv.take(i + 1).last() == pv[i as int]);
            assert forall|n: Seq<char>| #[trigger] lookup(m@, n) == lookup(pv.take(i + 1), n) by {
                assert(lookup(m@, n) == if n == pv[i as int].0 {
                    Some(pv[i as int].1)
                } else {
                    lookup(before, n)
                });
            }
        }
        i += 1;
    }
    proof {
        assert(pv.take(totals.len() as int) =~= pv);
        assert(distinct_names(pv)) by {
            assert forall|a: int, b: int| 0 <= a < b < pv.len() implies pv[a].0 != pv[b].0 by {
                assert(pv[a].0 == totals@[a].0@);
                assert(pv[b].0 == totals@[b].0@);
            }
        }
        assert forall|n: Seq<char>| #[trigger] lookup(m@, n) == if some_proc_named(procs@, n) {
            Some(cpu_total(procs@, n) as u32)
        } else {
            None
        } by {
            if some_proc_named(procs@, n) {
                let j = choose|j: int| 0 <= j < procs.len() && procs@[j].name@ == n;
                assert(names_include(totals@, procs@[j].name@));
                let a = choose|a: int| 0 <= a < totals.len() && totals@[a].0@ == procs@[j].name@;
                lemma_lookup_found(pv, a);
                assert(pv[a] == (totals@[a].0@, totals@[a].1));
                assert(cpu_total(procs@, procs@[j].name@) <= u32::MAX);
            } else {
                assert forall|a: int| 0 <= a < pv.len() implies pv[a].0 != n by {
                    assert(pv[a].0 == totals@[a].0@);
                    assert(some_proc_named(procs@, totals@[a].0@));
                }
                lemma_lookup_absent(pv, n);
            }
        }
    }
    m
}

} // verus!
