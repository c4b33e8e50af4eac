//! Totals kept per name: each name at most once, found again by its text.
use vstd::prelude::*;
use crate::text::{owned, str_eq};
use crate::v2_perf_bench::{lex_le, lex_le_exec, lemma_lex_total, lemma_lex_trans};

verus! {

broadcast use vstd::seq_lib::to_multiset_insert;

/// Names with their totals, each name at most once, in the order in which
/// the names were first recorded.
#[derive(Debug, PartialEq, Eq)]
pub struct NameTotals {
    entries: Vec<(String, u32)>,
}

/// No name occurs twice.
pub open spec fn distinct_names(s: Seq<(Seq<char>, u32)>) -> bool {
    forall|a: int, b: int| 0 <= a < b < s.len() ==> s[a].0 != s[b].0
}

/// The total recorded for `name`, if any: the last entry with that name.
pub open spec fn lookup(s: Seq<(Seq<char>, u32)>, name: Seq<char>) -> Option<u32>
    decreases s.len(),
{
    if s.len() == 0 {
        None
    } else if s.last().0 == name {
        Some(s.last().1)
    } else {
        lookup(s.drop_last(), name)
    }
}

/// Where the names are distinct, the entry with a name is what `lookup`
/// finds for it.
pub proof fn lemma_lookup_found(s: Seq<(Seq<char>, u32)>, a: int)
    requires
        distinct_names(s),
        0 <= a < s.len(),
    ensures
        lookup(s, s[a].0) == Some(s[a].1),
    decreases s.len(),
{
    if a < s.len() - 1 {
        assert(s.last().0 != s[a].0);
        lemma_lookup_found(s.drop_last(), a);
    }
}

/// A name that no entry carries is found nowhere.
pub proof fn lemma_lookup_absent(s: Seq<(Seq<char>, u32)>, name: Seq<char>)
    requires
        forall|a: int| 0 <= a < s.len() ==> s[a].0 != name,
    ensures
        lookup(s, name) is None,
    decreases s.len(),
{
    if s.len() > 0 {
        lemma_lookup_absent(s.drop_last(), name);
    }
}

impl View for NameTotals {
    type V = Seq<(Seq<char>, u32)>;

    /// The names and totals, in the order the names were first recorded.
    closed spec fn view(&self) -> Seq<(Seq<char>, u32)> {
        self.entries@.map_values(|e: (String, u32)| (e.0@, e.1))
    }
}

impl NameTotals {
    #[verifier::type_invariant]
    spec fn inv(self) -> bool {
        distinct_names(self@)
    }

    /// No totals yet.
    pub fn new() -> (t: Self)
        ensures
            t@ == Seq::<(Seq<char>, u32)>::empty(),
    {
        let t = NameTotals { entries: Vec::new() };
        assert(t@ =~= Seq::<(Seq<char>, u32)>::empty());
        t
    }

    /// The number of names recorded.
    pub fn len(&self) -> (n: usize)
        ensures
            n == self@.len(),
    {
        self.entries.len()
    }

    /// No name recorded.
    pub fn is_empty(&self) -> (b: bool)
        ensures
            b == (self@.len() == 0),
    {
        self.entries.len() == 0
    }

    /// The index of the entry named `name`, if there is one.
    fn position(&self, name: &str) -> (r: Option<usize>)
        ensures
            match r {
                Some(a) => a < self@.len() && self@[a as int].0 == name@,
                None => forall|a: int| 0 <= a < self@.len() ==> self@[a].0 != name@,
            },
    {
        let mut a: usize = 0;
        while a < self.entries.len()
            invariant
                a <= self.entries.len(),
                forall|b: int| 0 <= b < a ==> self@[b].0 != name@,
            decreases self.entries.len() - a,
        {
            if str_eq(self.entries[a].0.as_str(), name) {
                return Some(a);
            }
            a += 1;
        }
        None
    }

    /// The total recorded for `name`, if any.
    pub fn get(&self, name: &str) -> (r: Option<u32>)
        ensures
            r == lookup(self@, name@),
    {
        proof {
            use_type_invariant(self);
        }
        match self.position(name) {
            Some(a) => {
                proof {
                    lemma_lookup_found(self@, a as int);
                }
                Some(self.entries[a].1)
            },
            None => {
                proof {
                    lemma_lookup_absent(self@, name@);
                }
                None
            },
        }
    }

    /// Whether a total is recorded for `name`.
    pub fn contains_key(&self, name: &str) -> (b: bool)
        ensures
            b == (lookup(self@, name@) is Some),
    {
        self.get(name).is_some()
    }

    /// Records `total` for `name`: replaces the total of a name already
    /// there (keeping its place), or adds the name at the end.
    pub fn set(&mut self, name: &str, total: u32)
        ensures
            forall|n: Seq<char>| #[trigger] lookup(final(self)@, n) == if n == name@ {
                Some(total)
            } else {
                lookup(old(self)@, n)
            },
            old(self)@.len() <= final(self)@.len() <= old(self)@.len() + 1,
    {
        proof {
            use_type_invariant(&*self);
        }
        let ghost before = self@;
        match self.position(name) {
            Some(a) => {
                let mut entries: Vec<(String, u32)> = Vec::new();
                std::mem::swap(&mut entries, &mut self.entries);
                entries.set(a, (owned(name), total));
                let ghost after = entries@.map_values(|e: (String, u32)| (e.0@, e.1));
                proof {
                    assert(after =~= before.update(a as int, (name@, total)));
                    assert(distinct_names(after));
                    assert forall|n: Seq<char>| #[trigger] lookup(after, n) == if n == name@ {
                        Some(total)
                    } else {
                        lookup(before, n)
                    } by {
                        lemma_lookup_found(after, a as int);
                        if n != name@ {
                            if exists|b: int| 0 <= b < before.len() && before[b].0 == n {
                                let b = choose|b: int| 0 <= b < before.len() && before[b].0 == n;
                                lemma_lookup_found(before, b);
                                lemma_lookup_found(after, b);
                            } else {
                                lemma_lookup_absent(before, n);
                                lemma_lookup_absent(after, n);
                            }
                        }
                    }
                }
                self.entries = entries;
            },
            None => {
                let mut entries: Vec<(String, u32)> = Vec::new();
                std::mem::swap(&mut entries, &mut self.entries);
                entries.push((owned(name), total));
                let ghost after = entries@.map_values(|e: (String, u32)| (e.0@, e.1));
                proof {
                    assert(after =~= before.push((name@, total)));
                    assert(after.drop_last() =~= before);
                    assert(distinct_names(after));
                }
                self.entries = entries;
            },
        }
    }
}

/// The views of name–total pairs.
pub open spec fn entry_views(s: Seq<(String, u32)>) -> Seq<(Seq<char>, u32)> {
    s.map_values(|e: (String, u32)| (e.0@, e.1))
}

/// Sorted by name, by code point (the order of `String`).
pub open spec fn sorted_by_name(s: Seq<(Seq<char>, u32)>) -> bool {
    forall|a: int, b: int| 0 <= a < b < s.len() ==> lex_le(#[trigger] s[a].0, #[trigger] s[b].0)
}

impl NameTotals {
    /// The names and their totals, sorted by name.
    pub fn sorted_entries(&self) -> (v: Vec<(String, u32)>)
        ensures
            entry_views(v@).to_multiset() == self@.to_multiset(),
            sorted_by_name(entry_views(v@)),
    {
        let mut out: Vec<(String, u32)> = Vec::new();
        let mut i: usize = 0;
        assert(entry_views(out@) =~= Seq::<(Seq<char>, u32)>::empty());
        assert(self@.take(0) =~= Seq::<(Seq<char>, u32)>::empty());
        while i < self.entries.len()
            invariant
                i <= self.entries.len(),
                sorted_by_name(entry_views(out@)),
                entry_views(out@).to_multiset() == self@.take(i as int).to_multiset(),
            decreases self.entries.len() - i,
        {
            let x: (String, u32) = (owned(self.entries[i].0.as_str()), self.entries[i].1);
            let ghost xv = (x.0@, x.1);
            assert(xv == self@[i as int]);
            let mut p: usize = 0;
            while p < out.len()
                invariant_except_break
                    p <= out.len(),
                    xv == (x.0@, x.1),
                    forall|j: int| 0 <= j < p ==> lex_le(#[trigger] entry_views(out@)[j].0, xv.0),
                ensures
                    xv == (x.0@, x.1),
                    p <= out.len(),
                    forall|j: int| 0 <= j < p ==> lex_le(#[trigger] entry_views(out@)[j].0, xv.0),
                    p < out.len() ==> !lex_le(entry_views(out@)[p as int].0, xv.0),
                decreases out.len() - p,
            {
                assert(entry_views(out@)[p as int].0 == out@[p as int].0@);
                if !lex_le_exec(&out[p].0, &x.0) {
                    break;
                }
                p += 1;
            }
            let ghost before = entry_views(out@);
            out.insert(p, x);
            proof {
                let after = entry_views(out@);
                assert(after =~= before.insert(p as int, xv));
                if p < before.len() {
                    lemma_lex_total(before[p as int].0, xv.0, 0);
                }
                assert forall|a: int, b: int| 0 <= a < b < after.len() implies lex_le(#[trigger] after[a].0, #[trigger] after[b].0) by {
                    if b < p {
                        assert(after[a] == before[a] && after[b] == before[b]);
                    } else if b == p {
                        assert(after[a] == before[a]);
                    } else if a < p {
                        assert(after[a] == before[a] && after[b] == before[b - 1]);
                        if b - 1 > p {
                            lemma_lex_trans(xv.0, before[p as int].0, before[b - 1].0, 0);
                        }
                        lemma_lex_trans(before[a].0, xv.0, before[b - 1].0, 0);
                    } else if a == p {
                        assert(after[b] == before[b - 1]);
                        if b - 1 > p {
                            lemma_lex_trans(xv.0, before[p as int].0, before[b - 1].0, 0);
                        }
                    } else {
                        assert(after[a] == before[a - 1] && after[b] == before[b - 1]);
                    }
                }
                assert(self@.take(i + 1) =~= self@.take(i as int).push(xv));
                assert(self@.take(i as int).push(xv) =~= self@.take(i as int).insert(i as int, xv));
            }
            i += 1;
        }
        assert(self@.take(self.entries.len() as int) =~= self@);
        out
    }
}

impl Default for NameTotals {
    fn default() -> (t: Self)
        ensures
            t@ == Seq::<(Seq<char>, u32)>::empty(),
    {
        NameTotals::new()
    }
}

} // verus!
