//! Events, queried with a builder and aggregated: a newtype for user ids,
//! an enum of kinds, optional purchase amounts, and the lines of a JSON
//! Lines text that hold events.
use vstd::prelude::*;
use crate::text::{trim, trim_owned, lit, dec, push_dec, chars_of, string_from};

verus! {

/// A user id, kept apart from other numbers by its type.
#[derive(Debug, Clone, Copy, PartialEq, Eq, Hash, PartialOrd, Ord, Structural)]
pub struct UserId(pub u64);

impl UserId {
    /// The `Display` form: `u` and the number.
    pub fn to_string(&self) -> (r: String)
        ensures
            r@ == "u"@ + dec(self.0 as nat),
    {
        let mut r = lit("u");
        push_dec(&mut r, self.0);
        r
    }
}

/// The kind of an event.
#[derive(Debug, Clone, Copy, PartialEq, Eq, Structural)]
pub enum Kind {
    Login,
    Logout,
    Purchase,
    Error,
}

/// One event.
#[derive(Debug, Clone, Copy, PartialEq, Eq, Structural)]
pub struct Event {
    pub user: UserId,
    pub kind: Kind,
    /// Unix time in milliseconds.
    pub ts: u64,
    /// The amount of a purchase, in cents.
    pub amount_cents: Option<u64>,
}

/// Query conditions; an absent condition accepts every event.
#[derive(Debug, Clone, Copy, PartialEq, Eq, Structural)]
pub struct Query {
    kind: Option<Kind>,
    user: Option<UserId>,
    since: Option<u64>,
}

/// An event meets the conditions: its kind, its user, and a time at or after
/// `since`, each where given.
pub open spec fn meets(kind: Option<Kind>, user: Option<UserId>, since: Option<u64>, e: Event) -> bool {
    &&& (kind matches Some(k) ==> e.kind == k)
    &&& (user matches Some(u) ==> e.user == u)
    &&& (since matches Some(s) ==> e.ts >= s)
}

/// The events of `s` that meet the conditions, in order.
pub open spec fn selected(
    kind: Option<Kind>,
    user: Option<UserId>,
    since: Option<u64>,
    s: Seq<Event>,
) -> Seq<Event>
    decreases s.len(),
{
    if s.len() == 0 {
        seq![]
    } else if meets(kind, user, since, s.last()) {
        selected(kind, user, since, s.drop_last()).push(s.last())
    } else {
        selected(kind, user, since, s.drop_last())
    }
}

impl Default for Query {
    fn default() -> (q: Self)
        ensures
            q.kind_spec() is None,
            q.user_spec() is None,
            q.since_spec() is None,
    {
        Query { kind: None, user: None, since: None }
    }
}

impl Query {
    pub closed spec fn kind_spec(self) -> Option<Kind> {
        self.kind
    }

    pub closed spec fn user_spec(self) -> Option<UserId> {
        self.user
    }

    pub closed spec fn since_spec(self) -> Option<u64> {
        self.since
    }

    /// A query with no condition.
    pub fn new() -> (q: Self)
        ensures
            q.kind_spec() is None,
            q.user_spec() is None,
            q.since_spec() is None,
    {
        Query { kind: None, user: None, since: None }
    }

    /// The same query, keeping only events of `kind`.
    pub fn kind(self, kind: Kind) -> (q: Self)
        ensures
            q.kind_spec() == Some(kind),
            q.user_spec() == self.user_spec(),
            q.since_spec() == self.since_spec(),
    {
        Query { kind: Some(kind), ..self }
    }

    /// The same query, keeping only events of `user`.
    pub fn user(self, user: UserId) -> (q: Self)
        ensures
            q.kind_spec() == self.kind_spec(),
            q.user_spec() == Some(user),
            q.since_spec() == self.since_spec(),
    {
        Query { user: Some(user), ..self }
    }

    /// The same query, keeping only events at or after `ts`.
    pub fn since(self, ts: u64) -> (q: Self)
        ensures
            q.kind_spec() == self.kind_spec(),
            q.user_spec() == self.user_spec(),
            q.since_spec() == Some(ts),
    {
        Query { since: Some(ts), ..self }
    }

    /// The conditions of the query, as one predicate.
    pub open spec fn accepts(self, e: Event) -> bool {
        meets(self.kind_spec(), self.user_spec(), self.since_spec(), e)
    }

    fn matches(&self, e: &Event) -> (b: bool)
        ensures
            b == self.accepts(*e),
    {
        let k = match self.kind {
            Some(k) => k == e.kind,
            None => true,
        };
        let u = match self.user {
            Some(u) => u == e.user,
            None => true,
        };
        let s = match self.since {
            Some(s) => e.ts >= s,
            None => true,
        };
        k && u && s
    }

    /// The events that meet the query, in order, borrowed from `events`.
    pub fn filter<'a>(&self, events: &'a [Event]) -> (r: Vec<&'a Event>)
        ensures
            r@.map_values(|e: &Event| *e) == selected(
                self.kind_spec(),
                self.user_spec(),
                self.since_spec(),
                events@,
            ),
    {
        let mut out: Vec<&'a Event> = Vec::new();
        let mut i: usize = 0;
        while i < events.len()
            invariant
                i <= events.len(),
                out@.map_values(|e: &Event| *e) == selected(
                    self.kind_spec(),
                    self.user_spec(),
                    self.since_spec(),
                    events@.take(i as int),
                ),
            decreases events.len() - i,
        {
            proof {
                assert(events@.take(i + 1).drop_last() =~= events@.take(i as int));
            }
            let e = &events[i];
            if self.matches(e) {
                out.push(e);
                assert(out@.map_values(|e: &Event| *e) =~= selected(
                    self.kind_spec(),
                    self.user_spec(),
                    self.since_spec(),
                    events@.take(i as int),
                ).push(*e));
            }
            i += 1;
        }
        assert(events@.take(events.len() as int) =~= events@);
        out
    }
}

/// The count of events and the revenue of their purchase amounts.
#[derive(Debug, Clone, Copy, PartialEq, Eq, Structural)]
pub struct Stats {
    pub count: usize,
    /// The sum of the amounts that events carry, in cents.
    pub revenue_cents: u64,
}

impl Default for Stats {
    fn default() -> (s: Self)
        ensures
            s.count == 0,
            s.revenue_cents == 0,
    {
        Stats { count: 0, revenue_cents: 0 }
    }
}

/// The sum of the amounts the events carry.
pub open spec fn revenue(s: Seq<Event>) -> nat
    decreases s.len(),
{
    if s.len() == 0 {
        0
    } else {
        revenue(s.drop_last()) + match s.last().amount_cents {
            Some(a) => a as nat,
            None => 0,
        }
    }
}

proof fn lemma_revenue_mono(s: Seq<Event>, k: int)
    requires
        0 <= k <= s.len(),
    ensures
        revenue(s.take(k)) <= revenue(s),
    decreases s.len() - k,
{
    if k < s.len() {
        lemma_revenue_mono(s, k + 1);
        assert(s.take(k + 1).drop_last() =~= s.take(k));
    } else {
        assert(s.take(k) =~= s);
    }
}

/// Counts the events and adds up the amounts they carry.
pub fn aggregate(events: &[&Event]) -> (st: Stats)
    requires
        revenue(events@.map_values(|e: &Event| *e)) <= u64::MAX,
    ensures
        st.count == events.len(),
        st.revenue_cents == revenue(events@.map_values(|e: &Event| *e)),
{
    let ghost all = events@.map_values(|e: &Event| *e);
    let mut st = Stats::default();
    let mut i: usize = 0;
    while i < events.len()
        invariant
            i <= events.len(),
            all == events@.map_values(|e: &Event| *e),
            revenue(all) <= u64::MAX,
            st.count == i,
            st.revenue_cents == revenue(all.take(i as int)),
        decreases events.len() - i,
    {
        proof {
            assert(all.take(i + 1).drop_last() =~= all.take(i as int));
            assert(all.take(i + 1).last() == *events@[i as int]);
            lemma_revenue_mono(all, i + 1);
        }
        st.count = st.count + 1;
        match events[i].amount_cents {
            Some(a) => {
                st.revenue_cents = st.revenue_cents + a;
            },
            None => {},
        }
        i += 1;
    }
    assert(all.take(events.len() as int) =~= all);
    st
}

/// `t` kept where it is not empty.
pub open spec fn keep_nonempty(done: Seq<Seq<char>>, t: Seq<char>) -> Seq<Seq<char>> {
    if t.len() > 0 {
        done.push(t)
    } else {
        done
    }
}

/// Reading `s` line by line: the trimmed, non-empty lines finished so far,
/// and the line under way.
pub open spec fn scan_lines(s: Seq<char>) -> (Seq<Seq<char>>, Seq<char>)
    decreases s.len(),
{
    if s.len() == 0 {
        (seq![], seq![])
    } else {
        let (done, cur) = scan_lines(s.drop_last());
        if s.last() == '\n' {
            (keep_nonempty(done, trim(cur)), seq![])
        } else {
            (done, cur.push(s.last()))
        }
    }
}

/// The lines of `s`, each trimmed, the empty ones left out.
pub open spec fn event_lines_spec(s: Seq<char>) -> Seq<Seq<char>> {
    keep_nonempty(scan_lines(s).0, trim(scan_lines(s).1))
}

/// The lines of a JSON Lines text that can hold an event: each line
/// trimmed, blank lines left out.
pub fn event_lines(input: &str) -> (r: Vec<String>)
    ensures
        r@.map_values(|l: String| l@) == event_lines_spec(input@),
{
    let v = chars_of(input);
    let mut out: Vec<String> = Vec::new();
    let mut start: usize = 0;
    let mut i: usize = 0;
    while i < v.len()
        invariant
            i <= v.len(),
            start <= i,
            v@ == input@,
            out@.map_values(|l: String| l@) == scan_lines(v@.take(i as int)).0,
            v@.subrange(start as int, i as int) == scan_lines(v@.take(i as int)).1,
        decreases v.len() - i,
    {
        proof {
            assert(v@.take(i + 1).drop_last() =~= v@.take(i as int));
            assert(v@.take(i + 1).last() == v@[i as int]);
        }
        if v[i] == '\n' {
            let line = string_from(&v, start, i);
            let t = trim_owned(line.as_str());
            if !t.as_str().is_empty() {
                out.push(t);
            }
            proof {
                assert(out@.map_values(|l: String| l@) =~= scan_lines(v@.take(i + 1)).0);
            }
            start = i + 1;
            i += 1;
            assert(v@.subrange(start as int, i as int) =~= Seq::<char>::empty());
        } else {
            i += 1;
            assert(v@.subrange(start as int, i as int) =~= v@.subrange(start as int, i - 1).push(
                v@[i - 1],
            ));
        }
    }
    assert(v@.take(v.len() as int) =~= v@);
    let last = string_from(&v, start, v.len());
    let t = trim_owned(last.as_str());
    if !t.as_str().is_empty() {
        out.push(t);
    }
    assert(out@.map_values(|l: String| l@) =~= event_lines_spec(input@));
    out
}

/// Every event that a query returns meets each condition that was set:
/// its kind where a kind was given, its user where a user was given, and a
/// time at or after `since` where that was given, whatever the other
/// conditions are; and every event of the input that meets them all is
/// returned.
pub proof fn law_filter_meets_each_condition(q: Query, s: Seq<Event>)
    ensures
        forall|i: int|
            0 <= i < selected(q.kind_spec(), q.user_spec(), q.since_spec(), s).len() ==> {
                let e = #[trigger] selected(q.kind_spec(), q.user_spec(), q.since_spec(), s)[i];
                &&& s.contains(e)
                &&& (q.kind_spec() matches Some(k) ==> e.kind == k)
                &&& (q.user_spec() matches Some(u) ==> e.user == u)
                &&& (q.since_spec() matches Some(t) ==> e.ts >= t)
            },
        forall|j: int|
            0 <= j < s.len() && (q.kind_spec() matches Some(k) ==> s[j].kind == k) && (
            q.user_spec() matches Some(u) ==> s[j].user == u) && (q.since_spec() matches Some(t)
                ==> s[j].ts >= t) ==> selected(q.kind_spec(), q.user_spec(), q.since_spec(), s).contains(
                #[trigger] s[j],
            ),
{
    lemma_selected_sound(q.kind_spec(), q.user_spec(), q.since_spec(), s);
    lemma_selected_complete(q.kind_spec(), q.user_spec(), q.since_spec(), s);
}

proof fn lemma_selected_sound(kind: Option<Kind>, user: Option<UserId>, since: Option<u64>, s: Seq<Event>)
    ensures
        forall|i: int|
            0 <= i < selected(kind, user, since, s).len() ==> {
                let e = #[trigger] selected(kind, user, since, s)[i];
                &&& s.contains(e)
                &&& (kind matches Some(k) ==> e.kind == k)
                &&& (user matches Some(u) ==> e.user == u)
                &&& (since matches Some(t) ==> e.ts >= t)
            },
    decreases s.len(),
{
    if s.len() > 0 {
        let p = s.drop_last();
        lemma_selected_sound(kind, user, since, p);
        let r = selected(kind, user, since, s);
        let rp = selected(kind, user, since, p);
        assert forall|i: int| 0 <= i < r.len() implies s.contains(#[trigger] r[i]) && (kind matches Some(k) ==> r[i].kind == k)
            && (user matches Some(u) ==> r[i].user == u) && (since matches Some(t) ==> r[i].ts >= t) by {
            if i < rp.len() {
                assert(r[i] == rp[i]);
                assert(p.contains(rp[i]));
                let j = choose|j: int| 0 <= j < p.len() && p[j] == rp[i];
                assert(s[j] == p[j]);
            } else {
                assert(r[i] == s.last());
                assert(s[s.len() - 1] == s.last());
            }
        }
    }
}

proof fn lemma_selected_complete(kind: Option<Kind>, user: Option<UserId>, since: Option<u64>, s: Seq<Event>)
    ensures
        forall|j: int|
            0 <= j < s.len() && (kind matches Some(k) ==> s[j].kind == k) && (user matches Some(u)
                ==> s[j].user == u) && (since matches Some(t) ==> s[j].ts >= t) ==> selected(
                kind,
                user,
                since,
                s,
            ).contains(#[trigger] s[j]),
    decreases s.len(),
{
    if s.len() > 0 {
        let p = s.drop_last();
        lemma_selected_complete(kind, user, since, p);
        let r = selected(kind, user, since, s);
        let rp = selected(kind, user, since, p);
        assert forall|j: int|
            0 <= j < s.len() && (kind matches Some(k) ==> s[j].kind == k) && (user matches Some(u)
                ==> s[j].user == u) && (since matches Some(t) ==> s[j].ts >= t) implies r.contains(
                #[trigger] s[j],
            ) by {
            if j < p.len() {
                assert(s[j] == p[j]);
                assert(rp.contains(p[j]));
                let k = choose|k: int| 0 <= k < rp.len() && rp[k] == p[j];
                if meets(kind, user, since, s.last()) {
                    assert(r[k] == rp[k]);
                } else {
                    assert(r == rp);
                }
            } else {
                assert(s[j] == s.last());
                assert(meets(kind, user, since, s.last()));
                assert(r[r.len() - 1] == s.last());
            }
        }
    }
}

/// Filtering by several conditions is filtering by each of them in turn: by
/// time, then by user, then by kind.
pub proof fn law_filter_composes(q: Query, s: Seq<Event>)
    ensures
        selected(q.kind_spec(), q.user_spec(), q.since_spec(), s) == selected(
            q.kind_spec(),
            None,
            None,
            selected(None, q.user_spec(), None, selected(None, None, q.since_spec(), s)),
        ),
{
    lemma_selected_composes(q.kind_spec(), q.user_spec(), q.since_spec(), s);
}

proof fn lemma_selected_composes(kind: Option<Kind>, user: Option<UserId>, since: Option<u64>, s: Seq<Event>)
    ensures
        selected(kind, user, since, s) == selected(
            kind,
            None,
            None,
            selected(None, user, None, selected(None, None, since, s)),
        ),
    decreases s.len(),
{
    if s.len() > 0 {
        lemma_selected_composes(kind, user, since, s.drop_last());
        let t = selected(None, None, since, s);
        let tp = selected(None, None, since, s.drop_last());
        if meets(None, None, since, s.last()) {
            assert(t == tp.push(s.last()));
            assert(t.drop_last() =~= tp);
            let u = selected(None, user, None, t);
            let up = selected(None, user, None, tp);
            if meets(None, user, None, s.last()) {
                assert(u.drop_last() =~= up);
            } else {
                assert(u == up);
            }
        } else {
            assert(t == tp);
        }
    }
}

} // verus!
