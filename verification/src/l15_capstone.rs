//! The whole pipeline: collect, keep the processes over a CPU threshold,
//! render them with every reporter, and summarise.
use vstd::prelude::*;
use crate::text::{dec, join, views, push_dec, join_strings, debug_quoted, debug_str};
use crate::tally::{NameTotals, lookup};

verus! {

#[derive(Debug, Clone, PartialEq, Eq)]
pub struct ProcessInfo {
    pub pid: u32,
    pub name: String,
    pub cpu: u8,
}

impl ProcessInfo {
    /// A field-for-field copy.
    pub fn duplicate(&self) -> (r: ProcessInfo)
        ensures
            r == *self,
    {
        ProcessInfo { pid: self.pid, name: self.name.clone(), cpu: self.cpu }
    }
}

/// The source of process lists.
pub trait Collector {
    fn collect(&self) -> Vec<ProcessInfo>;
}

/// The values behind a slice of references.
pub open spec fn derefs(s: Seq<&ProcessInfo>) -> Seq<ProcessInfo> {
    s.map_values(|p: &ProcessInfo| *p)
}

/// One report format.
pub trait Reporter {
    /// The text this reporter produces for `procs`.
    spec fn rendered(&self, procs: Seq<ProcessInfo>) -> Seq<char>;

    fn render(&self, procs: &[&ProcessInfo]) -> (out: String)
        ensures
            out@ == self.rendered(derefs(procs@)),
    ;
}

pub struct TextReporter;

pub struct JsonReporter;

/// One table row: pid, CPU with a percent sign, and name, tab-separated.
pub open spec fn text_row(p: ProcessInfo) -> Seq<char> {
    dec(p.pid as nat) + "\t"@ + dec(p.cpu as nat) + "%\t"@ + p.name@ + "\n"@
}

/// The rows of a table, one per process, in order.
pub open spec fn text_rows(s: Seq<ProcessInfo>) -> Seq<char>
    decreases s.len(),
{
    if s.len() == 0 {
        seq![]
    } else {
        text_rows(s.drop_last()) + text_row(s.last())
    }
}

/// A header line and one row per process.
pub open spec fn text_table(s: Seq<ProcessInfo>) -> Seq<char> {
    "PID\tCPU\tNAME\n"@ + text_rows(s)
}

/// One JSON object per process.
pub open spec fn json_item(p: ProcessInfo) -> Seq<char> {
    "{\"pid\":"@ + dec(p.pid as nat) + ",\"cpu\":"@ + dec(p.cpu as nat) + ",\"name\":"@
        + debug_quoted(p.name@) + "}"@
}

/// The objects, comma-separated, in square brackets.
pub open spec fn json_array(s: Seq<ProcessInfo>) -> Seq<char> {
    "["@ + join(s.map_values(|p: ProcessInfo| json_item(p)), ","@) + "]"@
}

impl Reporter for TextReporter {
    open spec fn rendered(&self, procs: Seq<ProcessInfo>) -> Seq<char> {
        text_table(procs)
    }

    fn render(&self, procs: &[&ProcessInfo]) -> (out: String) {
        let mut out = String::new();
        out.push_str("PID\tCPU\tNAME\n");
        let mut i: usize = 0;
        while i < procs.len()
            invariant
                i <= procs.len(),
                out@ == "PID\tCPU\tNAME\n"@ + text_rows(derefs(procs@).subrange(0, i as int)),
            decreases procs.len() - i,
        {
            let p = procs[i];
            push_dec(&mut out, p.pid as u64);
            out.push_str("\t");
            push_dec(&mut out, p.cpu as u64);
            out.push_str("%\t");
            out.push_str(p.name.as_str());
            out.push_str("\n");
            proof {
                let s = derefs(procs@);
                assert(s.subrange(0, i + 1).drop_last() =~= s.subrange(0, i as int));
                assert(s.subrange(0, i + 1).last() == *p);
            }
            i += 1;
            assert(out@ =~= "PID\tCPU\tNAME\n"@ + text_rows(derefs(procs@).subrange(0, i as int)));
        }
        assert(derefs(procs@).subrange(0, procs.len() as int) =~= derefs(procs@));
        out
    }
}

impl Reporter for JsonReporter {
    open spec fn rendered(&self, procs: Seq<ProcessInfo>) -> Seq<char> {
        json_array(procs)
    }

    fn render(&self, procs: &[&ProcessInfo]) -> (out: String) {
        let ghost s = derefs(procs@);
        let mut items: Vec<String> = Vec::new();
        let mut i: usize = 0;
        while i < procs.len()
            invariant
                i <= procs.len(),
                s == derefs(procs@),
                items.len() == i,
                forall|k: int| 0 <= k < i ==> #[trigger] items@[k]@ == json_item(s[k]),
            decreases procs.len() - i,
        {
            let p = procs[i];
            let mut item = String::new();
            item.push_str("{\"pid\":");
            push_dec(&mut item, p.pid as u64);
            item.push_str(",\"cpu\":");
            push_dec(&mut item, p.cpu as u64);
            item.push_str(",\"name\":");
            let q = debug_str(p.name.as_str());
            item.push_str(q.as_str());
            item.push_str("}");
            assert(item@ =~= json_item(s[i as int]));
            items.push(item);
            i += 1;
        }
        let body = join_strings(&items, ",");
        let mut out = String::new();
        out.push_str("[");
        out.push_str(body.as_str());
        out.push_str("]");
        assert(views(items@) =~= s.map_values(|p: ProcessInfo| json_item(p)));
        assert(out@ =~= json_array(s));
        out
    }
}

/// The processes of `s` whose CPU usage is at least `threshold`, in order.
pub open spec fn hot(s: Seq<ProcessInfo>, threshold: u8) -> Seq<ProcessInfo>
    decreases s.len(),
{
    if s.len() == 0 {
        seq![]
    } else if s.last().cpu >= threshold {
        hot(s.drop_last(), threshold).push(s.last())
    } else {
        hot(s.drop_last(), threshold)
    }
}

/// Total CPU of the processes of `s` named `name`.
pub open spec fn cpu_total(s: Seq<ProcessInfo>, name: Seq<char>) -> nat
    decreases s.len(),
{
    if s.len() == 0 {
        0
    } else {
        cpu_total(s.drop_last(), name) + if s.last().name@ == name {
            s.last().cpu as nat
        } else {
            0
        }
    }
}

/// `n` capped at `u32::MAX`.
pub open spec fn cap_u32(n: nat) -> u32 {
    if n <= u32::MAX {
        n as u32
    } else {
        u32::MAX
    }
}

/// Some process of `s` is named `n`.
pub open spec fn some_proc_named(s: Seq<ProcessInfo>, n: Seq<char>) -> bool {
    exists|i: int| 0 <= i < s.len() && s[i].name@ == n
}

/// The summary of one analysis.
#[derive(Debug, PartialEq, Eq)]
pub struct Summary {
    pub total: usize,
    pub flagged: usize,
    pub by_name: NameTotals,
}

/// What the per-name totals hold for the processes `s`: exactly the names of
/// the processes, each with its total CPU, capped at `u32::MAX`.
pub open spec fn totals_of(m: Seq<(Seq<char>, u32)>, s: Seq<ProcessInfo>) -> bool {
    forall|n: Seq<char>| #[trigger] lookup(m, n) == if some_proc_named(s, n) {
        Some(cap_u32(cpu_total(s, n)))
    } else {
        None
    }
}

/// The processes at or above the threshold, as references into `procs`.
fn high_cpu(procs: &[ProcessInfo], threshold: u8) -> (r: Vec<&ProcessInfo>)
    ensures
        derefs(r@) == hot(procs@, threshold),
{
    let mut out: Vec<&ProcessInfo> = Vec::new();
    let mut i: usize = 0;
    while i < procs.len()
        invariant
            i <= procs.len(),
            derefs(out@) == hot(procs@.subrange(0, i as int), threshold),
        decreases procs.len() - i,
    {
        let p = &procs[i];
        proof {
            assert(procs@.subrange(0, i + 1).drop_last() =~= procs@.subrange(0, i as int));
        }
        if p.cpu >= threshold {
            out.push(p);
            assert(derefs(out@) =~= hot(procs@.subrange(0, i as int), threshold).push(*p));
        }
        i += 1;
    }
    assert(procs@.subrange(0, procs.len() as int) =~= procs@);
    out
}

/// The sum of the CPU of the processes named `name`, capped at `u32::MAX`.
fn total_for(procs: &[ProcessInfo], name: &String) -> (t: u32)
    ensures
        t == cap_u32(cpu_total(procs@, name@)),
{
    let mut t: u32 = 0;
    let mut i: usize = 0;
    while i < procs.len()
        invariant
            i <= procs.len(),
            t == cap_u32(cpu_total(procs@.subrange(0, i as int), name@)),
        decreases procs.len() - i,
    {
        proof {
            assert(procs@.subrange(0, i + 1).drop_last() =~= procs@.subrange(0, i as int));
        }
        if procs[i].name == *name {
            let c = procs[i].cpu as u32;
            t = if t > u32::MAX - c {
                u32::MAX
            } else {
                t + c
            };
        }
        i += 1;
    }
    assert(procs@.subrange(0, procs.len() as int) =~= procs@);
    t
}

/// The per-name totals of `procs`, capped at `u32::MAX`.
fn totals_map(procs: &[ProcessInfo]) -> (m: NameTotals)
    ensures
        totals_of(m@, procs@),
{
    let mut m = NameTotals::new();
    let mut i: usize = 0;
    while i < procs.len()
        invariant
            i <= procs.len(),
            forall|n: Seq<char>| #[trigger] lookup(m@, n) == if some_proc_named(procs@.take(i as int), n) {
                Some(cap_u32(cpu_total(procs@, n)))
            } else {
                None
            },
        decreases procs.len() - i,
    {
        let t = total_for(procs, &procs[i].name);
        let ghost before = m@;
        let ghost pre = procs@.take(i as int);
        let ghost post = procs@.take(i + 1);
        let ghost name = procs@[i as int].name@;
        m.set(procs[i].name.as_str(), t);
        proof {
            assert forall|n: Seq<char>| #[trigger] lookup(m@, n) == if some_proc_named(post, n) {
                Some(cap_u32(cpu_total(procs@, n)))
            } else {
                None
            } by {
                if n == name {
                    assert(post[i as int] == procs@[i as int]);
                } else {
                    if some_proc_named(pre, n) {
                        let j = choose|j: int| 0 <= j < pre.len() && pre[j].name@ == n;
                        assert(post[j] == pre[j]);
                    }
                    if some_proc_named(post, n) {
                        let j = choose|j: int| 0 <= j < post.len() && post[j].name@ == n;
                        assert(j < i);
                        assert(pre[j] == post[j]);
                    }
                }
            }
        }
        i += 1;
    }
    assert(procs@.take(procs.len() as int) =~= procs@);
    m
}

/// The pipeline on a list already collected: keep the processes at or above
/// `threshold`, give them to every reporter in order, and summarise.
pub fn run_on(procs: &[ProcessInfo], threshold: u8, reporters: &[Box<dyn Reporter>]) -> (r: (
    Vec<String>,
    Summary,
))
    ensures
        r.0.len() == reporters.len(),
        forall|i: int|
            0 <= i < reporters.len() ==> #[trigger] r.0@[i]@ == reporters@[i].rendered(
                hot(procs@, threshold),
            ),
        r.1.total == procs.len(),
        r.1.flagged == hot(procs@, threshold).len(),
        totals_of(r.1.by_name@, procs@),
{
    let flagged = high_cpu(procs, threshold);
    let mut reports: Vec<String> = Vec::new();
    let mut i: usize = 0;
    while i < reporters.len()
        invariant
            i <= reporters.len(),
            reports.len() == i,
            derefs(flagged@) == hot(procs@, threshold),
            forall|k: int|
                0 <= k < i ==> #[trigger] reports@[k]@ == reporters@[k].rendered(
                    hot(procs@, threshold),
                ),
        decreases reporters.len() - i,
    {
        let text = reporters[i].render(flagged.as_slice());
        reports.push(text);
        i += 1;
    }
    let summary = Summary { total: procs.len(), flagged: flagged.len(), by_name: totals_map(procs) };
    (reports, summary)
}

/// Collects once, then runs the pipeline on what came back. The collector
/// decides the list; whatever it returned, the reports and the summary are
/// those of `run_on` on that list.
pub fn run(collector: &dyn Collector, threshold: u8, reporters: &[Box<dyn Reporter>]) -> (r: (
    Vec<String>,
    Summary,
))
    ensures
        exists|procs: Seq<ProcessInfo>|
            {
                &&& r.0.len() == reporters.len()
                &&& forall|i: int|
                    0 <= i < reporters.len() ==> #[trigger] r.0@[i]@ == reporters@[i].rendered(
                        hot(procs, threshold),
                    )
                &&& r.1.total == procs.len()
                &&& r.1.flagged == hot(procs, threshold).len()
                &&& totals_of(r.1.by_name@, procs)
            },
{
    let procs = collector.collect();
    run_on(procs.as_slice(), threshold, reporters)
}

/// A collector that returns a fixed list.
pub struct FakeCollector(pub Vec<ProcessInfo>);

impl Collector for FakeCollector {
    fn collect(&self) -> (r: Vec<ProcessInfo>)
        ensures
            r@ == self.0@,
    {
        let mut out: Vec<ProcessInfo> = Vec::new();
        let mut i: usize = 0;
        while i < self.0.len()
            invariant
                i <= self.0.len(),
                out@ == self.0@.subrange(0, i as int),
            decreases self.0.len() - i,
        {
            out.push(self.0[i].duplicate());
            i += 1;
            assert(out@ =~= self.0@.subrange(0, i as int));
        }
        assert(self.0@.subrange(0, self.0.len() as int) =~= self.0@);
        out
    }
}

/// The JSON report is a JSON array of one object per flagged process: no
/// process gives `[]`; one process gives its object in brackets; and adding
/// a process to a non-empty list puts a comma after the last object and the
/// new process's object after it, inside the same brackets.
pub proof fn law_json_report_is_array(s: Seq<ProcessInfo>, p: ProcessInfo)
    ensures
        JsonReporter.rendered(Seq::<ProcessInfo>::empty()) == "[]"@,
        JsonReporter.rendered(seq![p]) == "["@ + json_item(p) + "]"@,
        s.len() > 0 ==> JsonReporter.rendered(s.push(p)) == JsonReporter.rendered(s).drop_last()
            + ","@ + JsonReporter.rendered(seq![p]).drop_first(),
{
    reveal_strlit("[]");
    reveal_strlit("[");
    reveal_strlit("]");
    let items = s.map_values(|q: ProcessInfo| json_item(q));
    let more = s.push(p).map_values(|q: ProcessInfo| json_item(q));
    assert(Seq::<ProcessInfo>::empty().map_values(|q: ProcessInfo| json_item(q)) =~= Seq::<Seq<char>>::empty());
    assert(seq![p].map_values(|q: ProcessInfo| json_item(q)) =~= seq![json_item(p)]);
    assert(JsonReporter.rendered(Seq::<ProcessInfo>::empty()) =~= "[]"@);
    let one = JsonReporter.rendered(seq![p]);
    assert(one.drop_first() =~= json_item(p) + "]"@);
    if s.len() > 0 {
        assert(more.drop_last() =~= items);
        assert(more.last() == json_item(p));
        assert(join(more, ","@) == join(items, ","@) + ","@ + json_item(p));
        assert(JsonReporter.rendered(s).drop_last() =~= "["@ + join(items, ","@));
        assert(JsonReporter.rendered(s.push(p)) =~= JsonReporter.rendered(s).drop_last() + ","@
            + one.drop_first());
    }
}

/// The text report is a header line and then one line per flagged process,
/// in order: adding a process appends exactly its line (pid, CPU with a
/// percent sign, and name, tab-separated) to the report.
pub proof fn law_text_report_lines(s: Seq<ProcessInfo>, p: ProcessInfo)
    ensures
        TextReporter.rendered(Seq::<ProcessInfo>::empty()) == "PID\tCPU\tNAME\n"@,
        TextReporter.rendered(s.push(p)) == TextReporter.rendered(s) + dec(p.pid as nat) + "\t"@
            + dec(p.cpu as nat) + "%\t"@ + p.name@ + "\n"@,
{
    assert(s.push(p).drop_last() =~= s);
    assert(TextReporter.rendered(Seq::<ProcessInfo>::empty()) =~= "PID\tCPU\tNAME\n"@);
    assert(TextReporter.rendered(s.push(p)) =~= TextReporter.rendered(s) + dec(p.pid as nat) + "\t"@
        + dec(p.cpu as nat) + "%\t"@ + p.name@ + "\n"@);
}

} // verus!
