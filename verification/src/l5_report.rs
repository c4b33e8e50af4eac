//! Report rendering: one trait, three formats, and a renderer that runs
//! any mix of them.
use vstd::prelude::*;
use crate::text::{dec, push_dec};

verus! {

/// Analysis results, read-only for every reporter.
#[derive(Debug, Clone, PartialEq)]
pub struct Stats {
    pub total: usize,
    pub errors: usize,
    pub top_pid: u32,
}

/// One report format.
pub trait Reporter {
    /// The text this reporter produces for `stats`.
    spec fn rendered(&self, stats: Stats) -> Seq<char>;

    fn render(&self, stats: &Stats) -> (out: String)
        ensures
            out@ == self.rendered(*stats),
    ;
}

pub struct TextReporter;

pub struct JsonReporter;

pub struct HtmlReporter;

/// Three `key: value` lines.
pub open spec fn text_spec(s: Stats) -> Seq<char> {
    "total: "@ + dec(s.total as nat) + "\nerrors: "@ + dec(s.errors as nat) + "\ntop_pid: "@ + dec(
        s.top_pid as nat,
    ) + "\n"@
}

/// A JSON object with the three fields, no white space.
pub open spec fn json_spec(s: Stats) -> Seq<char> {
    "{\"total\":"@ + dec(s.total as nat) + ",\"errors\":"@ + dec(s.errors as nat) + ",\"top_pid\":"@
        + dec(s.top_pid as nat) + "}"@
}

/// An HTML list with one item per field.
pub open spec fn html_spec(s: Stats) -> Seq<char> {
    "<ul><li>total: "@ + dec(s.total as nat) + "</li><li>errors: "@ + dec(s.errors as nat)
        + "</li><li>top_pid: "@ + dec(s.top_pid as nat) + "</li></ul>"@
}

impl Reporter for TextReporter {
    open spec fn rendered(&self, stats: Stats) -> Seq<char> {
        text_spec(stats)
    }

    fn render(&self, stats: &Stats) -> (out: String) {
        let mut out = String::new();
        out.push_str("total: ");
        push_dec(&mut out, stats.total as u64);
        out.push_str("\nerrors: ");
        push_dec(&mut out, stats.errors as u64);
        out.push_str("\ntop_pid: ");
        push_dec(&mut out, stats.top_pid as u64);
        out.push_str("\n");
        assert(out@ =~= text_spec(*stats));
        out
    }
}

impl Reporter for JsonReporter {
    open spec fn rendered(&self, stats: Stats) -> Seq<char> {
        json_spec(stats)
    }

    fn render(&self, stats: &Stats) -> (out: String) {
        let mut out = String::new();
        out.push_str("{\"total\":");
        push_dec(&mut out, stats.total as u64);
        out.push_str(",\"errors\":");
        push_dec(&mut out, stats.errors as u64);
        out.push_str(",\"top_pid\":");
        push_dec(&mut out, stats.top_pid as u64);
        out.push_str("}");
        assert(out@ =~= json_spec(*stats));
        out
    }
}

impl Reporter for HtmlReporter {
    open spec fn rendered(&self, stats: Stats) -> Seq<char> {
        html_spec(stats)
    }

    fn render(&self, stats: &Stats) -> (out: String) {
        let mut out = String::new();
        out.push_str("<ul><li>total: ");
        push_dec(&mut out, stats.total as u64);
        out.push_str("</li><li>errors: ");
        push_dec(&mut out, stats.errors as u64);
        out.push_str("</li><li>top_pid: ");
        push_dec(&mut out, stats.top_pid as u64);
        out.push_str("</li></ul>");
        assert(out@ =~= html_spec(*stats));
        out
    }
}

/// Runs every reporter on the same statistics, one report each, in order.
pub fn render_all(reporters: &[Box<dyn Reporter>], stats: &Stats) -> (out: Vec<String>)
    ensures
        out.len() == reporters.len(),
        forall|i: int| 0 <= i < reporters.len() ==> #[trigger] out@[i]@ == reporters@[i].rendered(*stats),
{
    let mut out: Vec<String> = Vec::new();
    let mut i: usize = 0;
    while i < reporters.len()
        invariant
            i <= reporters.len(),
            out.len() == i,
            forall|k: int| 0 <= k < i ==> #[trigger] out@[k]@ == reporters@[k].rendered(*stats),
        decreases reporters.len() - i,
    {
        let r = reporters[i].render(stats);
        out.push(r);
        i += 1;
    }
    out
}

} // verus!
