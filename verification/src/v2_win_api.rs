//! The platform-independent side of a process lister: the process record,
//! a case-insensitive name filter, a stable sort by pid, and an aligned table.
use vstd::prelude::*;
use crate::v2_win_gui::{utf16, utf16_units};
use crate::text::{owned, lit, dec, pad_left, push_pad_left, dec_string, contains_sub, str_contains};

verus! {

/// `<[T]>::swap`: exchanges two elements of a slice; both indices must be in
/// bounds, as the slice panics otherwise.
pub assume_specification<Val>[ <[Val]>::swap ](s: &mut [Val], a: usize, b: usize)
    requires
        a < old(s)@.len(),
        b < old(s)@.len(),
    ensures
        final(s)@ == old(s)@.update(a as int, old(s)@[b as int]).update(b as int, old(s)@[a as int]),
;

/// One process: its id and its image name.
#[derive(Debug, Clone, PartialEq, Eq)]
pub struct ProcessInfo {
    pub pid: u32,
    pub name: String,
}

impl ProcessInfo {
    pub fn new(pid: u32, name: &str) -> (p: Self)
        ensures
            p.pid == pid,
            p.name@ == name@,
    {
        ProcessInfo { pid, name: owned(name) }
    }
}

/// The text `str::to_lowercase` gives: every character mapped to its Unicode
/// lower case, which can change the length.
pub uninterp spec fn lowercase(s: Seq<char>) -> Seq<char>;

/// `str::to_lowercase`. Unicode's case tables decide the text; the contract
/// names the result and does not spell it out.
#[verifier::external_body]
fn to_lowercase(s: &str) -> (r: String)
    ensures
        r@ == lowercase(s@),
{
    s.to_lowercase()
}

/// The process's name holds the needle, both lower-cased.
pub open spec fn name_matches(p: ProcessInfo, needle: Seq<char>) -> bool {
    contains_sub(lowercase(p.name@), lowercase(needle))
}

/// The processes of `s` whose name matches, in order.
pub open spec fn matching(s: Seq<ProcessInfo>, needle: Seq<char>) -> Seq<ProcessInfo>
    decreases s.len(),
{
    if s.len() == 0 {
        seq![]
    } else if name_matches(s.last(), needle) {
        matching(s.drop_last(), needle).push(s.last())
    } else {
        matching(s.drop_last(), needle)
    }
}

/// The processes whose name holds `needle`, ignoring case, in order and
/// borrowed from `procs`.
pub fn filter_by_name<'a>(procs: &'a [ProcessInfo], needle: &str) -> (r: Vec<&'a ProcessInfo>)
    ensures
        r@.map_values(|p: &ProcessInfo| *p) == matching(procs@, needle@),
{
    let n = to_lowercase(needle);
    let mut out: Vec<&'a ProcessInfo> = Vec::new();
    let mut i: usize = 0;
    while i < procs.len()
        invariant
            i <= procs.len(),
            n@ == lowercase(needle@),
            out@.map_values(|p: &ProcessInfo| *p) == matching(procs@.take(i as int), needle@),
        decreases procs.len() - i,
    {
        proof {
            assert(procs@.take(i + 1).drop_last() =~= procs@.take(i as int));
        }
        let p = &procs[i];
        let lower = to_lowercase(p.name.as_str());
        if str_contains(lower.as_str(), n.as_str()) {
            out.push(p);
            assert(out@.map_values(|p: &ProcessInfo| *p) =~= matching(
                procs@.take(i as int),
                needle@,
            ).push(*p));
        }
        i += 1;
    }
    assert(procs@.take(procs.len() as int) =~= procs@);
    out
}

/// The processes of `s` with the pid `k`, in order.
pub open spec fn with_pid(s: Seq<ProcessInfo>, k: u32) -> Seq<ProcessInfo>
    decreases s.len(),
{
    if s.len() == 0 {
        seq![]
    } else if s.last().pid == k {
        with_pid(s.drop_last(), k).push(s.last())
    } else {
        with_pid(s.drop_last(), k)
    }
}

/// The pids of `s` do not decrease.
pub open spec fn sorted_by_pid(s: Seq<ProcessInfo>) -> bool {
    forall|a: int, b: int| 0 <= a < b < s.len() ==> (#[trigger] s[a]).pid <= (#[trigger] s[b]).pid
}

proof fn lemma_with_pid_concat(a: Seq<ProcessInfo>, b: Seq<ProcessInfo>, k: u32)
    ensures
        with_pid(a + b, k) == with_pid(a, k) + with_pid(b, k),
    decreases b.len(),
{
    if b.len() == 0 {
        assert(a + b =~= a);
        assert(with_pid(a, k) + with_pid(b, k) =~= with_pid(a, k));
    } else {
        lemma_with_pid_concat(a, b.drop_last(), k);
        assert((a + b).drop_last() =~= a + b.drop_last());
        assert((a + b).last() == b.last());
        if b.last().pid == k {
            assert(with_pid(a, k) + with_pid(b.drop_last(), k).push(b.last()) =~= (with_pid(a, k)
                + with_pid(b.drop_last(), k)).push(b.last()));
        }
    }
}

/// Exchanging neighbours with different pids keeps, for every pid, the
/// processes with that pid in the same order.
proof fn lemma_swap_keeps_groups(s: Seq<ProcessInfo>, j: int, k: u32)
    requires
        1 <= j < s.len(),
        s[j - 1].pid != s[j].pid,
    ensures
        with_pid(s.update(j - 1, s[j]).update(j, s[j - 1]), k) == with_pid(s, k),
{
    let t = s.update(j - 1, s[j]).update(j, s[j - 1]);
    let pre = s.subrange(0, j - 1);
    let post = s.subrange(j + 1, s.len() as int);
    let xy = seq![s[j - 1], s[j]];
    let yx = seq![s[j], s[j - 1]];
    assert(s =~= pre + xy + post);
    assert(t =~= pre + yx + post);
    lemma_with_pid_concat(pre + xy, post, k);
    lemma_with_pid_concat(pre, xy, k);
    lemma_with_pid_concat(pre + yx, post, k);
    lemma_with_pid_concat(pre, yx, k);
    assert(xy.drop_last() =~= seq![s[j - 1]]);
    assert(yx.drop_last() =~= seq![s[j]]);
    assert(seq![s[j - 1]].drop_last() =~= Seq::<ProcessInfo>::empty());
    assert(seq![s[j]].drop_last() =~= Seq::<ProcessInfo>::empty());
    let x = s[j - 1];
    let y = s[j];
    assert(with_pid(Seq::<ProcessInfo>::empty(), k) =~= Seq::<ProcessInfo>::empty());
    if x.pid == k {
        assert(with_pid(seq![x], k) =~= seq![x]);
        assert(with_pid(seq![y], k) =~= Seq::<ProcessInfo>::empty());
        assert(with_pid(xy, k) =~= seq![x]);
        assert(with_pid(yx, k) =~= seq![x]);
    } else if y.pid == k {
        assert(with_pid(seq![x], k) =~= Seq::<ProcessInfo>::empty());
        assert(with_pid(seq![y], k) =~= seq![y]);
        assert(with_pid(xy, k) =~= seq![y]);
        assert(with_pid(yx, k) =~= seq![y]);
    } else {
        assert(with_pid(seq![x], k) =~= Seq::<ProcessInfo>::empty());
        assert(with_pid(seq![y], k) =~= Seq::<ProcessInfo>::empty());
        assert(with_pid(xy, k) =~= Seq::<ProcessInfo>::empty());
        assert(with_pid(yx, k) =~= Seq::<ProcessInfo>::empty());
    }
}

/// Sorts by pid, ascending and stably: processes with equal pids keep their
/// order.
pub fn sort_by_pid(procs: &mut [ProcessInfo])
    ensures
        sorted_by_pid(final(procs)@),
        forall|k: u32| #[trigger] with_pid(final(procs)@, k) == with_pid(old(procs)@, k),
        final(procs)@.len() == old(procs)@.len(),
{
    let n = procs.len();
    let mut i: usize = 1;
    if n == 0 {
        return;
    }
    while i < n
        invariant
            1 <= i <= n,
            n == procs@.len(),
            n == old(procs)@.len(),
            forall|a: int, b: int| 0 <= a < b < i ==> (#[trigger] procs@[a]).pid <= (#[trigger] procs@[b]).pid,
            forall|k: u32| #[trigger] with_pid(procs@, k) == with_pid(old(procs)@, k),
        decreases n - i,
    {
        let mut j: usize = i;
        while j > 0 && procs[j - 1].pid > procs[j].pid
            invariant
                0 <= j <= i < n,
                n == procs@.len(),
                forall|a: int, b: int| 0 <= a < b < j ==> (#[trigger] procs@[a]).pid <= (#[trigger] procs@[b]).pid,
                forall|a: int, b: int| j < a < b <= i ==> (#[trigger] procs@[a]).pid <= (#[trigger] procs@[b]).pid,
                forall|a: int, b: int| 0 <= a < j < b <= i ==> (#[trigger] procs@[a]).pid <= (#[trigger] procs@[b]).pid,
                forall|b: int| j < b <= i ==> procs@[j as int].pid < (#[trigger] procs@[b]).pid,
                forall|k: u32| #[trigger] with_pid(procs@, k) == with_pid(old(procs)@, k),
            decreases j,
        {
            let ghost before = procs@;
            procs.swap(j - 1, j);
            proof {
                assert(procs@ == before.update(j - 1, before[j as int]).update(j as int, before[j - 1]));
                assert forall|k: u32| #[trigger] with_pid(procs@, k) == with_pid(old(procs)@, k) by {
                    lemma_swap_keeps_groups(before, j as int, k);
                }
            }
            j -= 1;
        }
        i += 1;
    }
}

/// The header line of the process table.
pub open spec fn table_header() -> Seq<char> {
    "   PID  NAME\n"@
}

/// One row: the pid right-aligned in six columns, two spaces, the name.
pub open spec fn table_row(p: ProcessInfo) -> Seq<char> {
    pad_left(dec(p.pid as nat), 6) + "  "@ + p.name@ + "\n"@
}

/// The rows, in order.
pub open spec fn table_rows(s: Seq<ProcessInfo>) -> Seq<char>
    decreases s.len(),
{
    if s.len() == 0 {
        seq![]
    } else {
        table_rows(s.drop_last()) + table_row(s.last())
    }
}

/// The processes as an aligned table: a header line and one row each.
pub fn format_table(procs: &[ProcessInfo]) -> (out: String)
    ensures
        out@ == table_header() + table_rows(procs@),
{
    let mut out = lit("   PID  NAME\n");
    let mut i: usize = 0;
    while i < procs.len()
        invariant
            i <= procs.len(),
            out@ == table_header() + table_rows(procs@.take(i as int)),
        decreases procs.len() - i,
    {
        proof {
            assert(procs@.take(i + 1).drop_last() =~= procs@.take(i as int));
        }
        let p = &procs[i];
        let pid = dec_string(p.pid as u64);
        push_pad_left(&mut out, pid.as_str(), 6);
        out.push_str("  ");
        out.push_str(p.name.as_str());
        out.push_str("\n");
        i += 1;
        assert(out@ =~= table_header() + table_rows(procs@.take(i as int)));
    }
    assert(procs@.take(procs.len() as int) =~= procs@);
    out
}

/// The five sample processes, in this order.
pub open spec fn is_sample_processes(v: Seq<ProcessInfo>) -> bool {
    &&& v.len() == 5
    &&& v[0].pid == 4 && v[0].name@ == "System"@
    &&& v[1].pid == 1280 && v[1].name@ == "explorer.exe"@
    &&& v[2].pid == 2048 && v[2].name@ == "Code.exe"@
    &&& v[3].pid == 640 && v[3].name@ == "svchost.exe"@
    &&& v[4].pid == 9001 && v[4].name@ == "cargo.exe"@
}

/// The processes that stand in for a real listing where the system offers
/// none.
pub fn sample_processes() -> (v: Vec<ProcessInfo>)
    ensures
        is_sample_processes(v@),
{
    let mut v: Vec<ProcessInfo> = Vec::new();
    v.push(ProcessInfo::new(4, "System"));
    v.push(ProcessInfo::new(1280, "explorer.exe"));
    v.push(ProcessInfo::new(2048, "Code.exe"));
    v.push(ProcessInfo::new(640, "svchost.exe"));
    v.push(ProcessInfo::new(9001, "cargo.exe"));
    v
}

/// The processes of this system. This build has no process snapshot API: it
/// lists the sample processes.
pub fn list_processes() -> (v: Vec<ProcessInfo>)
    ensures
        is_sample_processes(v@),
{
    sample_processes()
}

/// A high (leading) surrogate.
pub open spec fn is_high(u: u16) -> bool {
    0xD800 <= u < 0xDC00
}

/// A low (trailing) surrogate.
pub open spec fn is_low(u: u16) -> bool {
    0xDC00 <= u < 0xE000
}

/// UTF-16 decoded, each unpaired surrogate replaced by U+FFFD: a high
/// surrogate followed by a low one is one character; any other surrogate
/// is U+FFFD; every other unit is the character of that code.
pub open spec fn utf16_lossy(u: Seq<u16>) -> Seq<char>
    decreases u.len(),
{
    if u.len() == 0 {
        seq![]
    } else if u.len() >= 2 && is_high(u[0]) && is_low(u[1]) {
        seq![(0x10000 + (u[0] - 0xD800) * 0x400 + (u[1] - 0xDC00)) as char] + utf16_lossy(
            u.subrange(2, u.len() as int),
        )
    } else if is_high(u[0]) || is_low(u[0]) {
        seq!['\u{FFFD}'] + utf16_lossy(u.subrange(1, u.len() as int))
    } else {
        seq![u[0] as char] + utf16_lossy(u.subrange(1, u.len() as int))
    }
}

proof fn lemma_utf16_front(c: char, cs: Seq<char>)
    ensures
        utf16(seq![c] + cs) == utf16_units(c) + utf16(cs),
    decreases cs.len(),
{
    if cs.len() == 0 {
        assert((seq![c] + cs).drop_last() =~= Seq::<char>::empty());
        assert((seq![c] + cs).last() == c);
        assert(utf16(Seq::<char>::empty()) =~= Seq::<u16>::empty());
        assert(utf16(seq![c] + cs) =~= utf16_units(c));
        assert(utf16_units(c) + utf16(cs) =~= utf16_units(c));
    } else {
        lemma_utf16_front(c, cs.drop_last());
        assert((seq![c] + cs).drop_last() =~= seq![c] + cs.drop_last());
        assert(utf16_units(c) + utf16(cs.drop_last()) + utf16_units(cs.last()) =~= utf16_units(c) + (utf16(cs.drop_last()) + utf16_units(cs.last())));
    }
}

proof fn lemma_decode_units(c: char, rest: Seq<u16>)
    ensures
        utf16_lossy(utf16_units(c) + rest) == seq![c] + utf16_lossy(rest),
{
    let v = c as u32;
    let u = utf16_units(c) + rest;
    if v < 0x10000 {
        assert(u[0] == v as u16);
        assert(!is_high(u[0]) && !is_low(u[0]));
        assert(u.subrange(1, u.len() as int) =~= rest);
        assert((u[0] as char) == c);
    } else {
        let w = (v - 0x10000) as u32;
        assert(u[0] == (0xD800 + w / 0x400) as u16);
        assert(u[1] == (0xDC00 + w % 0x400) as u16);
        assert(w < 0x100000);
        assert(is_high(u[0]) && is_low(u[1]));
        assert(u.subrange(2, u.len() as int) =~= rest);
        assert(0x10000 + (u[0] - 0xD800) * 0x400 + (u[1] - 0xDC00) == v);
    }
}

/// Units that encode a string decode to that string.
pub proof fn lemma_utf16_round_trip(cs: Seq<char>)
    ensures
        utf16_lossy(utf16(cs)) == cs,
    decreases cs.len(),
{
    if cs.len() > 0 {
        let c = cs[0];
        let t = cs.drop_first();
        assert(cs =~= seq![c] + t);
        lemma_utf16_front(c, t);
        lemma_decode_units(c, utf16(t));
        lemma_utf16_round_trip(t);
    } else {
        assert(utf16(cs) =~= Seq::<u16>::empty());
    }
}

/// `String::from_utf16_lossy`: decodes UTF-16, putting U+FFFD in place of
/// each unpaired surrogate.
#[verifier::external_body]
fn from_utf16_lossy(units: &[u16]) -> (s: String)
    ensures
        s@ == utf16_lossy(units@),
{
    String::from_utf16_lossy(units)
}

/// `n` is where the text of a NUL-terminated buffer ends: no NUL before it,
/// and a NUL at it unless it is the end of the buffer.
pub open spec fn text_end(buf: Seq<u16>, n: int) -> bool {
    &&& 0 <= n <= buf.len()
    &&& forall|i: int| 0 <= i < n ==> buf[i] != 0
    &&& n < buf.len() ==> buf[n] == 0
}

/// The image name in a fixed, NUL-terminated UTF-16 buffer: the units
/// before the first NUL (all of them where there is none), decoded.
pub fn exe_name(buf: &[u16]) -> (r: String)
    ensures
        exists|n: int| text_end(buf@, n) && r@ == utf16_lossy(buf@.take(n)),
        forall|n: int, cs: Seq<char>| text_end(buf@, n) && utf16(cs) == buf@.take(n) ==> r@ == cs,
{
    let mut len: usize = 0;
    while len < buf.len() && buf[len] != 0
        invariant
            len <= buf.len(),
            forall|i: int| 0 <= i < len ==> buf@[i] != 0,
        decreases buf.len() - len,
    {
        len += 1;
    }
    let units = vstd::slice::slice_subrange(buf, 0, len);
    let r = from_utf16_lossy(units);
    proof {
        assert(units@ =~= buf@.take(len as int));
        assert(text_end(buf@, len as int));
        assert forall|n: int, cs: Seq<char>| text_end(buf@, n) && utf16(cs) == buf@.take(n) implies r@ == cs by {
            if n < len {
                assert(buf@[n] == 0);
            } else if n > len {
                assert(buf@[len as int] != 0);
            }
            lemma_utf16_round_trip(cs);
        }
    }
    r
}

} // verus!
