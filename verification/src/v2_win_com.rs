//! The platform-independent side of COM work: HRESULT codes and their parts,
//! records of calls with an aligned report, and a model of reference
//! counting.
use vstd::prelude::*;
use crate::text::{owned, lit, pad_right, push_pad_right, hex_width, push_hex_width};

verus! {

/// An HRESULT: negative values are failures, the others successes.
#[derive(Debug, Clone, Copy, PartialEq, Eq, Hash, Structural)]
pub struct Hresult(pub i32);

/// The 32 bits of an HRESULT, read as unsigned.
pub open spec fn hr_bits(h: Hresult) -> u32 {
    h.0 as u32
}

/// The hexadecimal form: `0x` and eight upper-case digits.
pub open spec fn hr_text(h: Hresult) -> Seq<char> {
    "0x"@ + hex_width(hr_bits(h) as nat, 8)
}

/// The description of an HRESULT: its name and meaning where it is one of
/// the named codes, a generic success or failure text otherwise.
pub open spec fn classify_spec(h: Hresult) -> Seq<char> {
    if h.0 == 0 {
        "S_OK 调用成功"@
    } else if h.0 == 1 {
        "S_FALSE 成功但未发生操作"@
    } else if h.0 == -2147467262 {
        "E_NOINTERFACE 不支持该接口（QueryInterface 失败）"@
    } else if h.0 == -2147467261 {
        "E_POINTER 非法指针"@
    } else if h.0 == -2147467259 {
        "E_FAIL 未指明的失败"@
    } else if h.0 == -2147024891 {
        "E_ACCESSDENIED 拒绝访问"@
    } else if h.0 == -2147417850 {
        "RPC_E_CHANGED_MODE 公寓模型冲突"@
    } else if h.0 >= 0 {
        "成功（未具名 HRESULT）"@
    } else {
        "失败（未具名 HRESULT）"@
    }
}

#[allow(non_snake_case)]
impl Hresult {
    /// `S_OK`: success.
    pub fn S_OK() -> (h: Hresult)
        ensures
            h.0 == 0,
    {
        Hresult(0)
    }

    /// `S_FALSE`: success, but nothing happened.
    pub fn S_FALSE() -> (h: Hresult)
        ensures
            h.0 == 1,
    {
        Hresult(1)
    }

    /// `E_NOINTERFACE` (0x80004002): the object lacks the interface asked for.
    pub fn E_NOINTERFACE() -> (h: Hresult)
        ensures
            h.0 == -2147467262,
    {
        Hresult(-2147467262)
    }

    /// `E_POINTER` (0x80004003): an invalid pointer.
    pub fn E_POINTER() -> (h: Hresult)
        ensures
            h.0 == -2147467261,
    {
        Hresult(-2147467261)
    }

    /// `E_FAIL` (0x80004005): an unspecified failure.
    pub fn E_FAIL() -> (h: Hresult)
        ensures
            h.0 == -2147467259,
    {
        Hresult(-2147467259)
    }

    /// `E_ACCESSDENIED` (0x80070005): access denied.
    pub fn E_ACCESSDENIED() -> (h: Hresult)
        ensures
            h.0 == -2147024891,
    {
        Hresult(-2147024891)
    }

    /// `RPC_E_CHANGED_MODE` (0x80010106): COM was set up on this thread with
    /// another apartment model.
    pub fn RPC_E_CHANGED_MODE() -> (h: Hresult)
        ensures
            h.0 == -2147417850,
    {
        Hresult(-2147417850)
    }

    /// `SUCCEEDED(hr)`.
    pub fn is_ok(self) -> (b: bool)
        ensures
            b == (self.0 >= 0),
    {
        self.0 >= 0
    }

    /// `FAILED(hr)`.
    pub fn is_err(self) -> (b: bool)
        ensures
            b == (self.0 < 0),
    {
        self.0 < 0
    }

    /// The severity bit (bit 31).
    pub fn severity(self) -> (s: u8)
        ensures
            s == hr_bits(self) / 0x8000_0000,
    {
        let u = self.0 as u32;
        assert((u >> 31u32) & 1u32 == u / 0x8000_0000) by (bit_vector);
        ((u >> 31u32) & 1u32) as u8
    }

    /// The facility (bits 16 to 26).
    pub fn facility(self) -> (f: u16)
        ensures
            f == (hr_bits(self) / 0x1_0000) % 0x800,
    {
        let u = self.0 as u32;
        assert((u >> 16u32) & 0x7FFu32 == (u / 0x1_0000) % 0x800) by (bit_vector);
        ((u >> 16u32) & 0x7FFu32) as u16
    }

    /// The code (the low 16 bits).
    pub fn code(self) -> (c: u16)
        ensures
            c == hr_bits(self) % 0x1_0000,
    {
        let u = self.0 as u32;
        assert(u & 0xFFFFu32 == u % 0x1_0000) by (bit_vector);
        (u & 0xFFFFu32) as u16
    }

    /// A readable description.
    pub fn classify(self) -> (r: &'static str)
        ensures
            r@ == classify_spec(self),
    {
        if self.0 == 0 {
            "S_OK 调用成功"
        } else if self.0 == 1 {
            "S_FALSE 成功但未发生操作"
        } else if self.0 == -2147467262 {
            "E_NOINTERFACE 不支持该接口（QueryInterface 失败）"
        } else if self.0 == -2147467261 {
            "E_POINTER 非法指针"
        } else if self.0 == -2147467259 {
            "E_FAIL 未指明的失败"
        } else if self.0 == -2147024891 {
            "E_ACCESSDENIED 拒绝访问"
        } else if self.0 == -2147417850 {
            "RPC_E_CHANGED_MODE 公寓模型冲突"
        } else if self.0 >= 0 {
            "成功（未具名 HRESULT）"
        } else {
            "失败（未具名 HRESULT）"
        }
    }

    /// The `Display` form: `0x` and eight upper-case hexadecimal digits.
    pub fn to_string(&self) -> (r: String)
        ensures
            r@ == hr_text(*self),
    {
        let mut r = lit("0x");
        push_hex_width(&mut r, self.0 as u32, 8);
        r
    }
}

/// The named HRESULT codes, by value: the seven codes this module knows,
/// each with its name.
pub open spec fn code_name(v: i32) -> Option<Seq<char>> {
    if v == 0 {
        Some("S_OK"@)
    } else if v == 1 {
        Some("S_FALSE"@)
    } else if v == 0x8000_4002u32 as i32 {
        Some("E_NOINTERFACE"@)
    } else if v == 0x8000_4003u32 as i32 {
        Some("E_POINTER"@)
    } else if v == 0x8000_4005u32 as i32 {
        Some("E_FAIL"@)
    } else if v == 0x8007_0005u32 as i32 {
        Some("E_ACCESSDENIED"@)
    } else if v == 0x8001_0106u32 as i32 {
        Some("RPC_E_CHANGED_MODE"@)
    } else {
        None
    }
}

/// Every named code is described by its own name: the description of each
/// of the seven named codes begins with that code's name. Every other value
/// gets the generic success or failure text, by its sign, and only those
/// values get it.
pub proof fn law_classify_names_each_code(h: Hresult)
    ensures
        code_name(h.0) matches Some(n) ==> classify_spec(h).take(n.len() as int) == n,
        code_name(h.0) is None && h.0 >= 0 ==> classify_spec(h) == "成功（未具名 HRESULT）"@,
        code_name(h.0) is None && h.0 < 0 ==> classify_spec(h) == "失败（未具名 HRESULT）"@,
        code_name(h.0) is Some ==> classify_spec(h) != "成功（未具名 HRESULT）"@
            && classify_spec(h) != "失败（未具名 HRESULT）"@,
{
    assert(0x8000_4002u32 as i32 == -2147467262i32) by (bit_vector);
    assert(0x8000_4003u32 as i32 == -2147467261i32) by (bit_vector);
    assert(0x8000_4005u32 as i32 == -2147467259i32) by (bit_vector);
    assert(0x8007_0005u32 as i32 == -2147024891i32) by (bit_vector);
    assert(0x8001_0106u32 as i32 == -2147417850i32) by (bit_vector);
    reveal_strlit("S_OK");
    reveal_strlit("S_FALSE");
    reveal_strlit("E_NOINTERFACE");
    reveal_strlit("E_POINTER");
    reveal_strlit("E_FAIL");
    reveal_strlit("E_ACCESSDENIED");
    reveal_strlit("RPC_E_CHANGED_MODE");
    reveal_strlit("S_OK 调用成功");
    reveal_strlit("S_FALSE 成功但未发生操作");
    reveal_strlit("E_NOINTERFACE 不支持该接口（QueryInterface 失败）");
    reveal_strlit("E_POINTER 非法指针");
    reveal_strlit("E_FAIL 未指明的失败");
    reveal_strlit("E_ACCESSDENIED 拒绝访问");
    reveal_strlit("RPC_E_CHANGED_MODE 公寓模型冲突");
    reveal_strlit("成功（未具名 HRESULT）");
    reveal_strlit("失败（未具名 HRESULT）");
    if code_name(h.0) is Some {
        let n = code_name(h.0)->0;
        assert(classify_spec(h).take(n.len() as int) =~= n);
        assert(classify_spec(h)[0] != '成' && classify_spec(h)[0] != '失');
    }
}

/// The severity bit is set exactly on failures, and success and failure
/// exclude each other.
pub proof fn law_severity_marks_failure(h: Hresult)
    ensures
        (hr_bits(h) / 0x8000_0000 == 1) <==> h.0 < 0,
        (hr_bits(h) / 0x8000_0000 == 0) <==> h.0 >= 0,
{
    let x = h.0;
    assert(((x as u32) / 0x8000_0000u32 == 1u32) <==> x < 0i32) by (bit_vector);
    assert(((x as u32) / 0x8000_0000u32 == 0u32) <==> x >= 0i32) by (bit_vector);
}

/// One COM call: which interface, which method, what it returned.
#[derive(Debug, Clone, PartialEq, Eq)]
pub struct CallRecord {
    pub interface: String,
    pub method: String,
    pub hr: Hresult,
}

impl CallRecord {
    pub fn new(interface: &str, method: &str, hr: Hresult) -> (r: Self)
        ensures
            r.interface@ == interface@,
            r.method@ == method@,
            r.hr == hr,
    {
        CallRecord { interface: owned(interface), method: owned(method), hr }
    }

    /// A successful call (`S_OK`).
    pub fn ok(interface: &str, method: &str) -> (r: Self)
        ensures
            r.interface@ == interface@,
            r.method@ == method@,
            r.hr.0 == 0,
    {
        CallRecord::new(interface, method, Hresult::S_OK())
    }

    /// A failed call.
    pub fn failed(interface: &str, method: &str, hr: Hresult) -> (r: Self)
        ensures
            r.interface@ == interface@,
            r.method@ == method@,
            r.hr == hr,
    {
        CallRecord::new(interface, method, hr)
    }

    /// The call succeeded.
    pub fn succeeded(&self) -> (b: bool)
        ensures
            b == (self.hr.0 >= 0),
    {
        self.hr.is_ok()
    }
}

/// The header line of the call report.
pub open spec fn report_header() -> Seq<char> {
    "INTERFACE        METHOD               HRESULT      STATUS\n"@
}

/// One line of the call report, columns left-aligned.
pub open spec fn report_row(r: CallRecord) -> Seq<char> {
    pad_right(r.interface@, 16) + " "@ + pad_right(r.method@, 20) + " "@ + pad_right(
        hr_text(r.hr),
        12,
    ) + " "@ + (if r.hr.0 >= 0 {
        "OK"@
    } else {
        "ERR"@
    }) + "\n"@
}

/// The rows, in order.
pub open spec fn report_rows(s: Seq<CallRecord>) -> Seq<char>
    decreases s.len(),
{
    if s.len() == 0 {
        seq![]
    } else {
        report_rows(s.drop_last()) + report_row(s.last())
    }
}

fn push_row(out: &mut String, r: &CallRecord)
    ensures
        final(out)@ == old(out)@ + report_row(*r),
{
    push_pad_right(out, r.interface.as_str(), 16);
    out.push_str(" ");
    push_pad_right(out, r.method.as_str(), 20);
    out.push_str(" ");
    let hr = r.hr.to_string();
    push_pad_right(out, hr.as_str(), 12);
    out.push_str(" ");
    if r.succeeded() {
        out.push_str("OK");
    } else {
        out.push_str("ERR");
    }
    out.push_str("\n");
    assert(final(out)@ =~= old(out)@ + report_row(*r));
}

/// The calls as an aligned table: a header line and one line per call.
pub fn format_call_report(records: &[CallRecord]) -> (out: String)
    ensures
        out@ == report_header() + report_rows(records@),
{
    let mut out = lit("INTERFACE        METHOD               HRESULT      STATUS\n");
    let mut i: usize = 0;
    while i < records.len()
        invariant
            i <= records.len(),
            out@ == report_header() + report_rows(records@.subrange(0, i as int)),
        decreases records.len() - i,
    {
        push_row(&mut out, &records[i]);
        proof {
            assert(records@.subrange(0, i + 1).drop_last() =~= records@.subrange(0, i as int));
        }
        i += 1;
        assert(out@ =~= report_header() + report_rows(records@.subrange(0, i as int)));
    }
    assert(records@.subrange(0, records.len() as int) =~= records@);
    out
}

/// A model of a COM object's reference count: one reference on creation,
/// one more per `AddRef`, one less per `Release`.
#[derive(Debug, Clone, PartialEq, Eq)]
pub struct RefCountLedger {
    count: i64,
}

impl View for RefCountLedger {
    type V = int;

    closed spec fn view(&self) -> int {
        self.count as int
    }
}

impl Default for RefCountLedger {
    fn default() -> (l: Self)
        ensures
            l@ == 1,
    {
        RefCountLedger::new()
    }
}

impl RefCountLedger {
    /// A new object holds one reference.
    pub fn new() -> (l: Self)
        ensures
            l@ == 1,
    {
        RefCountLedger { count: 1 }
    }

    /// `AddRef`: one reference more; returns the new count.
    pub fn add_ref(&mut self) -> (n: i64)
        requires
            old(self)@ < i64::MAX,
        ensures
            final(self)@ == old(self)@ + 1,
            n == final(self)@,
    {
        self.count = self.count + 1;
        self.count
    }

    /// `Release`: one reference less; returns the new count.
    pub fn release(&mut self) -> (n: i64)
        requires
            old(self)@ > i64::MIN,
        ensures
            final(self)@ == old(self)@ - 1,
            n == final(self)@,
    {
        self.count = self.count - 1;
        self.count
    }

    /// The current count.
    pub fn count(&self) -> (n: i64)
        ensures
            n == self@,
    {
        self.count
    }

    /// Every reference was released: the count is zero.
    pub fn is_balanced(&self) -> (b: bool)
        ensures
            b == (self@ == 0),
    {
        self.count == 0
    }

    /// Some reference was never released: the count is above zero.
    pub fn leaked(&self) -> (b: bool)
        ensures
            b == (self@ > 0),
    {
        self.count > 0
    }

    /// More releases than references: the count is below zero.
    pub fn over_released(&self) -> (b: bool)
        ensures
            b == (self@ < 0),
    {
        self.count < 0
    }
}

/// The count of a new ledger after `calls`, in order: `true` stands for an
/// `AddRef`, `false` for a `Release`. Each step is what `add_ref` and
/// `release` do to the count.
pub open spec fn count_after(calls: Seq<bool>) -> int
    decreases calls.len(),
{
    if calls.len() == 0 {
        1
    } else {
        count_after(calls.drop_last()) + if calls.last() {
            1int
        } else {
            -1int
        }
    }
}

/// The number of `AddRef` calls among `calls`.
pub open spec fn add_refs(calls: Seq<bool>) -> nat
    decreases calls.len(),
{
    if calls.len() == 0 {
        0
    } else {
        add_refs(calls.drop_last()) + if calls.last() {
            1nat
        } else {
            0nat
        }
    }
}

/// The number of `Release` calls among `calls`.
pub open spec fn releases(calls: Seq<bool>) -> nat
    decreases calls.len(),
{
    if calls.len() == 0 {
        0
    } else {
        releases(calls.drop_last()) + if calls.last() {
            0nat
        } else {
            1nat
        }
    }
}

/// Whatever the order of the calls, a new ledger's count after them is one
/// plus the `AddRef`s minus the `Release`s; and it is then exactly one of
/// balanced (zero), leaked (above zero) or over-released (below zero).
/// A ledger whose count is `count_after(calls)` has count
/// `count_after(calls.push(true))` after `add_ref` and
/// `count_after(calls.push(false))` after `release`.
pub proof fn law_count_tracks_calls(calls: Seq<bool>, l: RefCountLedger, after_add: RefCountLedger, after_release: RefCountLedger)
    requires
        l@ == count_after(calls),
        after_add@ == l@ + 1,
        after_release@ == l@ - 1,
    ensures
        count_after(calls) == 1 + add_refs(calls) - releases(calls),
        after_add@ == count_after(calls.push(true)),
        after_release@ == count_after(calls.push(false)),
        (l@ == 0) as int + (l@ > 0) as int + (l@ < 0) as int == 1,
{
    lemma_count_after(calls);
    assert(calls.push(true).drop_last() =~= calls);
    assert(calls.push(false).drop_last() =~= calls);
}

proof fn lemma_count_after(calls: Seq<bool>)
    ensures
        count_after(calls) == 1 + add_refs(calls) - releases(calls),
    decreases calls.len(),
{
    if calls.len() > 0 {
        lemma_count_after(calls.drop_last());
    }
}

/// The five sample calls: four that succeed, then a `QueryInterface` that
/// fails with `E_NOINTERFACE`.
pub open spec fn is_sample_log(v: Seq<CallRecord>) -> bool {
    &&& v.len() == 5
    &&& v[0].interface@ == "IShellLinkW"@ && v[0].method@ == "CoCreateInstance"@ && v[0].hr.0 == 0
    &&& v[1].interface@ == "IShellLinkW"@ && v[1].method@ == "SetPath"@ && v[1].hr.0 == 0
    &&& v[2].interface@ == "IPersistFile"@ && v[2].method@ == "QueryInterface"@ && v[2].hr.0 == 0
    &&& v[3].interface@ == "IPersist"@ && v[3].method@ == "GetClassID(impl)"@ && v[3].hr.0 == 0
    &&& v[4].interface@ == "IFoo"@ && v[4].method@ == "QueryInterface"@ && v[4].hr.0 == -2147467262
}

/// The calls that stand in for a real COM session where none can run.
pub fn sample_call_log() -> (v: Vec<CallRecord>)
    ensures
        is_sample_log(v@),
{
    let mut v: Vec<CallRecord> = Vec::new();
    v.push(CallRecord::ok("IShellLinkW", "CoCreateInstance"));
    v.push(CallRecord::ok("IShellLinkW", "SetPath"));
    v.push(CallRecord::ok("IPersistFile", "QueryInterface"));
    v.push(CallRecord::ok("IPersist", "GetClassID(impl)"));
    v.push(CallRecord::failed("IFoo", "QueryInterface", Hresult::E_NOINTERFACE()));
    v
}

/// The summary text where no COM is available: a notice and the report of
/// the sample calls.
pub open spec fn stub_summary(sample: Seq<CallRecord>) -> Seq<char> {
    "COM / WinRT 仅在 Windows 可用；以下为样例报告（桩）：\n"@ + report_header() + report_rows(sample)
}

/// A summary of COM support. This build has no COM: it reports on the sample
/// calls.
pub fn com_support_summary() -> (r: String)
    ensures
        exists|sample: Seq<CallRecord>| is_sample_log(sample) && r@ == stub_summary(sample),
{
    let sample = sample_call_log();
    let mut r = lit("COM / WinRT 仅在 Windows 可用；以下为样例报告（桩）：\n");
    let table = format_call_report(sample.as_slice());
    r.push_str(table.as_str());
    assert(r@ =~= stub_summary(sample@));
    r
}

/// The summary after a real COM session: the report of its calls, or the
/// failure message where the session failed.
pub fn probe_summary(outcome: Result<Vec<CallRecord>, String>) -> (r: String)
    ensures
        match outcome {
            Ok(log) => r@ == report_header() + report_rows(log@),
            Err(e) => r@ == "COM 探测失败："@ + e@,
        },
{
    match outcome {
        Ok(log) => format_call_report(log.as_slice()),
        Err(e) => {
            let mut r = lit("COM 探测失败：");
            r.push_str(e.as_str());
            r
        },
    }
}

} // verus!
