//! A system-information report: validated host facts, their canonical text
//! and its FNV-1a fingerprint. Where the facts come from is a probe's
//! business; the report only models and checks them.
use vstd::prelude::*;
use vstd::utf8::encode_utf8;
use crate::text::{trim, trim_owned, lit, dec, push_dec};

verus! {

/// The version of the report's layout, part of its canonical text.
pub const SCHEMA_VERSION: u32 = 1;

/// Why a report cannot be built.
#[derive(Debug, PartialEq, Eq)]
pub enum CollectError {
    /// The probe gave an empty or blank host name.
    EmptyHostname,
    /// The probe reported no logical CPU.
    NoCpus,
    /// The probe itself failed; the text says how.
    Probe(String),
}

impl CollectError {
    /// A copy with the same variant and text.
    pub fn duplicate(&self) -> (r: CollectError)
        ensures
            r == *self,
    {
        match self {
            CollectError::EmptyHostname => CollectError::EmptyHostname,
            CollectError::NoCpus => CollectError::NoCpus,
            CollectError::Probe(s) => CollectError::Probe(s.clone()),
        }
    }

    pub open spec fn message_spec(self) -> Seq<char> {
        match self {
            CollectError::EmptyHostname => "平台探针返回空主机名"@,
            CollectError::NoCpus => "平台报告逻辑 CPU 数为 0"@,
            CollectError::Probe(s) => "平台探针失败："@ + s@,
        }
    }

    /// The error message, as the `Display` form shows it.
    pub fn message(&self) -> (r: String)
        ensures
            r@ == self.message_spec(),
    {
        match self {
            CollectError::EmptyHostname => lit("平台探针返回空主机名"),
            CollectError::NoCpus => lit("平台报告逻辑 CPU 数为 0"),
            CollectError::Probe(s) => {
                let mut r = lit("平台探针失败：");
                r.push_str(s.as_str());
                r
            },
        }
    }
}

/// A host name: trimmed and not empty.
#[derive(Debug, PartialEq, Eq)]
pub struct Hostname(String);

impl View for Hostname {
    type V = Seq<char>;

    closed spec fn view(&self) -> Seq<char> {
        self.0@
    }
}

impl Hostname {
    /// Trims the raw name; a name that is empty once trimmed is refused.
    pub fn new(raw: &str) -> (r: Result<Hostname, CollectError>)
        ensures
            trim(raw@).len() == 0 ==> r == Err::<Hostname, CollectError>(CollectError::EmptyHostname),
            trim(raw@).len() > 0 ==> (r matches Ok(h) && h@ == trim(raw@)),
    {
        let trimmed = trim_owned(raw);
        if trimmed.as_str().is_empty() {
            return Err(CollectError::EmptyHostname);
        }
        Ok(Hostname(trimmed))
    }

    pub fn as_str(&self) -> (r: &str)
        ensures
            r@ == self@,
    {
        self.0.as_str()
    }

    /// A copy of the same name.
    pub fn duplicate(&self) -> (r: Hostname)
        ensures
            r == *self,
    {
        Hostname(self.0.clone())
    }
}

/// A count of logical CPUs: at least one.
#[derive(Debug, Clone, Copy, PartialEq, Eq, Structural)]
pub struct CpuCount(u32);

impl View for CpuCount {
    type V = u32;

    closed spec fn view(&self) -> u32 {
        self.0
    }
}

impl CpuCount {
    /// Zero is refused.
    pub fn new(n: u32) -> (r: Result<CpuCount, CollectError>)
        ensures
            n == 0 ==> r == Err::<CpuCount, CollectError>(CollectError::NoCpus),
            n > 0 ==> (r matches Ok(c) && c@ == n),
    {
        if n == 0 {
            return Err(CollectError::NoCpus);
        }
        Ok(CpuCount(n))
    }

    pub fn get(self) -> (n: u32)
        ensures
            n == self@,
    {
        self.0
    }
}

/// The operating-system family.
#[derive(Debug, Clone, Copy, PartialEq, Eq, Structural)]
pub enum OsFamily {
    Windows,
    MacOs,
    Linux,
    Other,
}

/// The short, stable name of a family.
pub open spec fn os_name(o: OsFamily) -> Seq<char> {
    match o {
        OsFamily::Windows => "windows"@,
        OsFamily::MacOs => "macos"@,
        OsFamily::Linux => "linux"@,
        OsFamily::Other => "other"@,
    }
}

impl OsFamily {
    pub fn as_str(self) -> (r: &'static str)
        ensures
            r@ == os_name(self),
    {
        match self {
            OsFamily::Windows => "windows",
            OsFamily::MacOs => "macos",
            OsFamily::Linux => "linux",
            OsFamily::Other => "other",
        }
    }
}

/// Where the raw host facts come from; each platform, and each test, has
/// its own.
pub trait HostProbe {
    /// The raw host name, unchecked.
    fn raw_hostname(&self) -> Result<String, CollectError>;

    /// The number of logical CPUs.
    fn logical_cpus(&self) -> Result<u32, CollectError>;

    /// The operating-system family.
    fn os_family(&self) -> OsFamily;
}

/// A validated report.
#[derive(Debug, PartialEq, Eq)]
pub struct SystemReport {
    pub schema_version: u32,
    pub os_family: OsFamily,
    pub hostname: Hostname,
    pub logical_cpus: CpuCount,
}

/// The canonical text of a report: fixed field order and format.
pub open spec fn canonical(r: SystemReport) -> Seq<char> {
    "schema="@ + dec(r.schema_version as nat) + ";os="@ + os_name(r.os_family) + ";host="@
        + r.hostname@ + ";cpus="@ + dec(r.logical_cpus@ as nat)
}

/// The FNV-1a offset basis.
pub open spec fn fnv_basis() -> u64 {
    0xcbf2_9ce4_8422_2325
}

/// The FNV-1a 64-bit prime.
pub open spec fn fnv_prime() -> u64 {
    0x0000_0100_0000_01b3
}

/// FNV-1a over `bytes`: for each byte, xor it in, then multiply by the prime
/// modulo 2^64.
pub open spec fn fnv1a(bytes: Seq<u8>) -> u64
    decreases bytes.len(),
{
    if bytes.len() == 0 {
        fnv_basis()
    } else {
        vstd::wrapping::u64_specs::wrapping_mul(fnv1a(bytes.drop_last()) ^ (bytes.last() as u64), fnv_prime())
    }
}

/// The FNV-1a fingerprint of the UTF-8 bytes of `s`.
pub fn fingerprint(s: &str) -> (h: u64)
    ensures
        h == fnv1a(encode_utf8(s@)),
{
    let bytes = s.as_bytes();
    let mut hash: u64 = 0xcbf2_9ce4_8422_2325;
    let mut i: usize = 0;
    while i < bytes.len()
        invariant
            i <= bytes.len(),
            bytes@ == encode_utf8(s@),
            hash == fnv1a(bytes@.take(i as int)),
        decreases bytes.len() - i,
    {
        proof {
            assert(bytes@.take(i + 1).drop_last() =~= bytes@.take(i as int));
        }
        hash = hash ^ (bytes[i] as u64);
        hash = hash.wrapping_mul(0x0000_0100_0000_01b3);
        i += 1;
    }
    assert(bytes@.take(bytes.len() as int) =~= bytes@);
    hash
}

impl SystemReport {
    /// The canonical text: schema, family, host and CPU count.
    pub fn to_canonical(&self) -> (r: String)
        ensures
            r@ == canonical(*self),
    {
        let mut r = lit("schema=");
        push_dec(&mut r, self.schema_version as u64);
        r.push_str(";os=");
        r.push_str(self.os_family.as_str());
        r.push_str(";host=");
        r.push_str(self.hostname.as_str());
        r.push_str(";cpus=");
        push_dec(&mut r, self.logical_cpus.get() as u64);
        r
    }

    /// The fingerprint of the canonical text.
    pub fn fingerprint(&self) -> (h: u64)
        ensures
            h == fnv1a(encode_utf8(canonical(*self))),
    {
        let c = self.to_canonical();
        fingerprint(c.as_str())
    }
}

/// What the facts a probe gave make of a report: the host-name result
/// first, then the CPU-count result; the first failure is the error.
pub open spec fn assembled(
    r: Result<SystemReport, CollectError>,
    host: Result<String, CollectError>,
    cpus: Result<u32, CollectError>,
    os: OsFamily,
) -> bool {
    match host {
        Err(e) => r == Err::<SystemReport, CollectError>(e),
        Ok(h) => if trim(h@).len() == 0 {
            r == Err::<SystemReport, CollectError>(CollectError::EmptyHostname)
        } else {
            match cpus {
                Err(e) => r == Err::<SystemReport, CollectError>(e),
                Ok(n) => if n == 0 {
                    r == Err::<SystemReport, CollectError>(CollectError::NoCpus)
                } else {
                    r matches Ok(rep) && rep.schema_version == SCHEMA_VERSION && rep.os_family == os
                        && rep.hostname@ == trim(h@) && rep.logical_cpus@ == n
                },
            }
        },
    }
}

/// Builds a report from the facts a probe gave.
pub fn assemble_report(
    host: Result<String, CollectError>,
    cpus: Result<u32, CollectError>,
    os: OsFamily,
) -> (r: Result<SystemReport, CollectError>)
    ensures
        assembled(r, host, cpus, os),
{
    let hostname = match host {
        Err(e) => {
            return Err(e);
        },
        Ok(h) => match Hostname::new(h.as_str()) {
            Err(e) => {
                return Err(e);
            },
            Ok(n) => n,
        },
    };
    let logical_cpus = match cpus {
        Err(e) => {
            return Err(e);
        },
        Ok(n) => match CpuCount::new(n) {
            Err(e) => {
                return Err(e);
            },
            Ok(c) => c,
        },
    };
    Ok(SystemReport { schema_version: SCHEMA_VERSION, os_family: os, hostname, logical_cpus })
}

/// Reads the facts from a probe, the host name first, and builds the report.
/// The probe decides the facts; whatever it gave, the result is the report
/// `assemble_report` makes of them.
pub fn collect_report<P: HostProbe + ?Sized>(probe: &P) -> (r: Result<SystemReport, CollectError>)
    ensures
        exists|host: Result<String, CollectError>, cpus: Result<u32, CollectError>, os: OsFamily|
            assembled(r, host, cpus, os),
{
    let host = probe.raw_hostname();
    match &host {
        Err(e) => {
            let r = Err(e.duplicate());
            assert(assembled(r, host, Err(CollectError::NoCpus), OsFamily::Other));
            return r;
        },
        Ok(h) => {
            if crate::text::is_blank(h.as_str()) {
                let r = Err(CollectError::EmptyHostname);
                assert(assembled(r, host, Err(CollectError::NoCpus), OsFamily::Other));
                return r;
            }
        },
    }
    let cpus = probe.logical_cpus();
    match &cpus {
        Err(e) => {
            let r = Err(e.duplicate());
            assert(assembled(r, host, cpus, OsFamily::Other));
            return r;
        },
        Ok(n) => {
            if *n == 0 {
                let r = Err(CollectError::NoCpus);
                assert(assembled(r, host, cpus, OsFamily::Other));
                return r;
            }
        },
    }
    let os = probe.os_family();
    assemble_report(host, cpus, os)
}

/// A probe whose answers are fixed in advance.
#[derive(Debug)]
pub struct MockProbe {
    pub hostname: Result<String, CollectError>,
    pub cpus: Result<u32, CollectError>,
    pub os: OsFamily,
}

impl HostProbe for MockProbe {
    fn raw_hostname(&self) -> (r: Result<String, CollectError>)
        ensures
            r == self.hostname,
    {
        match &self.hostname {
            Ok(s) => Ok(s.clone()),
            Err(e) => Err(e.duplicate()),
        }
    }

    fn logical_cpus(&self) -> (r: Result<u32, CollectError>)
        ensures
            r == self.cpus,
    {
        match &self.cpus {
            Ok(n) => Ok(*n),
            Err(e) => Err(e.duplicate()),
        }
    }

    fn os_family(&self) -> (o: OsFamily)
        ensures
            o == self.os,
    {
        self.os
    }
}

impl MockProbe {
    /// A probe with the same answers.
    pub fn duplicate(&self) -> (r: MockProbe)
        ensures
            r == *self,
    {
        MockProbe {
            hostname: match &self.hostname {
                Ok(s) => Ok(s.clone()),
                Err(e) => Err(e.duplicate()),
            },
            cpus: match &self.cpus {
                Ok(n) => Ok(*n),
                Err(e) => Err(e.duplicate()),
            },
            os: self.os,
        }
    }
}

} // verus!
