//! Loading a service configuration: host normalisation that borrows when it
//! can, and the checks that turn raw settings into a valid configuration or a
//! structured error.
use vstd::prelude::*;
use std::borrow::Cow;
use crate::text::{
    is_ws, trim, trim_start, trim_end, ascii_lower, has_ascii_upper, trim_str, ascii_lowercase, any_ascii_upper, chars_of,
    is_whitespace, lit, dec, push_dec,
};

verus! {

#[verifier::external_type_specification]
#[verifier::external_body]
pub struct ExIoError(std::io::Error);

#[verifier::external_type_specification]
#[verifier::external_body]
pub struct ExJsonError(serde_json::Error);

/// Every way loading a configuration can fail, by where it comes from.
#[derive(Debug)]
pub enum ConfigError {
    /// Reading the source failed.
    Io(std::io::Error),
    /// The text is not valid JSON, or a field has the wrong JSON type.
    Parse(serde_json::Error),
    /// A required setting is absent; `key` names it.
    Missing { key: String },
    /// A setting is present but its value is refused.
    Invalid { field: String, reason: String },
}

/// A checked configuration: the port is in range and every required
/// setting is present.
#[derive(Debug, Clone, PartialEq, Eq)]
pub struct Config {
    pub name: String,
    pub host: String,
    pub port: u16,
    pub max_connections: u32,
}

/// The settings as they were read, before any check; every one may be absent.
#[derive(Debug, Clone, PartialEq, Eq)]
pub struct RawConfig {
    pub name: Option<String>,
    pub host: Option<String>,
    pub port: Option<u64>,
    pub max_connections: Option<u64>,
}

/// The host must be rewritten: it starts or ends with white space, or holds
/// an ASCII capital letter.
pub open spec fn needs_change(s: Seq<char>) -> bool {
    ||| s.len() > 0 && is_ws(s[0])
    ||| s.len() > 0 && is_ws(s.last())
    ||| has_ascii_upper(s)
}

/// The normalised host: trimmed and lower-cased where it needs a change,
/// the input itself otherwise.
pub open spec fn normalized(s: Seq<char>) -> Seq<char> {
    if needs_change(s) {
        ascii_lower(trim(s))
    } else {
        s
    }
}

/// Normalises a host name, borrowing the input when it is already normal and
/// allocating only when it has to be rewritten.
pub fn normalize_host(raw: &str) -> (r: Cow<'_, str>)
    ensures
        r@ == normalized(raw@),
        (r matches Cow::Borrowed(_)) == !needs_change(raw@),
{
    let v = chars_of(raw);
    let n = v.len();
    let change = (n > 0 && is_whitespace(v[0])) || (n > 0 && is_whitespace(v[n - 1]))
        || any_ascii_upper(raw);
    if change {
        Cow::Owned(ascii_lowercase(trim_str(raw)))
    } else {
        Cow::Borrowed(raw)
    }
}

proof fn lemma_trim_start_first(s: Seq<char>)
    ensures
        trim_start(s).len() > 0 ==> !is_ws(trim_start(s)[0]),
    decreases s.len(),
{
    if s.len() > 0 && is_ws(s[0]) {
        lemma_trim_start_first(s.drop_first());
    }
}

proof fn lemma_trim_end_prefix(s: Seq<char>)
    ensures
        trim_end(s).len() <= s.len(),
        forall|i: int| 0 <= i < trim_end(s).len() ==> trim_end(s)[i] == s[i],
        trim_end(s).len() > 0 ==> !is_ws(trim_end(s).last()),
    decreases s.len(),
{
    if s.len() > 0 && is_ws(s.last()) {
        lemma_trim_end_prefix(s.drop_last());
        assert forall|i: int| 0 <= i < trim_end(s).len() implies trim_end(s)[i] == s[i] by {
            assert(trim_end(s) == trim_end(s.drop_last()));
            assert(s.drop_last()[i] == s[i]);
        }
    }
}

/// Normalising is idempotent: a normalised host needs no change, so
/// normalising it again borrows it unchanged.
pub proof fn law_normalize_idempotent(s: Seq<char>)
    ensures
        !needs_change(normalized(s)),
        normalized(normalized(s)) == normalized(s),
{
    if needs_change(s) {
        let t = trim_start(s);
        lemma_trim_start_first(s);
        lemma_trim_end_prefix(t);
        let u = trim(s);
        assert(u == trim_end(t));
        let n = ascii_lower(u);
        assert(n.len() == u.len());
        if n.len() > 0 {
            assert(u[0] == t[0]);
            assert(!is_ws(u[0]));
            assert(!is_ws(u.last()));
            assert(n[0] == crate::text::lower_char(u[0]));
            assert(n.last() == crate::text::lower_char(u.last()));
        }
        assert(!has_ascii_upper(n)) by {
            assert forall|i: int| 0 <= i < n.len() implies !crate::text::is_ascii_upper(#[trigger] n[i]) by {
                assert(n[i] == crate::text::lower_char(u[i]));
            }
        }
    }
}

/// The maximum number of connections when none is given.
pub const DEFAULT_MAX_CONNECTIONS: u64 = 100;

/// A `Missing` error for `key`.
pub open spec fn is_missing(e: ConfigError, key: Seq<char>) -> bool {
    e matches ConfigError::Missing { key: k } && k@ == key
}

/// An `Invalid` error for `field` with the given reason.
pub open spec fn is_invalid(e: ConfigError, field: Seq<char>, reason: Seq<char>) -> bool {
    e matches ConfigError::Invalid { field: f, reason: r } && f@ == field && r@ == reason
}

/// The reason given for a port outside `1..=65535`.
pub open spec fn port_range_reason(p: u64) -> Seq<char> {
    "必须在 1..=65535 之间, 实际为 "@ + dec(p as nat)
}

/// The reason given for a connection limit beyond `u32::MAX`.
pub open spec fn max_reason(m: u64) -> Seq<char> {
    "超出 u32 上限: "@ + dec(m as nat)
}

/// The connection limit, with its default.
pub open spec fn max_of(raw: RawConfig) -> u64 {
    match raw.max_connections {
        Some(m) => m,
        None => 100,
    }
}

/// A name is present, and a host that is not empty once normalised.
pub open spec fn host_ok(raw: RawConfig) -> bool {
    &&& raw.name is Some
    &&& raw.host is Some
    &&& normalized(raw.host->0@).len() > 0
}

/// The name and host pass, and the port is in `1..=65535`.
pub open spec fn port_ok(raw: RawConfig) -> bool {
    &&& host_ok(raw)
    &&& raw.port is Some
    &&& 0 < raw.port->0 <= u16::MAX
}

fn missing(key: &'static str) -> (e: ConfigError)
    ensures
        is_missing(e, key@),
{
    ConfigError::Missing { key: lit(key) }
}

fn invalid(field: &'static str, reason: String) -> (e: ConfigError)
    ensures
        is_invalid(e, field@, reason@),
{
    ConfigError::Invalid { field: lit(field), reason }
}

/// Checks raw settings, in this order: a name, a host, a host that is not
/// empty once normalised, a port, a port that fits `u16`, a port that is not
/// zero, and a connection limit (100 when absent) that fits `u32`. The first
/// failed check gives the error.
pub fn validate_config(raw: RawConfig) -> (r: Result<Config, ConfigError>)
    ensures
        raw.name is None ==> (r matches Err(e) && is_missing(e, "name"@)),
        raw.name is Some && raw.host is None ==> (r matches Err(e) && is_missing(e, "host"@)),
        raw.name is Some && raw.host is Some && normalized(raw.host->0@).len() == 0 ==> (r matches Err(
            e,
        ) && is_invalid(e, "host"@, "不能为空"@)),
        host_ok(raw) && raw.port is None ==> (r matches Err(e) && is_missing(e, "port"@)),
        host_ok(raw) && raw.port is Some && raw.port->0 > u16::MAX ==> (r matches Err(e) && is_invalid(
            e,
            "port"@,
            port_range_reason(raw.port->0),
        )),
        host_ok(raw) && raw.port == Some(0u64) ==> (r matches Err(e) && is_invalid(
            e,
            "port"@,
            "不能为 0"@,
        )),
        port_ok(raw) && max_of(raw) > u32::MAX ==> (r matches Err(e) && is_invalid(
            e,
            "max_connections"@,
            max_reason(max_of(raw)),
        )),
        port_ok(raw) && max_of(raw) <= u32::MAX ==> (r matches Ok(c) && c.name == raw.name->0
            && c.host@ == normalized(raw.host->0@) && c.port == raw.port->0 && c.max_connections
            == max_of(raw)),
{
    proof {
        reveal_strlit("name");
        reveal_strlit("host");
        reveal_strlit("port");
        reveal_strlit("max_connections");
    }
    let name = match raw.name {
        Some(n) => n,
        None => {
            return Err(missing("name"));
        },
    };
    let host_raw = match raw.host {
        Some(h) => h,
        None => {
            return Err(missing("host"));
        },
    };
    let host: String = match normalize_host(host_raw.as_str()) {
        Cow::Borrowed(b) => b.to_owned(),
        Cow::Owned(o) => o,
    };
    if host.as_str().is_empty() {
        return Err(invalid("host", lit("不能为空")));
    }
    let port_raw = match raw.port {
        Some(p) => p,
        None => {
            return Err(missing("port"));
        },
    };
    if port_raw > 65535 {
        let mut reason = lit("必须在 1..=65535 之间, 实际为 ");
        push_dec(&mut reason, port_raw);
        return Err(invalid("port", reason));
    }
    let port = port_raw as u16;
    if port == 0 {
        return Err(invalid("port", lit("不能为 0")));
    }
    let max_raw = match raw.max_connections {
        Some(m) => m,
        None => DEFAULT_MAX_CONNECTIONS,
    };
    if max_raw > 4294967295 {
        let mut reason = lit("超出 u32 上限: ");
        push_dec(&mut reason, max_raw);
        return Err(invalid("max_connections", reason));
    }
    Ok(Config { name, host, port, max_connections: max_raw as u32 })
}

} // verus!
