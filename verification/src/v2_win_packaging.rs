//! The platform-independent logic of a small packaged command-line tool: its
//! name, version, greeting and start-up banner.
use vstd::prelude::*;
use crate::text::{trim, trim_str, lit};

verus! {

/// The application's name; also the installer's product name.
pub const APP_NAME: &'static str = "v2-greeter";

/// The package's name.
pub fn package_name() -> (r: &'static str)
    ensures
        r@ == "v2-win-packaging"@,
{
    "v2-win-packaging"
}

/// The application's version, the package version.
pub fn app_version() -> (r: &'static str)
    ensures
        r@ == "0.1.0"@,
{
    "0.1.0"
}

/// The greeting for `name`: the trimmed name, or `world` where it is blank,
/// with the application's name and version.
pub fn greeting(name: &str) -> (r: String)
    ensures
        r@ == "Hello, "@ + (if trim(name@).len() == 0 {
            "world"@
        } else {
            trim(name@)
        }) + "! —— from "@ + APP_NAME@ + " v"@ + "0.1.0"@,
{
    let who = trim_str(name);
    let mut r = lit("Hello, ");
    if who.is_empty() {
        r.push_str("world");
    } else {
        r.push_str(who);
    }
    r.push_str("! —— from ");
    r.push_str(APP_NAME);
    r.push_str(" v");
    r.push_str(app_version());
    r
}

/// The target triple that a build for the operating system `os` with the
/// environment `env` reports.
pub open spec fn triple_spec(os: Seq<char>, env: Seq<char>) -> Seq<char> {
    if os == "windows"@ && env == "msvc"@ {
        "x86_64/aarch64-pc-windows-msvc"@
    } else if os == "windows"@ && env == "gnu"@ {
        "*-pc-windows-gnu"@
    } else if os == "macos"@ {
        "*-apple-darwin"@
    } else if os == "linux"@ {
        "*-unknown-linux-gnu"@
    } else {
        "unknown"@
    }
}

/// The target triple for a build's operating system and environment.
pub fn triple_for(os: &str, env: &str) -> (r: &'static str)
    ensures
        r@ == triple_spec(os@, env@),
{
    let win = crate::text::str_eq(os, "windows");
    if win && crate::text::str_eq(env, "msvc") {
        "x86_64/aarch64-pc-windows-msvc"
    } else if win && crate::text::str_eq(env, "gnu") {
        "*-pc-windows-gnu"
    } else if crate::text::str_eq(os, "macos") {
        "*-apple-darwin"
    } else if crate::text::str_eq(os, "linux") {
        "*-unknown-linux-gnu"
    } else {
        "unknown"
    }
}

/// The start-up banner: package name, version and target triple.
pub fn banner_for(triple: &str) -> (r: String)
    ensures
        r@ == "v2-win-packaging v0.1.0 (target: "@ + triple@ + ")"@,
{
    let mut r = lit(package_name());
    r.push_str(" v");
    r.push_str(app_version());
    r.push_str(" (target: ");
    r.push_str(triple);
    r.push_str(")");
    proof {
        reveal_strlit("v2-win-packaging");
        reveal_strlit("0.1.0");
        reveal_strlit(" v");
        reveal_strlit(" (target: ");
        reveal_strlit(")");
        reveal_strlit("v2-win-packaging v0.1.0 (target: ");
    }
    assert(r@ =~= "v2-win-packaging v0.1.0 (target: "@ + triple@ + ")"@);
    r
}

} // verus!
