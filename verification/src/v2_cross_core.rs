//! A platform-independent core that sees the platform only through a trait:
//! where configuration lives, and how lines end.
use vstd::prelude::*;
use std::path::PathBuf;
use crate::text::{join, lit};

verus! {

#[verifier::external_type_specification]
#[verifier::external_body]
pub struct ExPathBuf(std::path::PathBuf);

/// What differs between operating systems, behind one trait.
pub trait PlatformInfo {
    /// A readable name of the system.
    fn os_name(&self) -> &str;

    /// The line ending of text files: `"\r\n"` or `"\n"`.
    fn line_ending(&self) -> &str;

    /// The directory under which applications keep their configuration.
    fn config_dir(&self) -> PathBuf;

    /// The path separator: `'\\'` or `'/'`.
    fn path_separator(&self) -> char;
}

/// What `PathBuf::join` gives for a base path and a part.
pub uninterp spec fn path_joined(base: PathBuf, part: Seq<char>) -> PathBuf;

/// `PathBuf::join`: the path with `part` appended after the platform's
/// separator (or `part` alone where it is absolute). The result is named,
/// not spelled out: it is a function of the base and the part alone.
#[verifier::external_body]
fn path_join(base: &PathBuf, part: &str) -> (r: PathBuf)
    ensures
        r == path_joined(*base, part@),
{
    base.join(part)
}

/// The path of an application's configuration file: the platform's
/// configuration directory, then the application's directory, then the file.
///
/// The directory comes from the platform's own `config_dir`, of which nothing
/// is known here; the result is that directory joined with `app`, then with
/// `file`.
pub fn config_file_path(platform: &dyn PlatformInfo, app: &str, file: &str) -> (r: PathBuf)
    ensures
        exists|dir: PathBuf| r == path_joined(path_joined(dir, app@), file@),
{
    let dir = platform.config_dir();
    let app_dir = path_join(&dir, app);
    path_join(&app_dir, file)
}

/// The home directory where it is known, otherwise the root `/`.
pub open spec fn home_or_root(home: Option<PathBuf>) -> PathBuf {
    match home {
        Some(h) => h,
        None => path_of("/"@),
    }
}

/// The Linux configuration directory: `$XDG_CONFIG_HOME` where it is set,
/// otherwise `.config` under the home directory (or under `/`).
pub fn linux_config_dir(xdg_config_home: Option<PathBuf>, home: Option<PathBuf>) -> (r: PathBuf)
    ensures
        r == match xdg_config_home {
            Some(p) => p,
            None => path_joined(home_or_root(home), ".config"@),
        },
{
    match xdg_config_home {
        Some(p) => p,
        None => {
            let base = match home {
                Some(h) => h,
                None => path_from("/"),
            };
            path_join(&base, ".config")
        },
    }
}

/// The macOS configuration directory: `Library/Application Support` under
/// the home directory (or under `/`).
pub fn macos_config_dir(home: Option<PathBuf>) -> (r: PathBuf)
    ensures
        r == path_joined(path_joined(home_or_root(home), "Library"@), "Application Support"@),
{
    let base = match home {
        Some(h) => h,
        None => path_from("/"),
    };
    let lib = path_join(&base, "Library");
    path_join(&lib, "Application Support")
}

/// The Windows configuration directory: `%APPDATA%` where it is set,
/// otherwise `C:\`.
pub fn windows_config_dir(appdata: Option<PathBuf>) -> (r: PathBuf)
    ensures
        r == match appdata {
            Some(p) => p,
            None => path_of("C:\\"@),
        },
{
    match appdata {
        Some(p) => p,
        None => path_from("C:\\"),
    }
}

/// What `PathBuf::from` gives for a string.
pub uninterp spec fn path_of(s: Seq<char>) -> PathBuf;

/// `PathBuf::from` a string: the path that the string spells. The result is
/// named, not spelled out: it is a function of the string alone.
#[verifier::external_body]
fn path_from(s: &str) -> (r: PathBuf)
    ensures
        r == path_of(s@),
{
    PathBuf::from(s)
}

/// The views of configuration entries as `key=value` lines.
pub open spec fn entry_lines(entries: Seq<(&str, &str)>) -> Seq<Seq<char>> {
    entries.map_values(|e: (&str, &str)| e.0@ + "="@ + e.1@)
}

/// The entries as `key=value` lines joined by `line_ending`.
pub fn render_lines(entries: &[(&str, &str)], line_ending: &str) -> (r: String)
    ensures
        r@ == join(entry_lines(entries@), line_ending@),
{
    let mut r = String::new();
    let mut i: usize = 0;
    while i < entries.len()
        invariant
            i <= entries.len(),
            r@ == join(entry_lines(entries@.subrange(0, i as int)), line_ending@),
        decreases entries.len() - i,
    {
        let ghost before = r@;
        if i > 0 {
            r.push_str(line_ending);
        }
        let (k, v) = entries[i];
        r.push_str(k);
        r.push_str("=");
        r.push_str(v);
        proof {
            let p = entry_lines(entries@.subrange(0, i + 1));
            assert(p.drop_last() =~= entry_lines(entries@.subrange(0, i as int)));
            assert(p.last() == k@ + "="@ + v@);
            if i == 0 {
                assert(before =~= Seq::<char>::empty());
                assert(r@ =~= p[0]);
            } else {
                assert(r@ =~= before + line_ending@ + p.last());
            }
        }
        i += 1;
    }
    assert(entries@.subrange(0, entries.len() as int) =~= entries@);
    r
}

/// The entries rendered with the platform's line ending. The platform
/// decides the ending; whatever it gave, the text is `render_lines` with it.
pub fn render_config(platform: &dyn PlatformInfo, entries: &[(&str, &str)]) -> (r: String)
    ensures
        exists|le: Seq<char>| r@ == join(entry_lines(entries@), le),
{
    let le = platform.line_ending();
    render_lines(entries, le)
}

/// The family of the build target: `"windows"`, else `"unix"`, else
/// `"other"`.
pub fn build_family(is_windows: bool, is_unix: bool) -> (r: &'static str)
    ensures
        r@ == (if is_windows {
            "windows"@
        } else if is_unix {
            "unix"@
        } else {
            "other"@
        }),
{
    if is_windows {
        "windows"
    } else if is_unix {
        "unix"
    } else {
        "other"
    }
}

/// The build description: `family=…, os=…, arch=…`.
pub fn describe_build_from(family: &str, os: &str, arch: &str) -> (r: String)
    ensures
        r@ == "family="@ + family@ + ", os="@ + os@ + ", arch="@ + arch@,
{
    let mut r = lit("family=");
    r.push_str(family);
    r.push_str(", os=");
    r.push_str(os);
    r.push_str(", arch=");
    r.push_str(arch);
    r
}

} // verus!
