use std::path::PathBuf;

use winmon::v2_async::{handle_line, pipeline_step, producer_capacity, PipelineEvent};
use winmon::v2_capstone::{
    assemble_report, collect_report, fingerprint, CollectError, CpuCount, Hostname, MockProbe,
    OsFamily, SCHEMA_VERSION,
};
use winmon::v2_concurrency::{
    combine_stats, chunk_len, chunk_stats, merge_stats, parallel_sum_rayon, sum_partials, sum_slice, Stats as ChunkStats,
};
use winmon::v2_cross_core::{
    build_family, config_file_path, describe_build_from, linux_config_dir, render_config, render_lines,
    macos_config_dir, windows_config_dir, PlatformInfo,
};
use winmon::v2_cross_lang::domain::{TodoError as DomainTodoError, TodoStore as DomainTodoStore};
use winmon::v2_cross_lang::ffi::{TodoFfiError, TodoStore as FfiTodoStore};
use winmon::v2_debugging::{apply_ops, apply_ops_buggy, checked_average, sum_then_double, window_sums, Op};
use winmon::v2_ffi_cpp::{c_strlen, checked_div, to_upper, FfiError};

#[test]
fn handle_line_covers_protocol() {
    assert_eq!(handle_line("PING"), "PONG");
    assert_eq!(handle_line("ping"), "PONG");
    assert_eq!(handle_line("ECHO hello world"), "hello world");
    assert_eq!(handle_line("ADD 2 3"), "5");
    assert_eq!(handle_line("ADD -4 9"), "5");
    assert!(handle_line("ADD 1 x").starts_with("ERR"));
    assert!(handle_line("ADD 1 2 3").starts_with("ERR"));
    assert!(handle_line("").starts_with("ERR"));
    assert!(handle_line("WAT").starts_with("ERR unknown command"));
}

#[test]
fn handle_line_exact_errors() {
    assert_eq!(handle_line("   "), "ERR empty command");
    assert_eq!(handle_line("wat now"), "ERR unknown command: WAT");
    assert_eq!(handle_line("ADD 1 x"), "ERR invalid ADD operands: \"1 x\"");
    assert_eq!(handle_line("add 9223372036854775807 1"), "ERR invalid ADD operands: \"9223372036854775807 1\"");
    assert_eq!(handle_line("  echo   spaced out  "), "spaced out");
    assert_eq!(handle_line("ADD -9223372036854775808 0"), "-9223372036854775808");
}

#[test]
fn pipeline_steps_answer_then_stop() {
    let mut out = Vec::new();
    assert!(pipeline_step(&mut out, PipelineEvent::Line("PING".to_string())));
    assert!(pipeline_step(&mut out, PipelineEvent::Line("ECHO z".to_string())));
    assert!(!pipeline_step(&mut out, PipelineEvent::Closed));
    assert!(!pipeline_step(&mut out, PipelineEvent::Shutdown));
    assert_eq!(out, vec!["PONG".to_string(), "z".to_string()]);
    assert_eq!(producer_capacity(0), 1);
    assert_eq!(producer_capacity(2), 2);
}

fn ok_probe() -> MockProbe {
    MockProbe {
        hostname: Ok("  build-box  ".to_owned()),
        cpus: Ok(8),
        os: OsFamily::MacOs,
    }
}

#[test]
fn collects_and_trims_a_valid_report() {
    let report = collect_report(&ok_probe()).expect("valid probe");
    assert_eq!(report.hostname.as_str(), "build-box");
    assert_eq!(report.logical_cpus.get(), 8);
    assert_eq!(report.os_family, OsFamily::MacOs);
    assert_eq!(report.schema_version, SCHEMA_VERSION);
}

#[test]
fn empty_hostname_is_rejected() {
    let probe = MockProbe {
        hostname: Ok("   ".to_owned()),
        ..ok_probe()
    };
    assert_eq!(collect_report(&probe), Err(CollectError::EmptyHostname));
}

#[test]
fn zero_cpus_is_rejected() {
    let probe = MockProbe {
        cpus: Ok(0),
        ..ok_probe()
    };
    assert_eq!(collect_report(&probe), Err(CollectError::NoCpus));
}

#[test]
fn probe_failure_propagates() {
    let probe = MockProbe {
        cpus: Err(CollectError::Probe("Win32 GetSystemInfo failed".to_owned())),
        ..ok_probe()
    };
    assert!(matches!(collect_report(&probe), Err(CollectError::Probe(_))));
}

#[test]
fn canonical_string_is_stable() {
    let report = collect_report(&ok_probe()).unwrap();
    assert_eq!(report.to_canonical(), "schema=1;os=macos;host=build-box;cpus=8");
}

#[test]
fn fingerprint_matches_ffi_helper() {
    let report = collect_report(&ok_probe()).unwrap();
    assert_eq!(report.fingerprint(), fingerprint(&report.to_canonical()));
    assert_eq!(fingerprint(""), 0xcbf2_9ce4_8422_2325);
}

#[test]
fn fnv1a_known_vectors() {
    assert_eq!(fingerprint(""), 0xcbf2_9ce4_8422_2325);
    assert_ne!(fingerprint("a"), fingerprint("b"));
}

#[test]
fn fnv1a_reference_values() {
    assert_eq!(fingerprint("a"), 0xaf63dc4c8601ec8c);
    assert_eq!(fingerprint("foobar"), 0x85944171f73967e8);
}

#[test]
fn assemble_checks_in_order() {
    assert_eq!(
        assemble_report(Err(CollectError::NoCpus), Ok(0), OsFamily::Linux),
        Err(CollectError::NoCpus)
    );
    assert_eq!(
        assemble_report(Ok(" ".to_string()), Err(CollectError::Probe("x".into())), OsFamily::Linux),
        Err(CollectError::EmptyHostname)
    );
    let r = assemble_report(Ok("h".to_string()), Ok(2), OsFamily::Windows).unwrap();
    assert_eq!(r.to_canonical(), "schema=1;os=windows;host=h;cpus=2");
    assert!(Hostname::new(" \t").is_err());
    assert_eq!(CpuCount::new(0), Err(CollectError::NoCpus));
    assert_eq!(CollectError::Probe("boom".into()).message(), "平台探针失败：boom");
    assert_eq!(OsFamily::Other.as_str(), "other");
}

#[test]
fn chunking_and_merging_agree_with_whole() {
    let data: Vec<i64> = (-500..=500).collect();
    let c = chunk_len(data.len(), 4);
    assert_eq!(c, 251);
    assert_eq!(chunk_len(10, 0), 10);
    assert_eq!(chunk_len(0, 3), 0);
    let parts: Vec<i64> = data.chunks(c).map(sum_slice).collect();
    assert_eq!(sum_partials(&parts), 0);
    let stats: Vec<ChunkStats> = data.chunks(c).map(chunk_stats).collect();
    let merged = stats[1..].iter().fold(stats[0], |a, b| merge_stats(a, *b));
    assert_eq!(merged, chunk_stats(&data));
    assert_eq!(merged.min, -500);
    assert_eq!(merged.max, 500);
    assert_eq!(merged.count, 1001);
    assert_eq!(parallel_sum_rayon(&data), 0);
    let big: Vec<i64> = (1..=10_000).collect();
    assert_eq!(parallel_sum_rayon(&big), 50_005_000);
}

struct MockPlatform {
    os: &'static str,
    line_ending: &'static str,
    root: PathBuf,
    sep: char,
}

impl PlatformInfo for MockPlatform {
    fn os_name(&self) -> &str {
        self.os
    }
    fn line_ending(&self) -> &str {
        self.line_ending
    }
    fn config_dir(&self) -> PathBuf {
        self.root.clone()
    }
    fn path_separator(&self) -> char {
        self.sep
    }
}

fn unix_mock() -> MockPlatform {
    MockPlatform {
        os: "MockUnix",
        line_ending: "\n",
        root: PathBuf::from("/home/u/.config"),
        sep: '/',
    }
}

fn windows_mock() -> MockPlatform {
    MockPlatform {
        os: "MockWin",
        line_ending: "\r\n",
        root: PathBuf::from(r"C:\Users\u\AppData\Roaming"),
        sep: '\\',
    }
}

#[test]
fn core_builds_path_via_injected_platform() {
    let p = unix_mock();
    let path = config_file_path(&p, "myapp", "settings.toml");
    assert!(path.ends_with("myapp/settings.toml"));
    assert!(path.starts_with("/home/u/.config"));
}

#[test]
fn core_render_respects_platform_line_ending() {
    let entries = [("name", "demo"), ("level", "3")];

    let unix = render_config(&unix_mock(), &entries);
    assert_eq!(unix, "name=demo\nlevel=3");

    let win = render_config(&windows_mock(), &entries);
    assert_eq!(win, "name=demo\r\nlevel=3");
    assert!(win.contains("\r\n"));
}

#[test]
fn mock_reports_injected_metadata() {
    let p = windows_mock();
    assert_eq!(p.os_name(), "MockWin");
    assert_eq!(p.path_separator(), '\\');
}

#[test]
fn platform_directories_and_build_text() {
    assert_eq!(render_lines(&[], "\n"), "");
    assert_eq!(render_lines(&[("k", "v")], "\r\n"), "k=v");
    let xdg = linux_config_dir(Some(PathBuf::from("/x")), Some(PathBuf::from("/home/u")));
    assert_eq!(xdg, PathBuf::from("/x"));
    let home = linux_config_dir(None, Some(PathBuf::from("/home/u")));
    assert_eq!(home, PathBuf::from("/home/u/.config"));
    assert_eq!(windows_config_dir(None), PathBuf::from("C:\\"));
    assert_eq!(
        macos_config_dir(Some(PathBuf::from("/Users/u"))),
        PathBuf::from("/Users/u/Library/Application Support")
    );
    assert_eq!(macos_config_dir(None), PathBuf::from("/Library/Application Support"));
    assert_eq!(build_family(false, true), "unix");
    assert_eq!(describe_build_from("unix", "linux", "x86_64"), "family=unix, os=linux, arch=x86_64");
}

#[test]
fn add_assigns_incrementing_ids() {
    let mut s = DomainTodoStore::new();
    assert_eq!(s.add("a"), 1);
    assert_eq!(s.add("b"), 2);
    assert_eq!(s.pending_count(), 2);
}

#[test]
fn complete_marks_done_and_decrements_pending() {
    let mut s = DomainTodoStore::new();
    let id = s.add("write slides");
    assert_eq!(s.pending_count(), 1);
    assert_eq!(s.complete(id), Ok(()));
    assert_eq!(s.pending_count(), 0);
}

#[test]
fn complete_unknown_id_is_not_found() {
    let mut s = DomainTodoStore::new();
    s.add("x");
    assert_eq!(s.complete(999), Err(DomainTodoError::NotFound));
}

#[test]
fn summary_reports_counts() {
    let mut s = DomainTodoStore::new();
    s.add("a");
    let id = s.add("b");
    s.complete(id).unwrap();
    assert_eq!(s.summary(), "2 todos, 1 pending: [a]");
}

#[test]
fn ffi_store_maps_errors() {
    let mut s = FfiTodoStore::new();
    let a = s.add("one");
    let _b = s.add("two");
    assert_eq!(s.complete(a), Ok(()));
    assert_eq!(s.complete(77), Err(TodoFfiError::NotFound));
    assert_eq!(s.pending_count(), 1);
    assert_eq!(s.summary(), "2 todos, 1 pending: [two]");
    let mut d = DomainTodoStore::default();
    assert_eq!(d.add("zero"), 0);
}

#[test]
fn window_sums_is_correct() {
    assert_eq!(window_sums(&[1, 2, 3, 4], 2), vec![3, 5, 7]);
    assert_eq!(window_sums(&[1, 2, 3, 4], 4), vec![10]);
}

#[test]
fn window_sums_handles_edges() {
    assert_eq!(window_sums(&[1, 2, 3], 0), Vec::<i32>::new());
    assert_eq!(window_sums(&[1, 2, 3], 5), Vec::<i32>::new());
    assert_eq!(window_sums(&[], 2), Vec::<i32>::new());
}

#[test]
fn apply_ops_is_correct() {
    let ops = [Op::Deposit(100), Op::Withdraw(30), Op::Deposit(50)];
    assert_eq!(apply_ops(&ops), 120);
}

#[test]
fn buggy_apply_ops_has_wrong_state() {
    let ops = [Op::Deposit(100), Op::Withdraw(30), Op::Deposit(50)];
    assert_eq!(apply_ops_buggy(&ops), 180);
    assert_ne!(apply_ops_buggy(&ops), apply_ops(&ops));
}

#[test]
fn average_handles_empty() {
    assert_eq!(checked_average(&[2, 4, 6]), Some(4));
    assert_eq!(checked_average(&[]), None);
}

#[test]
fn average_rounds_toward_zero() {
    assert_eq!(checked_average(&[-1, -2]), Some(-1));
    assert_eq!(checked_average(&[1, 2]), Some(1));
    assert_eq!(sum_then_double(&[1, 2, 3]), 12);
    assert_eq!(sum_then_double(&[i32::MAX]), i32::MAX);
    assert_eq!(sum_then_double(&[i32::MIN]), i32::MIN);
}

#[test]
fn add_pure_value() {
    assert_eq!(winmon::v2_ffi_cpp::add(2, 3), 5);
    assert_eq!(winmon::v2_ffi_cpp::add(-4, 4), 0);
    assert_eq!(winmon::v2_ffi_cpp::add(i32::MAX - 1, 1), i32::MAX);
    assert_eq!(winmon::v2_ffi_cpp::add(i32::MAX, 1), i32::MIN);
    assert_eq!(winmon::v2_ffi_cpp::add(i32::MIN, -1), i32::MAX);
}

#[test]
fn strlen_matches_rust_byte_len() {
    assert_eq!(c_strlen("").unwrap(), 0);
    assert_eq!(c_strlen("hello").unwrap(), 5);
    let s = "héllo";
    assert_eq!(c_strlen(s).unwrap(), s.len());
    assert!(s.len() > s.chars().count());
}

#[test]
fn to_upper_ascii_and_preserves_unicode() {
    assert_eq!(to_upper("rust + c++").unwrap(), "RUST + C++");
    assert_eq!(to_upper("").unwrap(), "");
    assert_eq!(to_upper("café").unwrap(), "CAFé");
}

#[test]
fn checked_div_normal_and_zero_sentinel() {
    assert_eq!(checked_div(10, 3), Some(3));
    assert_eq!(checked_div(-9, 3), Some(-3));
    assert_eq!(checked_div(1, 0), None);
    assert_eq!(checked_div(0, 0), None);
}

#[test]
fn interior_nul_is_rejected() {
    assert_eq!(c_strlen("a\0b"), Err(FfiError::InteriorNul));
    assert_eq!(to_upper("x\0y"), Err(FfiError::InteriorNul));
}

#[test]
fn checked_div_guards_overflow_and_signs() {
    assert_eq!(checked_div(i32::MIN, -1), None);
    assert_eq!(checked_div(7, -2), Some(-3));
    assert_eq!(checked_div(-7, -2), Some(3));
}

#[test]
fn combine_stats_joins_chunks_in_order() {
    assert_eq!(combine_stats(&[]), None);
    let data = [3i64, -7, 12, 5, 0, 9, -2];
    let parts: Vec<ChunkStats> = data.chunks(3).map(chunk_stats).collect();
    let all = combine_stats(&parts).unwrap();
    assert_eq!(all, chunk_stats(&data));
    assert_eq!(all, ChunkStats { sum: 20, min: -7, max: 12, count: 7 });
}
