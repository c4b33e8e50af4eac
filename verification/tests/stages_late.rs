use std::cell::Cell;
use std::rc::Rc;
use std::sync::atomic::{AtomicUsize, Ordering};
use std::sync::Arc;

use winmon::l10_ffi::{checksum, describe as checksum_describe};
use winmon::l11_win32::{format_bytes, HandleGuard, MemoryInfo};
use winmon::l12_service::{Service, Stopped};
use winmon::l13_package::{msi_filename, Version};
use winmon::l14_arch::platform::FakeCollector as L14Fake;
use winmon::l14_arch::winmon_core::{cpu_totals, high_cpu, total_cpu_by_name, Collector as L14Collector, ProcessInfo as L14Proc};
use winmon::l15_capstone::{
    run, run_on, FakeCollector, JsonReporter, ProcessInfo, Reporter, TextReporter,
};
use winmon::l5x_listlab::{History, Shared};
use winmon::l6_collect::{parse, parse_source, Event as L6Event, Source};
use winmon::l7_async::{round_events, sample_event, sampler_action, SamplerAction, SamplerEvent};
use winmon::l8_robust::{collect_valid, parse_line, require_healthy, CollectResult, Event as L8Event, ParseError};
use winmon::l9_unsafe::Ring;

#[test]
fn push_pop_lifo() {
    let mut h = History::new();
    h.push("boot");
    h.push("login");
    h.push("crash");
    assert_eq!(h.len(), 3);
    assert_eq!(h.pop(), Some("crash"));
    assert_eq!(h.pop(), Some("login"));
    assert_eq!(h.pop(), Some("boot"));
    assert_eq!(h.pop(), None);
}

#[test]
fn peek_borrows_not_takes() {
    let mut h = History::new();
    h.push(String::from("evt"));
    assert_eq!(h.peek(), Some(&String::from("evt")));
    assert_eq!(h.len(), 1);
    if let Some(top) = h.peek_mut() {
        top.push('!');
    }
    assert_eq!(h.pop(), Some(String::from("evt!")));
}

#[test]
fn iter_zero_copy() {
    let mut h = History::new();
    h.push(1);
    h.push(2);
    h.push(3);
    let v: Vec<&i32> = h.iter().to_vec();
    assert_eq!(v, vec![&3, &2, &1]);
    assert_eq!(h.len(), 3);
}

#[test]
fn long_chain_drop_no_overflow() {
    let mut h = History::new();
    for i in 0..200_000 {
        h.push(i);
    }
    drop(h);
}

#[test]
fn into_iter_consumes() {
    let mut h = History::new();
    h.push(1);
    h.push(2);
    h.push(3);
    let mut it = h.into_iter();
    let mut v: Vec<i32> = Vec::new();
    while let Some(x) = it.next() {
        v.push(x);
    }
    assert_eq!(v, vec![3, 2, 1]);
    let mut h2 = History::new();
    h2.push(String::from("owned"));
    let mut it2 = h2.into_iter();
    while let Some(s) = it2.next() {
        let _owned: String = s;
    }
}

#[test]
fn iter_walks_one_at_a_time() {
    let mut h = History::new();
    h.push('a');
    h.push('b');
    let mut it = h.iter();
    assert_eq!(it.next(), Some(&'b'));
    assert_eq!(it.next(), Some(&'a'));
    assert_eq!(it.next(), None);
    assert_eq!(h.into_vec(), vec!['b', 'a']);
}

#[test]
fn shared_tail_between_versions() {
    let base = Shared::new().prepend("boot").prepend("login");
    let a = base.prepend("open_a");
    let b = base.prepend("open_b");
    assert_eq!(a.head(), Some(&"open_a"));
    assert_eq!(b.head(), Some(&"open_b"));
    assert_eq!(a.tail().head(), Some(&"login"));
    assert_eq!(base.strong_count(), 3);
    drop(a);
    drop(b);
    assert_eq!(base.strong_count(), 1);
}

#[test]
fn parse_splits_pid_and_message() {
    assert_eq!(
        parse("1200:svc up"),
        L6Event {
            pid: 1200,
            message: "svc up".into()
        }
    );
}

#[test]
fn parse_source_keeps_line_order() {
    let src = Source {
        id: 1,
        raw: vec!["4:boot".into(), "x:bad".into()],
    };
    let out = parse_source(&src);
    assert_eq!(out.len(), 2);
    assert_eq!(out[0].pid, 4);
    assert_eq!(out[1].pid, 0);
}

#[test]
fn sample_round_in_id_order() {
    assert_eq!(sample_event(7).value, 70);
    let round = round_events(&[1, 2, 3]);
    assert_eq!(round.len(), 3);
    assert_eq!(round[2].source_id, 3);
    assert_eq!(round[2].value, 30);
    assert_eq!(sampler_action(true, SamplerEvent::Tick), SamplerAction::Stop);
    assert_eq!(sampler_action(false, SamplerEvent::Tick), SamplerAction::SampleRound);
    assert_eq!(sampler_action(false, SamplerEvent::ShutdownChanged), SamplerAction::Stop);
}

#[test]
fn parse_line_distinguishes_errors() {
    assert_eq!(parse_line(""), Err(ParseError::Empty));
    assert_eq!(
        parse_line("no delimiter here"),
        Err(ParseError::NoDelimiter("no delimiter here".into()))
    );
    assert_eq!(parse_line("abc:msg"), Err(ParseError::BadPid("abc".into())));
    assert_eq!(
        parse_line("4:boot"),
        Ok(L8Event {
            pid: 4,
            message: "boot".into()
        })
    );
}

#[test]
fn collect_skips_and_counts() {
    let lines = ["4:boot", "", "bad", "1200:up"];
    let r = collect_valid(&lines);
    assert_eq!(r.events.len(), 2);
    assert_eq!(r.skipped, 2);
}

#[test]
fn require_healthy_flags_too_many_skips() {
    let r = CollectResult {
        events: vec![],
        skipped: 5,
    };
    assert!(require_healthy(&r, 2).is_err());
    assert!(require_healthy(&r, 10).is_ok());
}

#[test]
fn full_pipeline_reads_parses_filters_reports() {
    let raw = "4:boot\n\nbad line\n1200:svc up\nabc:oops\n7:ready";
    let lines: Vec<&str> = raw.lines().collect();

    let result = collect_valid(&lines);
    assert_eq!(result.events.len(), 3);
    assert_eq!(result.skipped, 3);
    assert_eq!(result.events[1].pid, 1200);

    assert!(require_healthy(&result, 3).is_ok());
    assert!(require_healthy(&result, 2).is_err());
}

#[test]
fn empty_ring_get_none() {
    let r = Ring::<u32>::with_capacity(3);
    assert!(r.is_empty());
    assert_eq!(r.get(0), None);
}

#[test]
fn zst_elements_work() {
    let mut r = Ring::with_capacity(2);
    for _ in 0..5 {
        r.push(());
    }
    assert_eq!(r.len(), 2);
    assert_eq!(r.get(0), Some(&()));
    assert_eq!(r.get(2), None);
}

#[test]
fn push_and_get_in_order() {
    let mut r = Ring::with_capacity(3);
    r.push(10);
    r.push(20);
    assert_eq!(r.len(), 2);
    assert_eq!(r.get(0), Some(&10));
    assert_eq!(r.get(1), Some(&20));
    assert_eq!(r.get(2), None);
}

#[test]
fn overwrites_oldest_when_full() {
    let mut r = Ring::with_capacity(3);
    for v in [1, 2, 3, 4, 5] {
        r.push(v);
    }
    assert_eq!(r.len(), 3);
    assert_eq!(r.get(0), Some(&3));
    assert_eq!(r.get(1), Some(&4));
    assert_eq!(r.get(2), Some(&5));
}

#[test]
fn every_element_dropped_exactly_once() {
    struct Counted(Arc<AtomicUsize>);
    impl Drop for Counted {
        fn drop(&mut self) {
            self.0.fetch_add(1, Ordering::SeqCst);
        }
    }
    let drops = Arc::new(AtomicUsize::new(0));
    {
        let mut r = Ring::with_capacity(2);
        for _ in 0..5 {
            r.push(Counted(Arc::clone(&drops)));
        }
        assert_eq!(drops.load(Ordering::SeqCst), 3);
    }
    assert_eq!(drops.load(Ordering::SeqCst), 5);
}

#[test]
fn checksum_basic() {
    assert_eq!(checksum(&[1, 2, 3]), 6);
    assert_eq!(checksum(&[100, 200]), 44);
}

#[test]
fn checksum_empty_slice() {
    assert_eq!(checksum(&[]), 0);
}

#[test]
fn checksum_long_data() {
    let data = vec![1u8; 1000];
    assert_eq!(checksum(&data), (1000 % 256) as u8);
}

#[test]
fn describe_copies_c_string() {
    let s = checksum_describe(42);
    assert_eq!(s, "checksum=42");
    let _ = checksum_describe(7);
    assert_eq!(s, "checksum=42");
}

#[test]
fn format_bytes_picks_unit() {
    assert_eq!(format_bytes(512), "512 B");
    assert_eq!(format_bytes(1536), "1.5 KiB");
    assert_eq!(format_bytes(1024 * 1024 * 3 / 2), "1.5 MiB");
    assert_eq!(format_bytes(1024 * 1024 * 1024 * 2), "2.0 GiB");
}

#[test]
fn used_percent() {
    let m = MemoryInfo {
        total_bytes: 100,
        avail_bytes: 25,
    };
    assert_eq!(m.used_percent(), 75);
}

#[test]
fn used_percent_of_nothing_is_zero() {
    let m = MemoryInfo {
        total_bytes: 0,
        avail_bytes: 0,
    };
    assert_eq!(m.used_percent(), 0);
    assert_eq!(format_bytes(0), "0 B");
    assert_eq!(format_bytes(1023), "1023 B");
}

#[test]
fn guard_closes_on_drop() {
    let closed = Rc::new(Cell::new(false));
    {
        let g = HandleGuard::new(0x1234, Rc::clone(&closed));
        assert_eq!(g.raw(), 0x1234);
        assert!(!closed.get());
    }
    assert!(closed.get(), "句柄应在离开作用域时自动关闭");
}

#[test]
fn legal_transitions_compile_and_run() {
    let s = Service::<Stopped>::new("WinMon");
    assert_eq!(s.name(), "WinMon");
    let s = s.start();
    let s = s.pause();
    let s = s.resume();
    let _s = s.stop();
}

#[test]
fn parse_valid_version() {
    assert_eq!(
        Version::parse("1.0.3"),
        Some(Version {
            major: 1,
            minor: 0,
            patch: 3
        })
    );
}

#[test]
fn parse_rejects_garbage() {
    assert_eq!(Version::parse("1.0"), None);
    assert_eq!(Version::parse("1.0.0.0"), None);
    assert_eq!(Version::parse("1.x.0"), None);
    assert_eq!(Version::parse(""), None);
}

#[test]
fn msi_name_is_consistent() {
    let v = Version::parse("1.0.0").unwrap();
    assert_eq!(msi_filename(v, "x64"), "winmon-1.0.0-x64.msi");
}

#[test]
fn version_text_round_trips() {
    let v = Version {
        major: 12,
        minor: 0,
        patch: 345,
    };
    assert_eq!(v.to_string(), "12.0.345");
    assert_eq!(Version::parse(&v.to_string()), Some(v));
}

fn l14_sample() -> Vec<L14Proc> {
    vec![
        L14Proc {
            pid: 4,
            name: "svc".into(),
            cpu: 95,
        },
        L14Proc {
            pid: 8,
            name: "idle".into(),
            cpu: 2,
        },
        L14Proc {
            pid: 9,
            name: "svc".into(),
            cpu: 40,
        },
    ]
}

#[test]
fn high_cpu_filters() {
    let procs = l14_sample();
    let hot = high_cpu(&procs, 90);
    assert_eq!(hot.len(), 1);
    assert_eq!(hot[0].pid, 4);
}

#[test]
fn aggregate_by_name() {
    let procs = l14_sample();
    let agg = total_cpu_by_name(&procs);
    assert_eq!(agg.get("svc"), Some(135));
    assert_eq!(agg.get("idle"), Some(2));
}

#[test]
fn core_works_with_fake_collector() {
    let c = L14Fake(l14_sample());
    let procs = c.collect();
    assert_eq!(high_cpu(&procs, 90).len(), 1);
}

#[test]
fn cpu_totals_in_first_seen_order() {
    let totals = cpu_totals(&l14_sample());
    assert_eq!(totals, vec![("svc".to_string(), 135), ("idle".to_string(), 2)]);
}

fn fake() -> FakeCollector {
    FakeCollector(vec![
        ProcessInfo {
            pid: 4,
            name: "svc".into(),
            cpu: 95,
        },
        ProcessInfo {
            pid: 8,
            name: "idle".into(),
            cpu: 3,
        },
    ])
}

#[test]
fn end_to_end_pipeline() {
    let reporters: Vec<Box<dyn Reporter>> = vec![Box::new(TextReporter), Box::new(JsonReporter)];
    let (reports, summary) = run(&fake(), 90, &reporters);

    assert_eq!(reports.len(), 2);
    assert!(reports[0].contains("svc"));
    assert!(reports[1].starts_with('['));
    assert!(!reports[1].contains("idle"));

    assert_eq!(summary.total, 2);
    assert_eq!(summary.flagged, 1);
    assert_eq!(summary.by_name.get("svc"), Some(95));
}

#[test]
fn capstone_reports_exact_text() {
    let reporters: Vec<Box<dyn Reporter>> = vec![Box::new(TextReporter), Box::new(JsonReporter)];
    let procs = fake().0;
    let (reports, summary) = run_on(&procs, 90, &reporters);
    assert_eq!(reports[0], "PID\tCPU\tNAME\n4\t95%\tsvc\n");
    assert_eq!(reports[1], r#"[{"pid":4,"cpu":95,"name":"svc"}]"#);
    assert_eq!(summary.by_name.get("idle"), Some(3));
    let (none, s2) = run_on(&procs, 100, &reporters);
    assert_eq!(none[0], "PID\tCPU\tNAME\n");
    assert_eq!(none[1], "[]");
    assert_eq!(s2.flagged, 0);
}

#[test]
fn iter_mut_edits_in_place() {
    let mut h = History::new();
    h.push(1);
    h.push(2);
    h.push(3);
    for i in 0..h.len() {
        if let Some(x) = h.get_mut(i) {
            *x *= 10;
        }
    }
    let v: Vec<&i32> = h.iter().to_vec();
    assert_eq!(v, vec![&30, &20, &10]);
    assert!(h.get_mut(3).is_none());
}

#[test]
fn update_each_edits_every_event() {
    let mut h = History::new();
    h.push(1);
    h.push(2);
    h.push(3);
    h.update_each(|x: &i32| *x * 10);
    let v: Vec<&i32> = h.iter().to_vec();
    assert_eq!(v, vec![&30, &20, &10]);
}

#[test]
fn cpu_totals_by_name_are_exact() {
    let agg = total_cpu_by_name(&l14_sample());
    assert_eq!(agg.len(), 2);
    assert_eq!(agg.get("missing"), None);
    assert!(agg.contains_key("svc"));
}

#[test]
fn totals_list_in_name_order() {
    let agg = total_cpu_by_name(&l14_sample());
    assert_eq!(agg.sorted_entries(), vec![("idle".to_string(), 2), ("svc".to_string(), 135)]);
}
