use std::mem::size_of;

use winmon::l1_memory::{ai_draft, fixed};
use winmon::l2_ownership::{Event as L2Event, EventBuffer};
use winmon::l3_borrow::{clean, Event as L3Event};
use winmon::l4_model::{ai_draft as l4_draft, describe, Event as L4Event, ExitCode, ProcessId, Resource};
use winmon::l5_report::{render_all, HtmlReporter, JsonReporter, Reporter, Stats, TextReporter};
use winmon::tally::NameTotals;

#[test]
fn fixed_report_matches_real_layout() {
    let rows = fixed::layout_report();
    let by = |n: &str| rows.iter().find(|r| r.name == n).unwrap();

    assert_eq!(by("char").size, 4, "char 是 4 字节 Unicode 标量");
    assert_eq!(by("&str").size, 16, "&str 是胖指针 = 2 个机器字");
    assert_eq!(by("String").size, 24);
    assert_eq!(by("Vec<u32>").size, 24, "Vec 永远 3 个机器字，与元素无关");
    assert_eq!(by("Vec<u64>").size, by("Vec<u32>").size);
    assert_eq!(by("&[u8]").size, 16, "切片引用也是胖指针");
    assert_eq!(by("Box<u64>").size, 8, "指向定长类型的指针是瘦指针");
    assert_eq!(by("()").size, 0);
}

#[test]
fn ai_draft_has_wrong_assertions() {
    let rows = ai_draft::report();
    let by = |n: &str| rows.iter().find(|r| r.name == n).unwrap();

    assert_ne!(by("char").size, size_of::<char>());
    assert_ne!(by("&str").size, size_of::<&str>());
    assert_ne!(by("Vec<u32>").size, size_of::<Vec<u32>>());
}

#[test]
fn fixed_report_alignments_match_compiler() {
    let rows = fixed::layout_report();
    assert_eq!(rows.len(), 10);
    let by = |n: &str| rows.iter().find(|r| r.name == n).unwrap();
    assert_eq!(by("u8").align, 1);
    assert_eq!(by("char").align, std::mem::align_of::<char>());
    assert_eq!(by("Box<u64>").align, std::mem::align_of::<Box<u64>>());
}

#[test]
fn push_then_take_all_transfers_ownership() {
    let mut buf = EventBuffer::new();
    buf.push(L2Event::new(4, "system start"));
    buf.push(L2Event::new(1200, "svc up"));
    assert_eq!(buf.len(), 2);

    let taken = buf.take_all();
    assert_eq!(taken.len(), 2);
    assert_eq!(buf.len(), 0);
    assert!(buf.is_empty());
}

#[test]
fn len_does_not_consume() {
    let mut buf = EventBuffer::new();
    buf.push(L2Event::new(4, "x"));
    assert_eq!(buf.len(), 1);
    assert_eq!(buf.len(), 1);
    buf.push(L2Event::new(5, "y"));
    assert_eq!(buf.len(), 2);
}

#[test]
fn take_all_is_zero_copy() {
    let mut buf = EventBuffer::new();
    buf.push(L2Event::new(4, "x"));
    let ptr_before = buf.events.as_ptr();
    let taken = buf.take_all();
    assert_eq!(taken.as_ptr(), ptr_before, "take_all 应该零拷贝，不能重新分配");
}

#[test]
fn take_all_keeps_push_order() {
    let mut buf = EventBuffer::default();
    buf.push(L2Event::new(1, "a"));
    buf.push(L2Event::new(2, "b"));
    let taken = buf.take_all();
    assert_eq!(taken[0].pid, 1);
    assert_eq!(taken[1].message, "b");
    assert!(buf.take_all().is_empty());
}

fn l3_sample() -> Vec<L3Event> {
    vec![
        L3Event::new(4, "system start"),
        L3Event::new(1200, "svc up"),
        L3Event::new(4, "system ready"),
    ]
}

#[test]
fn filter_by_pid_returns_references() {
    let events = l3_sample();
    let hits = clean::filter_by_pid(&events, 4);
    assert_eq!(hits.len(), 2);
    assert!(std::ptr::eq(hits[0], &events[0]));
    assert!(std::ptr::eq(hits[1], &events[2]));
}

#[test]
fn messages_containing_borrows() {
    let events = l3_sample();
    let hits = clean::messages_containing(&events, "system");
    assert_eq!(hits, vec!["system start", "system ready"]);
    assert!(std::ptr::eq(hits[0].as_ptr(), events[0].message.as_ptr()));
}

#[test]
fn count_by_pid_reads_only() {
    let events = l3_sample();
    assert_eq!(clean::count_by_pid(&events, 4), 2);
    assert_eq!(events.len(), 3);
}

#[test]
fn draft_and_clean_borrow_versions_agree() {
    let events = l3_sample();
    let owned = winmon::l3_borrow::ai_draft::filter_by_pid(l3_sample(), 4);
    let borrowed = clean::filter_by_pid(&events, 4);
    assert_eq!(owned.len(), borrowed.len());
    assert_eq!(owned[1].message, borrowed[1].message);
    assert_eq!(
        winmon::l3_borrow::ai_draft::count_by_pid(l3_sample(), 1200),
        clean::count_by_pid(&events, 1200)
    );
    assert_eq!(
        winmon::l3_borrow::ai_draft::messages_containing(l3_sample(), "up".to_string()),
        vec!["svc up".to_string()]
    );
}

#[test]
fn describe_covers_every_variant() {
    assert!(describe(&L4Event::ProcessStarted {
        pid: ProcessId(1200),
        name: "svc.exe".to_owned(),
    })
    .contains("启动"));
    assert!(describe(&L4Event::ProcessExited {
        pid: ProcessId(1200),
        code: ExitCode(0),
    })
    .contains("退出"));
    assert!(describe(&L4Event::ResourceAlert {
        resource: Resource::Cpu,
        percent: 95,
    })
    .contains("CPU"));
    assert_eq!(describe(&L4Event::Heartbeat), "心跳");
}

#[test]
fn good_model_has_no_illegal_states() {
    let _ = L4Event::Heartbeat;
}

#[test]
fn ai_draft_allows_illegal_states() {
    let nonsense = l4_draft::Event {
        kind: "heartbaet".to_owned(),
        pid: Some(4),
        name: None,
        code: Some(-1),
        resource: Some("disk".to_owned()),
        percent: None,
    };
    assert_eq!(nonsense.pid, Some(4));
}

fn stats() -> Stats {
    Stats {
        total: 42,
        errors: 3,
        top_pid: 1200,
    }
}

#[test]
fn text_format() {
    let out = TextReporter.render(&stats());
    assert!(out.contains("total: 42"));
    assert!(out.contains("top_pid: 1200"));
}

#[test]
fn json_format() {
    let out = JsonReporter.render(&stats());
    assert_eq!(out, r#"{"total":42,"errors":3,"top_pid":1200}"#);
}

#[test]
fn html_format() {
    let out = HtmlReporter.render(&stats());
    assert!(out.starts_with("<ul>"));
    assert!(out.contains("<li>errors: 3</li>"));
}

#[test]
fn render_all_runs_every_format() {
    let s = stats();
    let reporters: Vec<Box<dyn Reporter>> = vec![
        Box::new(TextReporter),
        Box::new(JsonReporter),
        Box::new(HtmlReporter),
    ];
    let out = render_all(&reporters, &s);
    assert_eq!(out.len(), 3);
    assert_eq!(s.total, 42);
}

#[test]
fn text_report_exact_lines() {
    assert_eq!(TextReporter.render(&stats()), "total: 42\nerrors: 3\ntop_pid: 1200\n");
    assert_eq!(
        HtmlReporter.render(&stats()),
        "<ul><li>total: 42</li><li>errors: 3</li><li>top_pid: 1200</li></ul>"
    );
}

#[test]
fn name_totals_replace_in_place_and_append() {
    let mut t = NameTotals::new();
    assert!(t.is_empty());
    t.set("a", 1);
    t.set("b", 2);
    t.set("a", 7);
    assert_eq!(t.len(), 2);
    assert_eq!(t.get("a"), Some(7));
    assert_eq!(t.get("b"), Some(2));
    assert_eq!(t.get("c"), None);
}
