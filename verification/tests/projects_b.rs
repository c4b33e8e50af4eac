use std::borrow::Cow;

use winmon::frb_demo::greet;
use winmon::v2_idiomatic::{aggregate, event_lines, Event, Kind, Query, UserId};
use winmon::v2_mobile::{Priority, TodoError, TodoStore};
use winmon::v2_ownership_errors::{normalize_host, validate_config, ConfigError, RawConfig};
use winmon::v2_perf_bench::{
    canonicalize, sum_squares_parallel, sum_squares_sequential, word_count_fast, word_count_naive,
};
use winmon::v2_type_modeling::{AuthError, Authenticated, Connected, Connection, Disconnected};

fn sample_events() -> Vec<Event> {
    vec![
        Event { user: UserId(1), kind: Kind::Login, ts: 100, amount_cents: None },
        Event { user: UserId(1), kind: Kind::Purchase, ts: 200, amount_cents: Some(1500) },
        Event { user: UserId(2), kind: Kind::Purchase, ts: 300, amount_cents: Some(900) },
        Event { user: UserId(2), kind: Kind::Logout, ts: 400, amount_cents: None },
    ]
}

#[test]
fn builder_query_filters_constructed_events() {
    let events = sample_events();
    let q = Query::new().kind(Kind::Purchase);
    assert_eq!(q.filter(&events).len(), 2);
    let late = Query::new().since(300);
    assert_eq!(late.filter(&events).len(), 2);
}

#[test]
fn aggregate_revenue_of_purchases() {
    let events = sample_events();
    let stats = aggregate(&Query::new().kind(Kind::Purchase).filter(&events));
    assert_eq!(stats.count, 2);
    assert_eq!(stats.revenue_cents, 2400);
    let by_user = aggregate(&Query::new().user(UserId(1)).filter(&events));
    assert_eq!(by_user.count, 2);
    assert_eq!(UserId(7).to_string(), "u7");
}

#[test]
fn event_lines_trim_and_skip_blanks() {
    let text = "\n   {\"a\":1}  \r\n\n\t\nnot json\n{oops";
    assert_eq!(event_lines(text), vec!["{\"a\":1}".to_string(), "not json".to_string(), "{oops".to_string()]);
    assert!(event_lines("").is_empty());
    assert!(event_lines(" \n \n").is_empty());
}

#[test]
fn add_then_list_and_option_mapping() {
    let mut store = TodoStore::new();
    let t1 = store
        .add("写讲义".to_string(), None, Priority::High)
        .expect("合法标题应成功");
    let t2 = store
        .add(
            "跑通构建".to_string(),
            Some("cargo build -p v2-mobile".to_string()),
            Priority::Medium,
        )
        .expect("合法标题应成功");

    assert_eq!(t1.id, 1);
    assert_eq!(t2.id, 2);
    assert_eq!(t1.note, None);
    assert_eq!(t2.note.as_deref(), Some("cargo build -p v2-mobile"));

    let all = store.list();
    assert_eq!(all.len(), 2);
    assert_eq!(store.pending_count(), 2);
    assert_eq!(store.find(1), Some(t1));
    assert_eq!(store.find(99), None);
}

#[test]
fn empty_title_maps_to_error() {
    let mut store = TodoStore::new();
    let err = store
        .add("   ".to_string(), None, Priority::Low)
        .unwrap_err();
    assert!(matches!(err, TodoError::EmptyTitle));
    assert_eq!(err.message(), "标题不能为空");
    assert_eq!(store.list().len(), 0);
}

#[test]
fn complete_updates_state_and_not_found_error() {
    let mut store = TodoStore::new();
    let t = store
        .add("评审 PR".to_string(), None, Priority::Low)
        .expect("合法标题应成功");
    assert!(!t.done);

    let done = store.complete(t.id).expect("应能完成已存在的待办");
    assert!(done.done);
    assert_eq!(store.pending_count(), 0);

    let err = store.complete(404).unwrap_err();
    assert!(matches!(err, TodoError::NotFound { id } if id == 404));
    assert_eq!(err.message(), "未找到 id=404 的待办");
}

#[test]
fn mobile_titles_are_trimmed() {
    let mut store = TodoStore::default();
    let t = store.add("  tidy  ".to_string(), None, Priority::Low).unwrap();
    assert_eq!(t.title, "tidy");
}

#[test]
fn cow_borrows_when_already_normalized() {
    let got = normalize_host("db.local");
    assert!(matches!(got, Cow::Borrowed(_)));
    assert_eq!(got, "db.local");
}

#[test]
fn cow_owns_when_modified() {
    let got = normalize_host("  DB.Local  ");
    assert!(matches!(got, Cow::Owned(_)));
    assert_eq!(got, "db.local");
}

fn raw(name: Option<&str>, host: Option<&str>, port: Option<u64>, max: Option<u64>) -> RawConfig {
    RawConfig {
        name: name.map(|s| s.to_string()),
        host: host.map(|s| s.to_string()),
        port,
        max_connections: max,
    }
}

#[test]
fn validate_config_defaults_and_errors() {
    let cfg = validate_config(raw(Some("svc"), Some("db.local"), Some(5432), None)).unwrap();
    assert_eq!(cfg.name, "svc");
    assert_eq!(cfg.host, "db.local");
    assert_eq!(cfg.port, 5432);
    assert_eq!(cfg.max_connections, 100);
    match validate_config(raw(Some("svc"), Some("db.local"), None, None)) {
        Err(ConfigError::Missing { key }) => assert_eq!(key, "port"),
        other => panic!("期望 Missing, 实际 {other:?}"),
    }
    match validate_config(raw(Some("svc"), Some("h"), Some(70000), None)) {
        Err(ConfigError::Invalid { field, reason }) => {
            assert_eq!(field, "port");
            assert_eq!(reason, "必须在 1..=65535 之间, 实际为 70000");
        }
        other => panic!("期望 Invalid, 实际 {other:?}"),
    }
    match validate_config(raw(Some("svc"), Some("   "), Some(1), None)) {
        Err(ConfigError::Invalid { field, .. }) => assert_eq!(field, "host"),
        other => panic!("期望 Invalid, 实际 {other:?}"),
    }
    match validate_config(raw(None, None, None, None)) {
        Err(ConfigError::Missing { key }) => assert_eq!(key, "name"),
        other => panic!("期望 Missing, 实际 {other:?}"),
    }
    match validate_config(raw(Some("s"), Some("H"), Some(0), None)) {
        Err(ConfigError::Invalid { reason, .. }) => assert_eq!(reason, "不能为 0"),
        other => panic!("期望 Invalid, 实际 {other:?}"),
    }
    match validate_config(raw(Some("s"), Some("H"), Some(1), Some(5_000_000_000))) {
        Err(ConfigError::Invalid { field, reason }) => {
            assert_eq!(field, "max_connections");
            assert_eq!(reason, "超出 u32 上限: 5000000000");
        }
        other => panic!("期望 Invalid, 实际 {other:?}"),
    }
    let upper = validate_config(raw(Some("s"), Some(" DB "), Some(1), Some(7))).unwrap();
    assert_eq!(upper.host, "db");
    assert_eq!(upper.max_connections, 7);
}

const SAMPLE: &str = "the quick brown fox the lazy dog the fox";

#[test]
fn naive_and_fast_agree() {
    let naive_pairs = word_count_naive(SAMPLE);
    let naive = canonicalize(naive_pairs.iter().map(|(w, c)| (w.as_str(), *c)).collect());
    let fast = canonicalize(word_count_fast(SAMPLE).into_pairs());
    assert_eq!(naive, fast);
}

#[test]
fn word_counts_are_correct() {
    let map = word_count_fast(SAMPLE);
    assert_eq!(map.get("the"), Some(&3));
    assert_eq!(map.get("fox"), Some(&2));
    assert_eq!(map.get("quick"), Some(&1));
    assert_eq!(map.get("missing"), None);
    assert_eq!(map.len(), 6);
}

#[test]
fn empty_and_whitespace_input() {
    assert!(word_count_naive("").is_empty());
    assert!(word_count_fast("   \n\t  ").is_empty());
    assert_eq!(sum_squares_sequential(&[]), 0);
    assert_eq!(sum_squares_parallel(&[]), 0);
}

#[test]
fn sequential_and_parallel_agree() {
    let values: Vec<u64> = (0..10_000).collect();
    let seq = sum_squares_sequential(&values);
    let par = sum_squares_parallel(&values);
    assert_eq!(seq, par);
    let n = 10_000u64;
    let expected = (n - 1) * n * (2 * n - 1) / 6;
    assert_eq!(seq, expected);
}

#[test]
fn naive_counts_in_first_seen_order() {
    let counts = word_count_naive(SAMPLE);
    let words: Vec<&str> = counts.iter().map(|(w, _)| w.as_str()).collect();
    assert_eq!(words, vec!["the", "quick", "brown", "fox", "lazy", "dog"]);
    assert_eq!(counts[0].1, 3);
    let sorted = canonicalize(vec![("b", 2), ("a", 9), ("b", 1), ("ab", 1)]);
    assert_eq!(
        sorted,
        vec![("a".to_string(), 9), ("ab".to_string(), 1), ("b".to_string(), 1), ("b".to_string(), 2)]
    );
    assert_eq!(sum_squares_sequential(&[u64::MAX]), 1);
    assert_eq!(sum_squares_parallel(&[u64::MAX, 2]), 5);
}

#[test]
fn full_lifecycle_send_after_auth() {
    let mut conn = Connection::new("db.internal:5432")
        .connect()
        .authenticate("token")
        .expect("non-empty token authenticates");

    let total = conn.send("PING");
    assert_eq!(total, 1);
    assert_eq!(conn.endpoint(), "db.internal:5432");
}

#[test]
fn send_count_aggregates() {
    let mut conn = Connection::new("svc:9000").connect().authenticate("t").unwrap();

    conn.send("a");
    conn.send("b");
    conn.send("c");
    assert_eq!(conn.sent_count(), 3);
}

#[test]
fn empty_token_is_rejected() {
    let result = Connection::new("svc:9000").connect().authenticate("");
    assert!(matches!(result, Err(AuthError::EmptyToken)));
}

#[test]
fn round_trip_preserves_aggregate_state() {
    let mut conn = Connection::new("svc:9000").connect().authenticate("t").unwrap();
    conn.send("first");

    let mut conn = conn.logout().authenticate("t").unwrap();
    conn.send("second");
    assert_eq!(conn.sent_count(), 2);
}

#[test]
fn state_name_reflects_type_parameter() {
    let disconnected = Connection::new("x");
    assert_eq!(disconnected.state_name(), "disconnected");

    let connected = disconnected.connect();
    assert_eq!(connected.state_name(), "connected");

    let authenticated = connected.authenticate("t").unwrap();
    assert_eq!(authenticated.state_name(), "authenticated");
}

#[test]
fn state_markers_are_zero_sized() {
    assert_eq!(core::mem::size_of::<Disconnected>(), 0);
    assert_eq!(core::mem::size_of::<Connected>(), 0);
    assert_eq!(core::mem::size_of::<Authenticated>(), 0);
}

#[test]
fn disconnect_keeps_endpoint_and_message() {
    let c = Connection::new("e:1").connect().disconnect();
    assert_eq!(c.endpoint(), "e:1");
    assert_eq!(AuthError::EmptyToken.message(), "authentication token must not be empty");
}

#[test]
fn frb_greet_and_add() {
    assert_eq!(greet("Flutter".to_string()), "Hello, Flutter!");
    assert_eq!(winmon::frb_demo::add(2, 40), 42);
}

#[test]
fn builder_query_filters() {
    let events = sample_events();
    let q = Query::new().kind(Kind::Purchase);
    let hits = q.filter(&events);
    assert_eq!(hits.len(), 2);
}

#[test]
fn aggregate_revenue() {
    let events = sample_events();
    let stats = aggregate(&Query::new().kind(Kind::Purchase).filter(&events));
    assert_eq!(stats.count, 2);
    assert_eq!(stats.revenue_cents, 2400);
}

#[test]
fn newtype_user_filter() {
    let events = sample_events();
    let stats = aggregate(&Query::new().user(UserId(1)).filter(&events));
    assert_eq!(stats.count, 2);
}

#[test]
fn load_ok_with_defaults() {
    let cfg = validate_config(raw(Some("svc"), Some("db.local"), Some(5432), None)).unwrap();
    assert_eq!(cfg.name, "svc");
    assert_eq!(cfg.host, "db.local");
    assert_eq!(cfg.port, 5432);
    assert_eq!(cfg.max_connections, 100);
}

#[test]
fn missing_required_field() {
    let err = validate_config(raw(Some("svc"), Some("db.local"), None, None)).unwrap_err();
    match err {
        ConfigError::Missing { key } => assert_eq!(key, "port"),
        other => panic!("期望 Missing, 实际 {other:?}"),
    }
}

#[test]
fn invalid_field_value() {
    let err = validate_config(raw(Some("svc"), Some("h"), Some(70000), None)).unwrap_err();
    match err {
        ConfigError::Invalid { field, .. } => assert_eq!(field, "port"),
        other => panic!("期望 Invalid, 实际 {other:?}"),
    }
}

#[test]
fn fast_counts_follow_first_occurrence() {
    let naive = word_count_naive(SAMPLE);
    let fast = word_count_fast(SAMPLE).into_pairs();
    let naive_borrowed: Vec<(&str, usize)> = naive.iter().map(|(w, c)| (w.as_str(), *c)).collect();
    assert_eq!(fast, naive_borrowed);
    assert_eq!(fast[0], ("the", 3));
}

#[test]
fn word_counts_add_up_to_the_word_count() {
    let words = SAMPLE.split_whitespace().count();
    let naive: usize = word_count_naive(SAMPLE).iter().map(|(_, c)| *c).sum();
    let fast: usize = word_count_fast(SAMPLE).into_pairs().iter().map(|(_, c)| *c).sum();
    assert_eq!(naive, words);
    assert_eq!(fast, words);
}
