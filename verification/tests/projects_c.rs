use winmon::v2_win_api::{exe_name, filter_by_name, format_table, list_processes, sort_by_pid, ProcessInfo};
use winmon::v2_win_com::{
    com_support_summary, format_call_report, probe_summary, sample_call_log, CallRecord, Hresult,
    RefCountLedger,
};
use winmon::v2_win_gui::{
    page, reg_sz_bytes, AppConfig, ConfigError, MenuItem, ServiceCommand, ServiceState, Theme, TrayMenu,
    AUTOSTART_REG_PATH,
};
use winmon::v2_win_packaging::{app_version, banner_for, greeting, package_name, triple_for, APP_NAME};

fn fixture() -> Vec<ProcessInfo> {
    vec![
        ProcessInfo::new(4, "System"),
        ProcessInfo::new(1280, "explorer.exe"),
        ProcessInfo::new(2048, "Code.exe"),
        ProcessInfo::new(640, "svchost.exe"),
    ]
}

#[test]
fn filter_is_case_insensitive_substring() {
    let procs = fixture();
    let hits = filter_by_name(&procs, "EXE");
    assert_eq!(hits.len(), 3);
    assert!(hits.iter().all(|p| p.name.to_lowercase().contains("exe")));
}

#[test]
fn filter_no_match_returns_empty() {
    let procs = fixture();
    assert!(filter_by_name(&procs, "no-such-process").is_empty());
}

#[test]
fn sort_orders_by_pid_ascending() {
    let mut procs = fixture();
    sort_by_pid(&mut procs);
    let pids: Vec<u32> = procs.iter().map(|p| p.pid).collect();
    assert_eq!(pids, vec![4, 640, 1280, 2048]);
}

#[test]
fn format_table_has_header_and_one_row_per_process() {
    let procs = fixture();
    let table = format_table(&procs);
    assert!(table.starts_with("   PID  NAME\n"));
    assert_eq!(table.lines().count(), 5);
    assert!(table.contains("explorer.exe"));
}

#[test]
fn list_processes_is_callable_on_every_platform() {
    let procs = list_processes();
    let _ = format_table(&procs);
    assert!(!procs.is_empty());
}

#[test]
fn sort_is_stable_and_table_is_aligned() {
    let mut procs = vec![
        ProcessInfo::new(9, "b"),
        ProcessInfo::new(3, "x"),
        ProcessInfo::new(9, "a"),
        ProcessInfo::new(1, "y"),
    ];
    sort_by_pid(&mut procs);
    let names: Vec<&str> = procs.iter().map(|p| p.name.as_str()).collect();
    assert_eq!(names, vec!["y", "x", "b", "a"]);
    assert_eq!(format_table(&procs[..1]), "   PID  NAME\n     1  y\n");
    assert_eq!(format_table(&[ProcessInfo::new(1234567, "w")]), "   PID  NAME\n1234567  w\n");
}

#[test]
fn hresult_classifies_success_and_failure() {
    assert!(Hresult::S_OK().is_ok());
    assert!(Hresult::S_FALSE().is_ok());
    assert!(Hresult::E_NOINTERFACE().is_err());
    assert!(Hresult::E_ACCESSDENIED().is_err());
    assert!(Hresult::E_NOINTERFACE().classify().contains("E_NOINTERFACE"));
    assert!(Hresult::S_OK().classify().contains("S_OK"));
    assert!(Hresult(0x8000_FFFF_u32 as i32).classify().contains("失败"));
}

#[test]
fn hresult_decomposes_into_severity_facility_code() {
    let hr = Hresult::E_ACCESSDENIED();
    assert_eq!(hr.severity(), 1);
    assert_eq!(hr.facility(), 7);
    assert_eq!(hr.code(), 5);
    assert_eq!(hr.to_string(), "0x80070005");
    assert_eq!(Hresult::S_OK().severity(), 0);
}

#[test]
fn hresult_named_codes_have_their_values() {
    assert_eq!(Hresult::E_NOINTERFACE().0 as u32, 0x8000_4002);
    assert_eq!(Hresult::E_POINTER().0 as u32, 0x8000_4003);
    assert_eq!(Hresult::E_FAIL().0 as u32, 0x8000_4005);
    assert_eq!(Hresult::RPC_E_CHANGED_MODE().0 as u32, 0x8001_0106);
    assert_eq!(Hresult::RPC_E_CHANGED_MODE().classify(), "RPC_E_CHANGED_MODE 公寓模型冲突");
    assert_eq!(Hresult(5).classify(), "成功（未具名 HRESULT）");
    assert_eq!(Hresult(1).to_string(), "0x00000001");
    assert_eq!(Hresult::E_POINTER().facility(), 0);
    assert_eq!(Hresult::E_POINTER().code(), 0x4003);
}

#[test]
fn refcount_ledger_tracks_balance_leak_and_over_release() {
    let mut l = RefCountLedger::new();
    assert_eq!(l.count(), 1);
    assert_eq!(l.add_ref(), 2);
    l.release();
    l.release();
    assert!(l.is_balanced());
    assert!(!l.leaked());

    let mut leaky = RefCountLedger::new();
    leaky.add_ref();
    leaky.release();
    assert!(leaky.leaked());
    assert_eq!(leaky.count(), 1);

    let mut over = RefCountLedger::new();
    over.release();
    over.release();
    assert!(over.over_released());
}

#[test]
fn format_call_report_has_header_and_one_row_per_call() {
    let log = sample_call_log();
    let table = format_call_report(&log);
    assert!(table.starts_with("INTERFACE"));
    assert_eq!(table.lines().count(), 1 + log.len());
    assert!(table.contains("IShellLinkW"));
    assert!(table.contains("OK"));
    assert!(table.contains("ERR"));
}

#[test]
fn com_support_summary_is_callable_on_every_platform() {
    let summary = com_support_summary();
    assert!(!summary.is_empty());
}

#[test]
fn call_report_rows_are_padded() {
    let rows = vec![CallRecord::failed("IFoo", "QueryInterface", Hresult::E_NOINTERFACE())];
    assert_eq!(
        format_call_report(&rows),
        "INTERFACE        METHOD               HRESULT      STATUS\nIFoo             QueryInterface       0x80004002   ERR\n"
    );
    assert!(CallRecord::ok("A", "B").succeeded());
    assert_eq!(probe_summary(Err("denied".to_string())), "COM 探测失败：denied");
    assert_eq!(probe_summary(Ok(vec![])), "INTERFACE        METHOD               HRESULT      STATUS\n");
}

#[test]
fn service_state_machine_happy_path() {
    let s = ServiceState::default();
    assert_eq!(s, ServiceState::Stopped);
    let s = s.apply(ServiceCommand::Start).unwrap();
    assert_eq!(s, ServiceState::Running);
    assert!(s.is_active());
    let s = s.apply(ServiceCommand::Pause).unwrap();
    assert_eq!(s, ServiceState::Paused);
    assert!(s.is_active());
    let s = s.apply(ServiceCommand::Continue).unwrap();
    assert_eq!(s, ServiceState::Running);
    let s = s.apply(ServiceCommand::Stop).unwrap();
    assert_eq!(s, ServiceState::Stopped);
    assert!(!s.is_active());
}

#[test]
fn service_state_machine_rejects_invalid() {
    let s = ServiceState::Stopped;
    for cmd in [ServiceCommand::Pause, ServiceCommand::Continue, ServiceCommand::Stop] {
        let err = s.apply(cmd).unwrap_err();
        assert_eq!(err.from, ServiceState::Stopped);
        assert_eq!(err.command, cmd);
    }
    let running = ServiceState::Running;
    assert!(running.apply(ServiceCommand::Start).is_err());
}

#[test]
fn invalid_transition_message_names_both() {
    let err = ServiceState::Paused.apply(ServiceCommand::Pause).unwrap_err();
    assert_eq!(err.message(), "非法服务迁移：状态 Paused 不接受命令 Pause");
}

#[test]
fn tray_menu_builder_and_find() {
    let menu = TrayMenu::new()
        .action("open", "打开主界面")
        .checkbox("autostart", "开机自启", false)
        .separator()
        .action("quit", "退出");
    assert_eq!(menu.len(), 4);
    assert!(!menu.is_empty());
    assert!(menu.find("nope").is_none());
    match menu.find("open") {
        Some(MenuItem::Action { label, enabled, .. }) => {
            assert_eq!(label, "打开主界面");
            assert!(*enabled);
        }
        other => panic!("应找到 open 动作项，实得 {other:?}"),
    }
}

#[test]
fn tray_menu_toggle_and_set_enabled() {
    let mut menu = TrayMenu::new()
        .checkbox("autostart", "开机自启", false)
        .action("open", "打开");
    assert_eq!(menu.toggle("autostart"), Some(true));
    assert_eq!(menu.toggle("autostart"), Some(false));
    assert_eq!(menu.toggle("open"), None);
    assert_eq!(menu.toggle("ghost"), None);
    assert!(menu.set_enabled("open", false));
    assert!(!menu.set_enabled("ghost", false));
    assert!(matches!(menu.find("open"), Some(MenuItem::Action { enabled: false, .. })));
}

#[test]
fn menu_renders_to_html() {
    let menu = TrayMenu::new()
        .action("open", "打开")
        .checkbox("autostart", "自启", true)
        .separator();
    let html = menu.to_html();
    assert!(html.contains("data-id=\"open\""));
    assert!(html.contains("[x] 自启"));
    assert!(html.contains("<hr>"));
}

#[test]
fn menu_html_is_exact() {
    let mut menu = TrayMenu::new().action("a", "A").checkbox("c", "C", false);
    menu.set_enabled("a", false);
    assert_eq!(
        menu.to_html(),
        "<ul class=\"menu\"><li class=\"action disabled\" data-id=\"a\">A</li><li class=\"checkbox\" data-id=\"c\">[ ] C</li></ul>"
    );
    assert_eq!(TrayMenu::new().to_html(), "<ul class=\"menu\"></ul>");
    assert_eq!(menu.items()[1].id(), Some("c"));
    assert_eq!(MenuItem::Separator.id(), None);
}

#[test]
fn config_validation_and_autostart_metadata() {
    let mut cfg = AppConfig::new("LenovoAgent");
    assert!(cfg.validate().is_ok());
    assert_eq!(cfg.autostart_value_name(), "LenovoAgent");
    assert_eq!(AUTOSTART_REG_PATH, r"Software\Microsoft\Windows\CurrentVersion\Run");

    cfg.app_name = "   ".into();
    assert_eq!(cfg.validate(), Err(ConfigError::EmptyName));
    cfg.app_name = r"bad\name".into();
    assert_eq!(cfg.validate(), Err(ConfigError::InvalidNameChar('\\')));
}

#[test]
fn config_defaults_and_first_bad_char() {
    let cfg = AppConfig::new("x");
    assert!(!cfg.autostart);
    assert!(cfg.start_minimized);
    assert_eq!(cfg.theme, Theme::System);
    assert_eq!(Theme::default(), Theme::System);
    let bad = AppConfig::new("a|b:c");
    assert_eq!(bad.validate(), Err(ConfigError::InvalidNameChar('|')));
    assert_eq!(ConfigError::EmptyName.message(), "应用名不能为空");
    assert_eq!(ConfigError::InvalidNameChar('\\').message(), "应用名含非法字符：'\\\\'");
}

#[test]
fn reg_sz_is_nul_terminated_utf16_le() {
    assert_eq!(reg_sz_bytes(""), vec![0, 0]);
    assert_eq!(reg_sz_bytes("A"), vec![0x41, 0, 0, 0]);
    assert_eq!(reg_sz_bytes("é"), vec![0xE9, 0, 0, 0]);
    let expected: Vec<u8> = "a😀".encode_utf16().chain(std::iter::once(0)).flat_map(|u| u.to_le_bytes()).collect();
    assert_eq!(reg_sz_bytes("a😀"), expected);
}

#[test]
fn greeting_includes_name_and_version() {
    let msg = greeting("Lenovo");
    assert!(msg.contains("Lenovo"), "应包含传入的名字: {msg}");
    assert!(msg.contains(app_version()), "应包含版本号: {msg}");
    assert!(msg.contains(APP_NAME), "应包含应用名: {msg}");
}

#[test]
fn greeting_falls_back_on_blank_input() {
    assert!(greeting("   ").contains("world"));
    assert!(greeting("").contains("world"));
}

#[test]
fn banner_carries_version_and_target() {
    let b = banner_for(triple_for("linux", "gnu"));
    assert!(b.contains(package_name()));
    assert!(b.contains(app_version()));
    assert_ne!(triple_for("linux", "gnu"), "unknown", "未识别的编译目标: {b}");
}

#[test]
fn greeting_and_triples_exact() {
    assert_eq!(greeting("  Ann "), "Hello, Ann! —— from v2-greeter v0.1.0");
    assert_eq!(triple_for("windows", "msvc"), "x86_64/aarch64-pc-windows-msvc");
    assert_eq!(triple_for("windows", "gnu"), "*-pc-windows-gnu");
    assert_eq!(triple_for("macos", ""), "*-apple-darwin");
    assert_eq!(triple_for("freebsd", ""), "unknown");
    assert_eq!(banner_for("t"), "v2-win-packaging v0.1.0 (target: t)");
}

#[test]
fn exe_name_stops_at_the_first_nul() {
    let mut buf = [0u16; 16];
    for (i, u) in "explorer.exe".encode_utf16().enumerate() {
        buf[i] = u;
    }
    buf[13] = u16::from(b'x');
    assert_eq!(exe_name(&buf), "explorer.exe");
}

#[test]
fn exe_name_takes_the_whole_buffer_without_nul() {
    let buf: Vec<u16> = "Code.exe".encode_utf16().collect();
    assert_eq!(exe_name(&buf), "Code.exe");
    let wide: Vec<u16> = "记事本.exe".encode_utf16().chain(std::iter::once(0)).collect();
    assert_eq!(exe_name(&wide), "记事本.exe");
}

#[test]
fn exe_name_replaces_an_unpaired_surrogate() {
    let buf = [u16::from(b'a'), 0xD800, u16::from(b'b'), 0];
    assert_eq!(exe_name(&buf), "a\u{FFFD}b");
}

#[test]
fn page_wraps_the_menu_html() {
    let menu = TrayMenu::new().action("open", "打开主界面").separator();
    let html = page(&menu);
    assert!(html.starts_with("<!doctype html><html><head><meta charset=\"utf-8\"><style>"));
    assert!(html.contains("<h3>托盘菜单预览</h3>"));
    assert!(html.ends_with(&format!("{}</body></html>", menu.to_html())));
}

#[test]
fn ledger_count_tracks_any_call_order() {
    let mut l = RefCountLedger::new();
    assert_eq!(l.add_ref(), 2);
    l.release();
    l.release();
    assert!(l.is_balanced() && !l.leaked() && !l.over_released());

    let mut over = RefCountLedger::new();
    over.release();
    over.release();
    assert!(over.over_released() && !over.is_balanced() && !over.leaked());

    let mut mixed = RefCountLedger::new();
    for add in [true, false, true, true, false] {
        if add {
            mixed.add_ref();
        } else {
            mixed.release();
        }
    }
    assert_eq!(mixed.count(), 1 + 3 - 2);
    assert!(mixed.leaked());
}
