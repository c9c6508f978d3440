use kimi_companion::desktop::{
    apps, desktop_apps_status, enum_uninstall_keys, find_app, image_filter, is_running,
    after_display_icon, query_reg_value, sanitize_display_icon, AppProbe, RegistryStep,
};
use kimi_companion::launcher::{
    self, after_auth, build_url, check_token_read, get_status, needs_takeover, probe_cache_hit,
    restart_begin, restart_web_if_running, start, start_begin, stop, stop_begin, wait_ready_step,
    RestartAction, RestartEvent, StartAction, StartEvent, StartPhase, StopAction, StopEvent,
    TokenDecision, WaitDecision,
};
use kimi_companion::models::RunningInstance;
use kimi_companion::stats::{
    days_since_monday, get_heatmap, get_summary, get_trend, heatmap_sums_fit, resolve_days,
    week_start, window_start_modifier, HEATMAP_DEFAULT_DAYS,
};
use kimi_companion::wsl::WslProbe;

fn inst(port: u16, token: &str) -> RunningInstance {
    RunningInstance { distro: "Ubuntu".into(), port, token: token.into() }
}

#[test]
fn display_icon_becomes_exe_path() {
    assert_eq!(sanitize_display_icon("C:\\Kimi Code\\Kimi Code.exe,0").as_deref(), Some("C:\\Kimi Code\\Kimi Code.exe"));
    assert_eq!(sanitize_display_icon("\"C:\\Kimi Code\\Kimi Code.exe\"").as_deref(), Some("C:\\Kimi Code\\Kimi Code.exe"));
    assert_eq!(sanitize_display_icon("\"C:\\Kimi Code\\Kimi Code.exe\",0").as_deref(), Some("C:\\Kimi Code\\Kimi Code.exe"));
    assert_eq!(sanitize_display_icon("  \"C:\\A\\b.exe\" ,12 ").as_deref(), Some("C:\\A\\b.exe"));
    assert_eq!(sanitize_display_icon("C:\\A\\b.EXE").as_deref(), Some("C:\\A\\b.EXE"));
    assert_eq!(sanitize_display_icon("C:\\A\\b.ico,0"), None);
    assert_eq!(sanitize_display_icon("C:\\A,b\\c.exe").as_deref(), Some("C:\\A,b\\c.exe"));
    assert_eq!(sanitize_display_icon("C:\\A\\c.exe,"), None);
}

#[test]
fn registry_output_parsing() {
    let out = b"\r\nHKEY_LOCAL_MACHINE\\X\\K\r\n    DisplayIcon    REG_SZ    C:\\Kimi Code\\Kimi Code.exe,0\r\n";
    assert_eq!(query_reg_value("displayicon", true, out).as_deref(), Some("C:\\Kimi Code\\Kimi Code.exe,0"));
    assert_eq!(query_reg_value("DisplayName", true, out), None);
    assert_eq!(query_reg_value("DisplayIcon", false, out), None);
    let list = b"\r\nHKEY_LOCAL_MACHINE\\R\r\nHKEY_LOCAL_MACHINE\\R\\A\r\nHKEY_LOCAL_MACHINE\\R\\\r\n  HKEY_LOCAL_MACHINE\\R\\B  \r\nother\r\n";
    assert_eq!(enum_uninstall_keys("HKEY_LOCAL_MACHINE\\R", list), vec!["HKEY_LOCAL_MACHINE\\R\\A", "HKEY_LOCAL_MACHINE\\R\\B"]);
}

#[test]
fn tasklist_output_parsing() {
    let running = b"\"Kimi Code.exe\",\"1234\",\"Console\",\"1\",\"100 K\"\r\n";
    assert!(is_running("Kimi Code.exe", running));
    assert!(is_running("kimi code.EXE", running));
    assert!(!is_running("Kimi Code.exe", "INFO: No tasks are running which match the specified criteria.\r\n".as_bytes()));
    assert_eq!(image_filter("Kimi Code.exe"), "IMAGENAME eq Kimi Code.exe");
}

#[test]
fn desktop_app_table_and_status() {
    let specs = apps();
    assert_eq!(specs.len(), 1);
    assert_eq!(find_app(&specs, "kimi-code"), Some(0));
    assert_eq!(find_app(&specs, "other"), None);
    assert!(specs[0].matches_display_name("Kimi Code 1.0.1"));
    assert!(!specs[0].matches_display_name("Kimi"));
    let infos = desktop_apps_status(&specs, vec![AppProbe { exe_path: Some("C:\\k.exe".into()), running: true }]);
    assert_eq!(infos[0].id, "kimi-code");
    assert_eq!(infos[0].name, "Kimi Code");
    assert!(infos[0].installed && infos[0].running);
    assert_eq!(infos[0].exe_path.as_deref(), Some("C:\\k.exe"));
    assert_eq!(kimi_companion::desktop::unknown_app_error("x"), "未知的桌面应用: x");
    assert_eq!(kimi_companion::desktop::not_installed_error("Kimi Code"), "Kimi Code 未安装，无法启动");
}

#[test]
fn heatmap_total_is_sum_of_columns() {
    let rows = vec![("2025-01-01".to_string(), (1, 2, 3, 4)), ("2025-01-03".to_string(), (10, 0, 0, 5))];
    assert!(heatmap_sums_fit(&rows));
    let days = get_heatmap(rows);
    assert_eq!(days.len(), 2);
    assert_eq!((days[0].date.as_str(), days[0].total), ("2025-01-01", 10));
    assert_eq!(days[1].total, 15);
    assert!(!heatmap_sums_fit(&vec![("d".to_string(), (i64::MAX, 1, 0, 0))]));
}

#[test]
fn trend_and_summary_copy_sums() {
    let t = get_trend(vec![("2025-01-01".to_string(), 1, 2, 3)]);
    assert_eq!((t[0].input, t[0].output, t[0].cache), (1, 2, 3));
    let s = get_summary((1, 2, 3, 4), (5, 6, 7, 8), (9, 10, 11, 12), (13, 14, 15, 16),
        vec![("m".to_string(), (1, 1, 1, 1))], vec![], vec![], vec![("n".to_string(), (2, 0, 0, 0))]);
    assert_eq!((s.today.input, s.this_week.output, s.this_month.cache_read, s.total.cache_creation), (1, 6, 11, 16));
    assert_eq!(s.by_model[0].model, "m");
    assert_eq!(s.this_month_by_model[0].input, 2);
    assert!(s.today_by_model.is_empty());
}

#[test]
fn period_boundaries() {
    assert_eq!(resolve_days(None, HEATMAP_DEFAULT_DAYS), 365);
    assert_eq!(resolve_days(Some(7), HEATMAP_DEFAULT_DAYS), 7);
    assert_eq!(window_start_modifier(30), "-29 days");
    assert_eq!(window_start_modifier(0), "-0 days");
    assert_eq!(days_since_monday(1), 0);
    assert_eq!(days_since_monday(0), 6);
    assert_eq!(week_start(1_000_000_000, days_since_monday(3)), 1_000_000_000 - 2 * 86_400_000);
}

#[test]
fn status_takes_over_unknown_instance() {
    assert!(needs_takeover(&Some(None), Some(58627), Some("Ubuntu")));
    assert!(!needs_takeover(&Some(Some(inst(58627, "t"))), Some(58627), Some("Ubuntu")));
    let probe = Some(Ok(WslProbe { kimi_installed: true, tui_running: false }));
    let r = get_status(true, Some(None), Some("Ubuntu"), Some(58627), probe, Some(Ok("tok".into())));
    assert!(r.status.wsl_ok && r.status.kimi_installed && r.status.running && !r.status.tui_running);
    assert_eq!(r.status.url.as_deref(), Some("http://127.0.0.1:58627/#token=tok"));
    assert_eq!(r.adopted.as_ref().map(|i| i.token.as_str()), Some("tok"));
}

#[test]
fn status_without_token_or_client() {
    let r = get_status(true, Some(Some(inst(58628, "old"))), None, Some(58627), None, None);
    assert_eq!(r.status.url, None);
    assert!(!r.status.wsl_ok);
    assert!(r.adopted.is_none());
    let r = get_status(true, Some(Some(inst(58627, "old"))), Some("U"), Some(58627), Some(Err("x".into())), None);
    assert_eq!(r.status.url.as_deref(), Some("http://127.0.0.1:58627/#token=old"));
    let r = get_status(false, Some(Some(inst(58627, "old"))), Some("U"), Some(58627), None, None);
    assert!(!r.status.running && r.status.port.is_none());
    let r = get_status(true, None, Some("U"), Some(58627), None, Some(Ok("tok".into())));
    assert!(r.adopted.is_none() && r.status.url.is_none());
    assert_eq!(build_url(1, "a"), "http://127.0.0.1:1/#token=a");
    assert_eq!(launcher::local_url(58627, "/api/v1/healthz"), "http://127.0.0.1:58627/api/v1/healthz");
}

#[test]
fn start_spawns_web_and_terminal() {
    let (p, a) = start_begin();
    assert!(matches!(a, StartAction::GetClient));
    let (p, a) = start("Ubuntu", p, StartEvent::ClientReady(Ok(())));
    assert!(matches!(a, StartAction::ProbePorts));
    let (p, a) = start("Ubuntu", p, StartEvent::PortsProbed(false));
    assert!(matches!(a, StartAction::ProbeWsl));
    let (p, a) = start("Ubuntu", p, StartEvent::WslProbed(Ok(WslProbe { kimi_installed: true, tui_running: false })));
    assert!(matches!(a, StartAction::SpawnWeb));
    let (p, a) = start("Ubuntu", p, StartEvent::WebSpawned(Ok(())));
    assert!(matches!(a, StartAction::WaitReady));
    let (p, a) = start("Ubuntu", p, StartEvent::Ready(Ok((58628, "tok".into()))));
    assert!(matches!(a, StartAction::OpenTerminal));
    let (p, a) = start("Ubuntu", p, StartEvent::TerminalOpened);
    match a {
        StartAction::Commit(i) => assert_eq!((i.distro.as_str(), i.port, i.token.as_str()), ("Ubuntu", 58628, "tok")),
        _ => panic!("expected commit"),
    }
    let (p, a) = start("Ubuntu", p, StartEvent::Committed(true));
    assert!(matches!(p, StartPhase::Finished));
    match a {
        StartAction::Done(Ok(st)) => {
            assert!(st.wsl_ok && st.kimi_installed && st.running && st.tui_running);
            assert_eq!(st.url.as_deref(), Some("http://127.0.0.1:58628/#token=tok"));
        },
        _ => panic!("expected success"),
    }
}

#[test]
fn start_reuses_running_instance_and_reports_errors() {
    let (p, _) = start("U", StartPhase::AwaitPorts, StartEvent::PortsProbed(true));
    let (p, a) = start("U", p, StartEvent::Ready(Ok((1, "t".into()))));
    assert!(matches!(a, StartAction::ProbeTui));
    let (_, a) = start("U", p, StartEvent::TuiProbed(true));
    assert!(matches!(a, StartAction::Commit(_)));
    let (_, a) = start("U", StartPhase::AwaitWslProbe, StartEvent::WslProbed(Ok(WslProbe { kimi_installed: false, tui_running: true })));
    match a {
        StartAction::Done(Err(e)) => assert_eq!(e, "发行版 U 中没有找到 kimi CLI（which kimi 为空）"),
        _ => panic!("expected error"),
    }
    let (_, a) = start("U", StartPhase::AwaitCommit { port: 1, token: "t".into() }, StartEvent::Committed(false));
    assert!(matches!(a, StartAction::Done(Err(ref e)) if e == launcher::LOCK_ERROR));
}

#[test]
fn restart_only_when_running() {
    let (p, _) = restart_begin();
    let (p, _) = restart_web_if_running("U", p, RestartEvent::ClientReady(Ok(())));
    let (_, a) = restart_web_if_running("U", p, RestartEvent::PortsProbed(false));
    assert!(matches!(a, RestartAction::Done(Ok(false))));
    let (p, _) = restart_web_if_running("U", launcher::RestartPhase::AwaitKill, RestartEvent::Killed(Ok(String::new())));
    let (p, a) = restart_web_if_running("U", p, RestartEvent::ExitProbed { still_running: true, elapsed_ms: 300 });
    assert!(matches!(a, RestartAction::WaitThenProbeExit));
    let (_, a) = restart_web_if_running("U", p, RestartEvent::ExitProbed { still_running: true, elapsed_ms: 10_000 });
    assert!(matches!(a, RestartAction::Done(Err(ref e)) if e == launcher::EXIT_TIMEOUT));
    let (p, _) = restart_web_if_running("U", launcher::RestartPhase::AwaitReady, RestartEvent::Ready(Ok((2, "n".into()))));
    let (_, a) = restart_web_if_running("U", p, RestartEvent::Committed(true));
    assert!(matches!(a, RestartAction::Done(Ok(true))));
}

#[test]
fn stop_shuts_down_then_kills_and_clears() {
    let (p, _) = stop_begin();
    let (p, a) = stop(p, StopEvent::Snapshot(Some(Some(inst(58627, "t")))));
    assert!(matches!(a, StopAction::Shutdown { port: 58627, ref token } if token == "t"));
    let (p, a) = stop(p, StopEvent::ShutdownSent);
    assert!(matches!(a, StopAction::KillAll(ref d) if d == "Ubuntu"));
    let (p, a) = stop(p, StopEvent::Killed(Ok(())));
    assert!(matches!(a, StopAction::Clear));
    let (_, a) = stop(p, StopEvent::Cleared(true));
    assert!(matches!(a, StopAction::Done(Ok(()))));
    let (p, _) = stop(launcher::StopPhase::AwaitSnapshot, StopEvent::Snapshot(Some(None)));
    let (_, a) = stop(p, StopEvent::Distros(Ok(vec![])));
    assert!(matches!(a, StopAction::Done(Err(ref e)) if e == launcher::NO_DISTRO));
    let (_, a) = stop(launcher::StopPhase::AwaitSnapshot, StopEvent::Snapshot(None));
    assert!(matches!(a, StopAction::Done(Err(_))));
}

#[test]
fn readiness_and_token_decisions() {
    assert!(matches!(wait_ready_step(Some(5), 99_999), WaitDecision::Ready(5)));
    assert!(matches!(wait_ready_step(None, 29_999), WaitDecision::Retry));
    assert!(matches!(wait_ready_step(None, 30_000), WaitDecision::TimedOut(ref e) if e == launcher::READY_TIMEOUT));
    assert_eq!(check_token_read(Ok(String::new())), Err(launcher::TOKEN_EMPTY.to_string()));
    assert_eq!(check_token_read(Ok("t".into())), Ok("t".to_string()));
    assert!(matches!(after_auth(0, "t".into(), false), TokenDecision::Retry));
    assert!(matches!(after_auth(1, "t".into(), false), TokenDecision::Reject(_)));
    assert!(matches!(after_auth(1, "t".into(), true), TokenDecision::Accept(ref t) if t == "t"));
    assert!(probe_cache_hit("U", 9_999, "U"));
    assert!(!probe_cache_hit("U", 10_000, "U"));
    assert!(!probe_cache_hit("U", 1, "V"));
}

#[test]
fn registry_search_steps() {
    let specs = apps();
    let spec = &specs[0];
    assert!(matches!(spec.after_display_name(Some("Kimi Code 1.0.1")), RegistryStep::QueryIcon));
    assert!(matches!(spec.after_display_name(Some("Kimi")), RegistryStep::NextEntry));
    assert!(matches!(spec.after_display_name(Some("Other Kimi Code")), RegistryStep::NextEntry));
    assert!(matches!(spec.after_display_name(None), RegistryStep::NextEntry));
    match after_display_icon(Some("C:\\Kimi Code\\Kimi Code.exe,0")) {
        RegistryStep::CheckFile(p) => assert_eq!(p, "C:\\Kimi Code\\Kimi Code.exe"),
        _ => panic!("expected a path to check"),
    }
    assert!(matches!(after_display_icon(Some("C:\\x\\icon.ico")), RegistryStep::NextEntry));
    assert!(matches!(after_display_icon(None), RegistryStep::NextEntry));
}

#[test]
fn probe_cache_reuses_only_fresh_successful_probes() {
    let mut cache = launcher::ProbeCache::new();
    assert!(cache.lookup("Ubuntu", 0).is_none());
    cache.record("Ubuntu", 1_000, &Ok(WslProbe { kimi_installed: true, tui_running: false }));
    let hit = cache.lookup("Ubuntu", 10_999).unwrap();
    assert!(hit.kimi_installed && !hit.tui_running);
    assert!(cache.lookup("Ubuntu", 11_000).is_none());
    assert!(cache.lookup("Debian", 2_000).is_none());
    cache.record("Ubuntu", 2_000, &Err("wsl down".to_string()));
    assert!(cache.lookup("Ubuntu", 10_999).is_some());
    cache.invalidate();
    assert!(cache.lookup("Ubuntu", 1_001).is_none());
}
