use kimi_companion::hook::{check_installed, install_commands, install_error, BACKFILL_SCRIPT};
use kimi_companion::upgrade::{self, check_update, extract_versions, get_version, parse_semver_end, raw_output, update};
use kimi_companion::wsl::{
    self, command_outcome, decode_wsl_output, format_code, kill_all_kimi, list_distros, probe,
    unc_home_candidates, wrap_command, wsl_args, WslOutput,
};

fn utf16le(s: &str, bom: bool) -> Vec<u8> {
    let mut v = Vec::new();
    if bom {
        v.extend_from_slice(&[0xFF, 0xFE]);
    }
    for u in s.encode_utf16() {
        v.extend_from_slice(&u.to_le_bytes());
    }
    v
}

fn out(stdout: &str, stderr: &str, code: Option<i32>) -> WslOutput {
    WslOutput { stdout: stdout.to_string(), stderr: stderr.to_string(), code }
}

#[test]
fn wsl_output_is_utf16le() {
    assert_eq!(decode_wsl_output(&utf16le("Ubuntu\r\n", true)), "Ubuntu\r\n");
    assert_eq!(decode_wsl_output(&utf16le("Debian", false)), "Debian");
    assert_eq!(decode_wsl_output(b"abc"), "abc");
    assert_eq!(decode_wsl_output(&[0x00, 0xD8]), "\u{0}\u{fffd}");
    assert_eq!(decode_wsl_output(&utf16le("Ubuntu 😀 发行版", true)), "Ubuntu 😀 发行版");
    assert_eq!(decode_wsl_output(&utf16le("😀", false)), "😀");
}

#[test]
fn distro_list_is_trimmed() {
    let raw = utf16le("Ubuntu\r\n\0\r\n  Debian \r\n", true);
    assert_eq!(list_distros(true, Some(0), &raw), Ok(vec!["Ubuntu".to_string(), "Debian".to_string()]));
    assert_eq!(list_distros(false, Some(1), &raw), Err("wsl.exe -l -q 退出码非 0: Some(1)".to_string()));
    assert_eq!(list_distros(false, None, &raw), Err("wsl.exe -l -q 退出码非 0: None".to_string()));
    assert_eq!(format_code(Some(-2)), "Some(-2)");
}

#[test]
fn command_travels_base64_encoded() {
    assert_eq!(wrap_command("echo hi"), "echo ZWNobyBoaQ== | base64 -d | bash -ls");
    assert_eq!(wrap_command(wsl::KILL_ALL_SCRIPT), "echo cGtpbGwgLXgga2ltaSB8fCB0cnVl | base64 -d | bash -ls");
    let wrapped = wrap_command("echo \"$HOME\" $(id -u) `date` 'x'; exit");
    let payload = wrapped.strip_prefix("echo ").unwrap().strip_suffix(" | base64 -d | bash -ls").unwrap();
    assert!(payload.chars().all(|c| c.is_ascii_alphanumeric() || c == '+' || c == '/' || c == '='));
    let args = wsl_args("Ubuntu", "x");
    assert_eq!(args, vec!["-d", "Ubuntu", "--", "bash", "-lc", "x"]);
}

#[test]
fn command_outcome_trims_or_reports() {
    assert_eq!(command_outcome("U", true, Some(0), b"  tok \n", b""), Ok("tok".to_string()));
    assert_eq!(
        command_outcome("U", false, Some(2), b"", b" bad \n"),
        Err("WSL 命令失败（distro=U, 退出码 Some(2)）: bad".to_string())
    );
    assert_eq!(kill_all_kimi(Ok(String::new())), Ok(()));
    assert_eq!(kill_all_kimi(Err("e".into())), Err("e".to_string()));
}

#[test]
fn probe_reads_last_line_only() {
    let p = probe("welcome tui=yes\ninstalled=yes tui=no");
    assert!(p.kimi_installed);
    assert!(!p.tui_running);
    let p = probe("installed=no tui=yes\n");
    assert!(!p.kimi_installed);
    assert!(p.tui_running);
    let p = probe("");
    assert!(!p.kimi_installed && !p.tui_running);
    let p = probe("xinstalled=yes tui=yesx");
    assert!(!p.kimi_installed && !p.tui_running);
}

#[test]
fn home_paths_of_a_distribution() {
    let c = unc_home_candidates("Ubuntu", "/home/me", ".codex");
    assert_eq!(c, vec![r"\\wsl$\Ubuntu\home\me\.codex".to_string(), r"\\wsl.localhost\Ubuntu\home\me\.codex".to_string()]);
}

#[test]
fn versions_are_found_left_to_right() {
    assert_eq!(extract_versions("current v2.0.1, latest 2.1.0 (build 3.4)"), vec!["2.0.1", "2.1.0"]);
    assert_eq!(extract_versions("vv1.2.3 10.20.30.40 1..2.3"), vec!["1.2.3", "10.20.30"]);
    assert!(extract_versions("no versions here").is_empty());
    assert_eq!(parse_semver_end(b"1.22.333x", 0), Some(8));
    assert_eq!(parse_semver_end(b"1.2", 0), None);
    assert_eq!(parse_semver_end(b"v12.34.5-rc", 1), Some(8));
    assert_eq!(parse_semver_end(b"1.2.3", 5), None);
    assert_eq!(parse_semver_end(b"1.2.3", 9), None);
}

#[test]
fn version_is_last_nonblank_line() {
    assert_eq!(get_version("U", Ok("profile noise\n 2.0.1 \n\n".into())), Ok("2.0.1".to_string()));
    assert_eq!(
        get_version("U", Ok("  \n".into())),
        Err("kimi --version 输出为空（发行版 U 里是否已安装 kimi CLI？）".to_string())
    );
    assert_eq!(get_version("U", Err("x".into())), Err("获取 kimi CLI 版本失败: x".to_string()));
}

#[test]
fn update_check_decisions() {
    let r = check_update("2.0.1".into(), &out("kimi is already up to date (2.0.1)", "", Some(0))).unwrap();
    assert!(r.up_to_date);
    assert_eq!(r.latest_version, None);
    let r = check_update("2.0.1".into(), &out("", "current 2.0.1 -> new 2.1.0\nproceed?", Some(1))).unwrap();
    assert!(!r.up_to_date);
    assert_eq!(r.latest_version.as_deref(), Some("2.1.0"));
    assert_eq!(r.output, "current 2.0.1 -> new 2.1.0\nproceed?");
    let r = check_update("2.0.1".into(), &out("2.0.1", "", Some(0))).unwrap();
    assert_eq!(r.latest_version, None);
    assert_eq!(
        check_update("2.0.1".into(), &out("", "", Some(124))).err(),
        Some("检查更新超时（90 秒），请检查网络连接后重试".to_string())
    );
    assert_eq!(raw_output(&out("a", "b", None)), "a");
}

#[test]
fn update_decisions() {
    let ok = out("done", "", Some(0));
    assert!(upgrade::update_succeeded(&ok));
    let r = update(&ok, Some("2.1.0".into()), true).unwrap();
    assert!(r.success && r.restarted_web);
    assert_eq!(r.new_version.as_deref(), Some("2.1.0"));
    let failed = out("", "network", Some(1));
    let r = update(&failed, Some("x".into()), true).unwrap();
    assert!(!r.success && !r.restarted_web);
    assert_eq!(r.new_version, None);
    assert_eq!(r.output, "network");
    assert!(update(&out("", "", Some(124)), None, false).is_err());
}

#[test]
fn hook_check_and_install_steps() {
    assert!(check_installed("yes"));
    assert!(!check_installed("yes\n"));
    assert!(!check_installed(""));
    let steps = install_commands("print(1)", "echo hi");
    assert_eq!(steps.len(), 3);
    assert_eq!(
        steps[0],
        "mkdir -p ~/.kimi-code && echo 'cHJpbnQoMSk=' | base64 -d > ~/.kimi-code/companion-hook.py && echo 'ZWNobyBoaQ==' | base64 -d > ~/.kimi-code/companion-hook.sh && chmod +x ~/.kimi-code/companion-hook.sh"
    );
    assert!(steps[1].starts_with("if ! grep -q companion-hook ~/.kimi-code/config.toml 2>/dev/null; then cp "));
    assert!(steps[1].ends_with("' | base64 -d >> ~/.kimi-code/config.toml; fi"));
    assert_eq!(steps[2], BACKFILL_SCRIPT);
    assert_eq!(install_error(2, "e"), "hook 已安装，但历史回填失败: e");
}
