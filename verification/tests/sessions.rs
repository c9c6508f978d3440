use kimi_companion::json::JsonScalar::{self, Absent, Int, Other, Str};
use kimi_companion::codex::{
    self, first_line_read_more, needs_offset_migration, parse_meta_line, parse_token_line, parse_turn_model, resume_meta,
    FileMeta,
};
use kimi_companion::ledger::{self, parse_line, round_outcome};
use kimi_companion::models::{CodexStatus, LedgerStatus, WinKimiStatus};
use kimi_companion::win_kimi::{self, parse_usage_line};

fn meta(sid: &str, model: &str) -> FileMeta {
    FileMeta { session_id: sid.to_string(), model: model.to_string() }
}

#[test]
fn ledger_line_with_all_fields() {
    let row = parse_line(r#"{"ts":1700000000000,"session_id":"s1","agent":"main","model":"k2","input":10,"output":20,"cache_read":30,"cache_creation":40}"#).unwrap();
    assert_eq!(row.ts, 1700000000000);
    assert_eq!(row.session_id, "s1");
    assert_eq!(row.agent, "main");
    assert_eq!(row.model, "k2");
    assert_eq!((row.input_tokens, row.output_tokens, row.cache_read, row.cache_creation), (10, 20, 30, 40));
}

#[test]
fn ledger_line_missing_fields_default() {
    let row = parse_line(r#"{"ts":5,"model":7}"#).unwrap();
    assert_eq!(row.session_id, "");
    assert_eq!(row.model, "");
    assert_eq!(row.input_tokens, 0);
    assert!(parse_line(r#"{"session_id":"x"}"#).is_none());
    assert!(parse_line(r#"{"ts":"5"}"#).is_none());
    assert!(parse_line("not json").is_none());
    assert!(parse_line(r#"{"ts":1.5}"#).is_none());
}

#[test]
fn ledger_import_leaves_partial_line() {
    let buf = b"{\"ts\":1,\"input\":2}\n{\"ts\":3}\n{\"ts\":4,";
    let imp = ledger::sync_distro(100, buf).unwrap();
    assert_eq!(imp.rows.len(), 2);
    assert_eq!(imp.rows[0].input_tokens, 2);
    assert_eq!(imp.rows[1].ts, 3);
    assert_eq!(imp.new_offset, 100 + 19 + 9);
    assert!(ledger::sync_distro(0, b"{\"ts\":1").is_none());
}

#[test]
fn ledger_import_in_two_rounds_matches_one() {
    let whole = b"{\"ts\":1}\nnoise\n{\"ts\":2}\n{\"ts\":3}\n";
    let at_once = ledger::sync_distro(0, whole).unwrap();
    let first = ledger::sync_distro(0, &whole[..15]).unwrap();
    let second = ledger::sync_distro(first.new_offset, &whole[first.new_offset as usize..]).unwrap();
    let ts = |rows: &Vec<kimi_companion::models::UsageEventRow>| rows.iter().map(|r| r.ts).collect::<Vec<_>>();
    let mut both = ts(&first.rows);
    both.extend(ts(&second.rows));
    assert_eq!(both, ts(&at_once.rows));
    assert_eq!(second.new_offset, at_once.new_offset);
}

#[test]
fn ledger_round_stops_at_first_success() {
    assert!(round_outcome(Ok(vec![Err("a".into()), Ok(3)])).is_ok());
    assert_eq!(round_outcome(Ok(vec![Err("a".into()), Err("b".into())])), Err("b".to_string()));
    assert_eq!(round_outcome(Ok(vec![])), Err(ledger::NO_DISTRO.to_string()));
    assert_eq!(round_outcome(Err("wsl".into())), Err("wsl".to_string()));
}

#[test]
fn ledger_status_after_rounds() {
    let s0 = ledger::new_shared_status();
    let s1 = ledger::sync_round(s0, Ok(()), 1000, Some(7));
    assert_eq!((s1.total_records, s1.last_sync_at_ms, s1.last_error.clone()), (7, Some(1000), None));
    let s2 = ledger::sync_round(s1, Err("boom".into()), 2000, None);
    assert_eq!((s2.total_records, s2.last_sync_at_ms, s2.last_error.clone()), (7, Some(1000), Some("boom".to_string())));
    let _: LedgerStatus = s2;
}

#[test]
fn ledger_paths_try_both_prefixes() {
    let p = ledger::ledger_paths("Ubuntu", "/home/kim");
    assert_eq!(p[0], r"\\wsl$\Ubuntu\home\kim\.kimi-code\token-ledger.jsonl");
    assert_eq!(p[1], r"\\wsl.localhost\Ubuntu\home\kim\.kimi-code\token-ledger.jsonl");
    let p = ledger::ledger_paths("Debian", "/root");
    assert_eq!(p[0], r"\\wsl$\Debian\root\.kimi-code\token-ledger.jsonl");
    assert_eq!(ledger::open_ledger_error("p", "e"), "无法打开账本文件: p: e");
}

#[test]
fn session_meta_line_prefers_session_id() {
    let m = parse_meta_line(r#"{"type":"session_meta","payload":{"id":"a","session_id":"b","model":"gpt-5"}}"#).unwrap();
    assert_eq!((m.session_id.as_str(), m.model.as_str()), ("b", "gpt-5"));
    let m = parse_meta_line(r#"{"type":"session_meta","payload":{"id":"a"}}"#).unwrap();
    assert_eq!((m.session_id.as_str(), m.model.as_str()), ("a", ""));
    let m = parse_meta_line(r#"{"type":"session_meta","payload":{"session_id":5,"id":"a"}}"#).unwrap();
    assert_eq!(m.session_id, "");
    assert!(parse_meta_line(r#"{"type":"session_meta"}"#).is_none());
    assert!(parse_meta_line(r#"{"type":"turn_context","payload":{}}"#).is_none());
}

#[test]
fn turn_context_gives_model() {
    assert_eq!(parse_turn_model(r#"{"type":"turn_context","payload":{"model":"o3"}}"#), Some("o3".to_string()));
    assert_eq!(parse_turn_model(r#"{"type":"turn_context","payload":{}}"#), None);
}

#[test]
fn token_count_counts_cached_input_once() {
    let line = r#"{"timestamp":"2025-08-25T01:02:03.123Z","type":"event_msg","payload":{"type":"token_count","info":{"last_token_usage":{"input_tokens":100,"cached_input_tokens":30,"output_tokens":7,"cache_write_input_tokens":2}}}}"#;
    let row = parse_token_line(line, &meta("", "gpt-5"), "rollout-x").unwrap();
    assert_eq!(row.ts, 1756083723123);
    assert_eq!(row.session_id, "rollout-x");
    assert_eq!(row.model, "gpt-5");
    assert_eq!(row.agent, "");
    assert_eq!((row.input_tokens, row.output_tokens, row.cache_read, row.cache_creation), (70, 7, 30, 2));
    let negative = line.replace("\"input_tokens\":100", "\"input_tokens\":10");
    assert_eq!(parse_token_line(&negative, &meta("s", ""), "f").unwrap().input_tokens, 0);
    let no_info = r#"{"timestamp":"2025-08-25T01:02:03Z","type":"event_msg","payload":{"type":"token_count","info":null}}"#;
    assert!(parse_token_line(no_info, &meta("s", ""), "f").is_none());
}

#[test]
fn rollout_file_walk() {
    let text = [
        r#"{"type":"session_meta","payload":{"id":"sess","model":""}}"#,
        r#"{"type":"turn_context","payload":{"model":"m1"}}"#,
        r#"{"timestamp":"1970-01-01T00:00:01Z","type":"event_msg","payload":{"type":"token_count","info":{"last_token_usage":{"input_tokens":5}}}}"#,
        r#"{"type":"turn_context","payload":{"model":"m2"}}"#,
        r#"{"timestamp":"1970-01-01T00:00:02Z","type":"event_msg","payload":{"type":"token_count","info":{"last_token_usage":{"output_tokens":3}}}}"#,
        r#"{"timestamp":"1970-01-01T00:00:03Z","type":"event_msg""#,
    ]
    .join("\n");
    let imp = codex::sync_file(0, text.as_bytes(), FileMeta::new(), "file").unwrap();
    assert_eq!(imp.rows.len(), 2);
    assert_eq!((imp.rows[0].ts, imp.rows[0].model.as_str(), imp.rows[0].session_id.as_str()), (1000, "m1", "sess"));
    assert_eq!((imp.rows[1].ts, imp.rows[1].model.as_str(), imp.rows[1].output_tokens), (2000, "m2", 3));
    assert_eq!(imp.meta.model, "m2");
    let consumed = text.rfind('\n').unwrap() + 1;
    assert_eq!(imp.new_offset, consumed as u64);
}

#[test]
fn rollout_resume_reads_first_line_and_stored_model() {
    let first = b"{\"type\":\"session_meta\",\"payload\":{\"session_id\":\"abc\"}}\n{\"more\":1}";
    let m = resume_meta(first, Some("stored".to_string()));
    assert_eq!((m.session_id.as_str(), m.model.as_str()), ("abc", "stored"));
    let m = resume_meta(b"garbage", None);
    assert_eq!((m.session_id.as_str(), m.model.as_str()), ("", ""));
}

#[test]
fn parser_version_migration() {
    assert!(needs_offset_migration(None));
    assert!(needs_offset_migration(Some("1")));
    assert!(!needs_offset_migration(Some("2")));
    assert!(win_kimi::needs_offset_migration(Some("0")));
    assert!(!win_kimi::needs_offset_migration(Some("1")));
}

#[test]
fn codex_status_rounds() {
    let s = codex::new_shared_status();
    let s = codex::sync_windows(s, None, None, 5, Some(3));
    assert!(!s.dir_found);
    assert_eq!(s.last_error.as_deref(), Some(codex::NO_CODEX_DIR));
    assert_eq!(s.last_sync_at_ms, None);
    assert_eq!(s.total_records, 3);
    let s = codex::sync_windows(s, Some("C:\\u\\.codex".into()), Some("f: e".into()), 9, None);
    assert!(s.dir_found);
    assert_eq!(s.dir.as_deref(), Some("C:\\u\\.codex"));
    assert_eq!((s.last_sync_at_ms, s.total_records), (Some(9), 3));
    assert_eq!(s.last_error.as_deref(), Some("f: e"));

    let w = codex::new_shared_wsl_status();
    let roots = vec!["a".to_string(), "b".to_string()];
    let w = codex::sync_wsl(w, &roots, None, vec![Some("x".into()), None, Some("y".into()), None], 11, Some(1));
    assert_eq!(w.dir.as_deref(), Some("a, b"));
    assert_eq!(w.last_error.as_deref(), Some("y"));
    let w = codex::sync_wsl(w, &vec![], Some("enum".into()), vec![Some("x".into())], 12, None);
    assert!(!w.dir_found);
    assert_eq!(w.dir, None);
    assert_eq!(w.last_sync_at_ms, Some(11));
    assert_eq!(w.last_error.as_deref(), Some("enum"));
    let _: CodexStatus = w;
}

#[test]
fn usage_record_line() {
    let line = r#"{"type":"usage.record","time":123,"sessionId":"","model":"kimi","usage":{"inputOther":1,"output":2,"inputCacheRead":3,"inputCacheCreation":4}}"#;
    let row = parse_usage_line(line, "fallback").unwrap();
    assert_eq!((row.ts, row.session_id.as_str(), row.model.as_str()), (123, "fallback", "kimi"));
    assert_eq!((row.input_tokens, row.output_tokens, row.cache_read, row.cache_creation), (1, 2, 3, 4));
    assert!(parse_usage_line(r#"{"type":"usage.record","time":1}"#, "f").is_none());
    assert!(parse_usage_line(r#"{"type":"other","time":1,"usage":{}}"#, "f").is_none());
}

#[test]
fn wire_file_import_and_status() {
    let text = "{\"type\":\"usage.record\",\"time\":1,\"sessionId\":\"s\",\"usage\":{}}\n{\"type\":\"other\",\"time\":2,\"usage\":{}}\n";
    let imp = win_kimi::sync_file(0, text.as_bytes(), "f").unwrap();
    assert_eq!(imp.rows.len(), 1);
    assert_eq!(imp.new_offset, text.len() as u64);
    let s = win_kimi::sync_round(win_kimi::new_shared_status(), None, None, 1, Some(2));
    assert_eq!(s.last_error.as_deref(), Some(win_kimi::NO_DATA_DIR));
    let _: WinKimiStatus = s;
}

#[test]
fn meta_keys_and_file_errors() {
    assert_eq!(codex::meta_key(codex::WINDOWS_OFFSET_PREFIX, "C:\\a.jsonl"), "codex_off:C:\\a.jsonl");
    assert_eq!(kimi_companion::strings::file_error("p", "e"), "p: e");
    assert_eq!(codex::fallback_session_id(Some("rollout-1")), "rollout-1");
    assert!(codex::distro_cache_fresh(59_999));
    assert!(!codex::distro_cache_fresh(60_000));
}

#[test]
fn first_line_reading_stops_at_newline_end_or_limit() {
    assert!(first_line_read_more(8192, &[b'a'; 8192]));
    assert!(!first_line_read_more(10, b"abc\ndef"));
    assert!(!first_line_read_more(0, b""));
    assert!(first_line_read_more(codex::FIRST_LINE_READ_LIMIT, b"abc"));
    assert!(!first_line_read_more(codex::FIRST_LINE_READ_LIMIT + 1, b"abc"));
}

#[test]
fn rollout_import_in_two_rounds_matches_one() {
    let text = [
        r#"{"type":"session_meta","payload":{"session_id":"s1","model":"m0"}}"#,
        r#"{"timestamp":"1970-01-01T00:00:01Z","type":"event_msg","payload":{"type":"token_count","info":{"last_token_usage":{"input_tokens":7,"cached_input_tokens":2}}}}"#,
        r#"{"type":"turn_context","payload":{"model":"m1"}}"#,
        r#"{"timestamp":"1970-01-01T00:00:02Z","type":"event_msg","payload":{"type":"token_count","info":{"last_token_usage":{"output_tokens":4}}}}"#,
        "",
    ]
    .join("\n");
    let bytes = text.as_bytes();
    let at_once = codex::sync_file(0, bytes, FileMeta::new(), "f").unwrap();
    let cut = text.find("{\"type\":\"turn_context\"").unwrap();
    let first = codex::sync_file(0, &bytes[..cut], FileMeta::new(), "f").unwrap();
    let second = codex::sync_file(first.new_offset, &bytes[cut..], first.meta, "f").unwrap();
    let key = |r: &kimi_companion::models::UsageEventRow| {
        (r.ts, r.session_id.clone(), r.model.clone(), r.input_tokens, r.output_tokens, r.cache_read)
    };
    let mut both: Vec<_> = first.rows.iter().map(key).collect();
    both.extend(second.rows.iter().map(key));
    assert_eq!(both, at_once.rows.iter().map(key).collect::<Vec<_>>());
    assert_eq!(both[0], (1000, "s1".to_string(), "m0".to_string(), 5, 0, 2));
    assert_eq!(both[1], (2000, "s1".to_string(), "m1".to_string(), 0, 4, 0));
    assert_eq!(second.new_offset, at_once.new_offset);
    assert_eq!(second.meta.model, at_once.meta.model);
    assert_eq!(at_once.model_to_store(), Some("m1"));
    let no_model = codex::sync_file(0, b"{\"x\":1}\n", FileMeta::new(), "f").unwrap();
    assert_eq!(no_model.model_to_store(), None);
}

#[test]
fn wire_import_in_two_rounds_matches_one() {
    let text = "{\"type\":\"usage.record\",\"time\":1,\"usage\":{\"output\":1}}\n{\"type\":\"usage.record\",\"time\":2,\"usage\":{\"output\":2}}\n";
    let bytes = text.as_bytes();
    let at_once = win_kimi::sync_file(0, bytes, "f").unwrap();
    let cut = text.find('\n').unwrap() + 1;
    let first = win_kimi::sync_file(0, &bytes[..cut + 5], "f").unwrap();
    let second = win_kimi::sync_file(first.new_offset, &bytes[first.new_offset as usize..], "f").unwrap();
    let ts = |rows: &Vec<kimi_companion::models::UsageEventRow>| rows.iter().map(|r| (r.ts, r.output_tokens)).collect::<Vec<_>>();
    let mut both = ts(&first.rows);
    both.extend(ts(&second.rows));
    assert_eq!(both, ts(&at_once.rows));
    assert_eq!(both, vec![(1, 1), (2, 2)]);
    assert_eq!(first.new_offset, cut as u64);
    assert_eq!(second.new_offset, at_once.new_offset);
}

#[test]
fn rows_from_looked_up_values() {
    let s = |t: &str| Str(t.to_string());
    let f = ledger::LedgerFields {
        ts: Int(42),
        session_id: s("sess"),
        agent: Other,
        model: s("kimi"),
        input: Int(1),
        output: Str("2".to_string()),
        cache_read: Int(3),
        cache_creation: Absent,
    };
    let row = ledger::ledger_row(&f).unwrap();
    assert_eq!((row.ts, row.session_id.as_str(), row.agent.as_str(), row.model.as_str()), (42, "sess", "", "kimi"));
    assert_eq!((row.input_tokens, row.output_tokens, row.cache_read, row.cache_creation), (1, 0, 3, 0));
    let no_ts = ledger::LedgerFields { ts: Other, ..f };
    assert!(ledger::ledger_row(&no_ts).is_none());

    let w = win_kimi::WireFields {
        kind: s("usage.record"),
        time: Int(7),
        usage: Other,
        session_id: s(""),
        model: Absent,
        input_other: Int(4),
        output: Int(5),
        input_cache_read: Absent,
        input_cache_creation: Int(6),
    };
    let row = win_kimi::usage_row(&w, "dir").unwrap();
    assert_eq!((row.ts, row.session_id.as_str(), row.model.as_str()), (7, "dir", ""));
    assert_eq!((row.input_tokens, row.output_tokens, row.cache_read, row.cache_creation), (4, 5, 0, 6));
    assert!(win_kimi::usage_row(&win_kimi::WireFields { usage: Absent, ..w }, "dir").is_none());

    let t = codex::TokenFields {
        kind: s("event_msg"),
        payload_kind: s("token_count"),
        timestamp: s("2024-01-01T00:00:00.5Z"),
        usage: Other,
        input_tokens: Int(10),
        cached_input_tokens: Int(12),
        output_tokens: Int(3),
        cache_write_input_tokens: Int(1),
    };
    assert!(!codex::token_fields_refused(&t));
    let row = codex::token_row(&t, &meta("", "gpt"), "file").unwrap();
    assert_eq!((row.ts, row.session_id.as_str(), row.model.as_str()), (1_704_067_200_500, "file", "gpt"));
    assert_eq!((row.input_tokens, row.output_tokens, row.cache_read, row.cache_creation), (0, 3, 12, 1));
    let refused = codex::TokenFields { input_tokens: Int(i64::MIN), cached_input_tokens: Int(1), ..t };
    assert!(codex::token_fields_refused(&refused));
    let other: JsonScalar = s("event");
    assert!(codex::token_row(&codex::TokenFields { kind: other, ..refused }, &meta("s", "m"), "f").is_none());
}

#[test]
fn unchanged_file_imports_nothing_the_second_time() {
    use_offset_round_trip(b"{\"ts\":1}\n{\"ts\":2}\n{\"ts\":3", 0);
    use_offset_round_trip(b"{\"ts\":1}\n{\"ts\":2}\n", 0);
    use_offset_round_trip(b"{\"ts\":1}\n{\"ts\":2}\n{\"ts\":3}\n{\"ts\"", 9);
}

fn use_offset_round_trip(file: &[u8], offset: u64) {
    let size = file.len() as u64;
    let first = ledger::sync_distro(offset, &file[offset as usize..]).unwrap();
    assert!(!first.rows.is_empty());
    let stored = first.new_offset.to_string();
    match kimi_companion::incremental::resume_offset(Some(&stored), size) {
        None => assert_eq!(first.new_offset, size),
        Some(next) => {
            assert_eq!(next, first.new_offset);
            let rest = &file[next as usize..];
            assert!(ledger::sync_distro(next, rest).is_none());
            assert!(win_kimi::sync_file(next, rest, "f").is_none());
            assert!(codex::sync_file(next, rest, FileMeta::new(), "f").is_none());
        }
    }
}
