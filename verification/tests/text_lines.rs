use kimi_companion::desktop::query_reg_value;
use kimi_companion::incremental::{complete_len, resume_offset};
use kimi_companion::jsonl::has_type;
use kimi_companion::text::{chars_of, split_lines, trim_chars, CharClass};

fn lines(s: &str) -> Vec<String> {
    split_lines(&chars_of(s)).into_iter().map(|l| l.into_iter().collect()).collect()
}

#[test]
fn lines_split_like_str_lines() {
    for s in ["", "a", "a\n", "a\r\nb\n", "a\n\nb", "x\ry\n", "\n", "a\r"] {
        let expected: Vec<String> = s.lines().map(String::from).collect();
        assert_eq!(lines(s), expected, "input {s:?}");
    }
}

#[test]
fn trim_removes_unicode_white_space() {
    let t: String = trim_chars(&chars_of("\u{3000} \tabc \u{a0}\n"), CharClass::Whitespace).into_iter().collect();
    assert_eq!(t, "abc");
    let q: String = trim_chars(&chars_of("\"C:\\x.exe\""), CharClass::Quote).into_iter().collect();
    assert_eq!(q, "C:\\x.exe");
}

#[test]
fn has_type_accepts_compact_and_spaced() {
    assert!(has_type(r#"{"type":"session_meta","x":1}"#, "session_meta"));
    assert!(has_type(r#"{"type": "session_meta"}"#, "session_meta"));
    assert!(!has_type(r#"{"type":  "session_meta"}"#, "session_meta"));
    assert!(!has_type(r#"{"kind":"session_meta"}"#, "session_meta"));
}

#[test]
fn complete_len_stops_at_last_newline() {
    assert_eq!(complete_len(b"abc"), None);
    assert_eq!(complete_len(b"a\nbc"), Some(2));
    assert_eq!(complete_len(b"a\nb\n"), Some(4));
    assert_eq!(complete_len(b""), None);
}

#[test]
fn resume_offset_restarts_after_truncation() {
    assert_eq!(resume_offset(None, 10), Some(0));
    assert_eq!(resume_offset(Some("4"), 10), Some(4));
    assert_eq!(resume_offset(Some("10"), 10), None);
    assert_eq!(resume_offset(Some("11"), 10), Some(0));
    assert_eq!(resume_offset(Some("junk"), 10), Some(0));
    assert_eq!(resume_offset(None, 0), None);
}

#[test]
fn lossy_decoding_replaces_invalid_bytes() {
    let out = b"    DisplayName    REG_SZ    Kimi\xffCode\r\n";
    assert_eq!(query_reg_value("DisplayName", true, out).as_deref(), Some("Kimi\u{fffd}Code"));
}
