//! Windows desktop applications (Kimi Code): which ones the library knows, and
//! what the outputs of `reg query` and `tasklist` say about installation and
//! running processes.
use vstd::prelude::*;
use crate::incremental::{decode_lossy, utf8_lossy};
use crate::models::DesktopAppInfo;
use crate::strings::{concat, concat_spec, concat2, opt_view, owned, str_equals};
use crate::text::{
    chars_of, lines_of, slice_range, split_lines, starts_with_chars, string_from_chars, trim_chars,
    trim_of, CharClass,
};

verus! {

/// A desktop application that the library can detect and start.
pub struct AppSpec {
    /// Fixed identifier that the user interface passes.
    pub id: String,
    /// Display name.
    pub name: String,
    /// Absolute paths checked first for the executable.
    pub exe_candidates: Vec<String>,
    /// Image name for `tasklist`.
    pub process_name: String,
    /// Registry roots of the uninstall entries (full hive names).
    pub uninstall_roots: Vec<String>,
    /// Prefix of the uninstall entry's `DisplayName` (the version after it changes).
    pub display_name_prefix: String,
}

/// The applications that the library knows: only Kimi Code.
pub fn apps() -> (res: Vec<AppSpec>)
    ensures
        res@.len() == 1,
        res@[0].id@ == "kimi-code"@,
        res@[0].name@ == "Kimi Code"@,
        res@[0].process_name@ == "Kimi Code.exe"@,
        res@[0].display_name_prefix@ == "Kimi Code"@,
        res@[0].exe_candidates@.len() == 1,
        res@[0].exe_candidates@[0]@ == "C:\\Program Files\\Kimi Code\\Kimi Code.exe"@,
        res@[0].uninstall_roots@.len() == 2,
        res@[0].uninstall_roots@[0]@
            == "HKEY_LOCAL_MACHINE\\SOFTWARE\\Microsoft\\Windows\\CurrentVersion\\Uninstall"@,
        res@[0].uninstall_roots@[1]@
            == "HKEY_LOCAL_MACHINE\\SOFTWARE\\WOW6432Node\\Microsoft\\Windows\\CurrentVersion\\Uninstall"@,
{
    let mut exe: Vec<String> = Vec::new();
    exe.push(owned(r"C:\Program Files\Kimi Code\Kimi Code.exe"));
    let mut roots: Vec<String> = Vec::new();
    roots.push(owned(r"HKEY_LOCAL_MACHINE\SOFTWARE\Microsoft\Windows\CurrentVersion\Uninstall"));
    roots.push(
        owned(r"HKEY_LOCAL_MACHINE\SOFTWARE\WOW6432Node\Microsoft\Windows\CurrentVersion\Uninstall"),
    );
    let mut v: Vec<AppSpec> = Vec::new();
    v.push(
        AppSpec {
            id: owned("kimi-code"),
            name: owned("Kimi Code"),
            exe_candidates: exe,
            process_name: owned("Kimi Code.exe"),
            uninstall_roots: roots,
            display_name_prefix: owned("Kimi Code"),
        },
    );
    v
}

impl AppSpec {
    /// Whether an uninstall entry's `DisplayName` is this application's.
    pub fn matches_display_name(&self, display_name: &str) -> (res: bool)
        ensures
            res == (self.display_name_prefix@.len() <= display_name@.len()
                && display_name@.subrange(0, self.display_name_prefix@.len() as int)
                == self.display_name_prefix@),
    {
        let d = chars_of(display_name);
        let p = chars_of(self.display_name_prefix.as_str());
        starts_with_chars(d.as_slice(), p.as_slice())
    }
}

/// What the detection found of one application.
pub struct AppProbe {
    /// The executable found, if any.
    pub exe_path: Option<String>,
    /// Whether its process runs.
    pub running: bool,
}

/// The state of each application, given what was found for each (in the order of
/// [`apps`]).
pub fn desktop_apps_status(specs: &Vec<AppSpec>, probes: Vec<AppProbe>) -> (res: Vec<DesktopAppInfo>)
    requires
        specs@.len() == probes@.len(),
    ensures
        res@.len() == specs@.len(),
        forall|i: int|
            0 <= i < res@.len() ==> {
                &&& (#[trigger] res@[i]).id@ == specs@[i].id@
                &&& res@[i].name@ == specs@[i].name@
                &&& res@[i].installed == probes@[i].exe_path is Some
                &&& res@[i].running == probes@[i].running
                &&& opt_view(res@[i].exe_path) == opt_view(probes@[i].exe_path)
            },
{
    let mut out: Vec<DesktopAppInfo> = Vec::new();
    let mut i: usize = 0;
    while i < specs.len()
        invariant
            specs@.len() == probes@.len(),
            0 <= i <= specs@.len(),
            out@.len() == i,
            forall|k: int|
                0 <= k < i ==> {
                    &&& (#[trigger] out@[k]).id@ == specs@[k].id@
                    &&& out@[k].name@ == specs@[k].name@
                    &&& out@[k].installed == probes@[k].exe_path is Some
                    &&& out@[k].running == probes@[k].running
                    &&& opt_view(out@[k].exe_path) == opt_view(probes@[k].exe_path)
                },
        decreases specs@.len() - i,
    {
        let exe_path = match &probes[i].exe_path {
            Some(p) => Some(p.clone()),
            None => None,
        };
        let info = DesktopAppInfo {
            id: specs[i].id.clone(),
            name: specs[i].name.clone(),
            installed: exe_path.is_some(),
            running: probes[i].running,
            exe_path,
        };
        out.push(info);
        i += 1;
    }
    out
}

/// The error when the user interface names an unknown application.
pub fn unknown_app_error(app: &str) -> (res: String)
    ensures
        res@ == "未知的桌面应用: "@ + app@,
{
    concat2("未知的桌面应用: ", app)
}

/// The error when the application to start is not installed.
pub fn not_installed_error(name: &str) -> (res: String)
    ensures
        res@ == name@ + " 未安装，无法启动"@,
{
    concat2(name, " 未安装，无法启动")
}

/// The error when starting the application failed.
pub fn start_failed_error(name: &str, e: &str) -> (res: String)
    ensures
        res@ == "启动 "@ + name@ + " 失败: "@ + e@,
{
    let r = concat(&["启动 ", name, " 失败: ", e]);
    proof {
        reveal_with_fuel(concat_spec, 5);
    }
    r
}

/// The index of the application with the given identifier, if any.
pub fn find_app(specs: &Vec<AppSpec>, app: &str) -> (res: Option<usize>)
    ensures
        match res {
            Some(i) => i < specs@.len() && specs@[i as int].id@ == app@ && forall|j: int|
                0 <= j < i ==> specs@[j].id@ != app@,
            None => forall|j: int| 0 <= j < specs@.len() ==> specs@[j].id@ != app@,
        },
{
    let mut i: usize = 0;
    while i < specs.len()
        invariant
            0 <= i <= specs@.len(),
            forall|j: int| 0 <= j < i ==> specs@[j].id@ != app@,
        decreases specs@.len() - i,
    {
        if str_equals(specs[i].id.as_str(), app) {
            return Some(i);
        }
        i += 1;
    }
    None
}

/// `c` in lower case when it is an ASCII capital letter.
pub open spec fn ascii_lower(c: char) -> char {
    if 'A' <= c && c <= 'Z' {
        (((c as u32) + 32) as u8) as char
    } else {
        c
    }
}

/// Equal when ASCII letters are compared without case (`eq_ignore_ascii_case`).
pub open spec fn eq_ignore_ascii_case(a: Seq<char>, b: Seq<char>) -> bool {
    a.len() == b.len() && forall|i: int| 0 <= i < a.len() ==> ascii_lower(#[trigger] a[i]) == ascii_lower(b[i])
}

fn lower(c: char) -> (res: char)
    ensures
        res == ascii_lower(c),
{
    if 'A' <= c && c <= 'Z' {
        (((c as u32) + 32) as u8) as char
    } else {
        c
    }
}

/// Whether two strings are equal up to ASCII case.
pub fn chars_eq_ignore_case(a: &[char], b: &[char]) -> (res: bool)
    ensures
        res == eq_ignore_ascii_case(a@, b@),
{
    if a.len() != b.len() {
        return false;
    }
    let mut i: usize = 0;
    while i < a.len()
        invariant
            a@.len() == b@.len(),
            0 <= i <= a@.len(),
            forall|j: int| 0 <= j < i ==> ascii_lower(#[trigger] a@[j]) == ascii_lower(b@[j]),
        decreases a@.len() - i,
    {
        if lower(a[i]) != lower(b[i]) {
            return false;
        }
        i += 1;
    }
    true
}

/// The first position at or after `i` where `pat` occurs in `s`.
pub open spec fn find_from(s: Seq<char>, pat: Seq<char>, i: int) -> Option<int>
    decreases s.len() + 1 - i,
{
    if i < 0 || i + pat.len() > s.len() {
        None
    } else if s.subrange(i, i + pat.len()) == pat {
        Some(i)
    } else {
        find_from(s, pat, i + 1)
    }
}

fn find_chars(s: &[char], pat: &[char]) -> (res: Option<usize>)
    ensures
        match find_from(s@, pat@, 0) {
            Some(i) => res matches Some(p) && p == i,
            None => res is None,
        },
        res matches Some(p) ==> p + pat@.len() <= s@.len(),
{
    let n = s.len();
    let m = pat.len();
    if m > n {
        return None;
    }
    if m == 0 {
        assert(s@.subrange(0, 0) =~= pat@);
        return Some(0);
    }
    let mut i: usize = 0;
    while i <= n - m
        invariant
            n == s@.len(),
            m == pat@.len(),
            1 <= m <= n,
            0 <= i <= n - m + 1,
            find_from(s@, pat@, 0) == find_from(s@, pat@, i as int),
        decreases n - m + 1 - i,
    {
        let window = slice_range(s, i, i + m);
        if crate::text::chars_eq(window.as_slice(), pat) {
            return Some(i);
        }
        i += 1;
    }
    None
}

/// The position of the last `c` in `s`.
pub open spec fn last_index_of(s: Seq<char>, c: char) -> Option<int>
    decreases s.len(),
{
    if s.len() == 0 {
        None
    } else if s.last() == c {
        Some(s.len() - 1)
    } else {
        last_index_of(s.drop_last(), c)
    }
}

proof fn lemma_last_index_of(s: Seq<char>, c: char)
    ensures
        last_index_of(s, c) matches Some(i) ==> 0 <= i < s.len(),
    decreases s.len(),
{
    if s.len() > 0 && s.last() != c {
        lemma_last_index_of(s.drop_last(), c);
    }
}

fn rfind_char(s: &[char], c: char) -> (res: Option<usize>)
    ensures
        match last_index_of(s@, c) {
            Some(i) => res matches Some(p) && p == i,
            None => res is None,
        },
        res matches Some(p) ==> p < s@.len(),
{
    proof {
        lemma_last_index_of(s@, c);
    }
    let mut i = s.len();
    assert(s@.subrange(0, i as int) =~= s@);
    while i > 0
        invariant
            i <= s@.len(),
            last_index_of(s@, c) == last_index_of(s@.subrange(0, i as int), c),
        decreases i,
    {
        if s[i - 1] == c {
            return Some(i - 1);
        }
        assert(s@.subrange(0, i as int).drop_last() =~= s@.subrange(0, i - 1));
        i -= 1;
    }
    None
}

/// Every character is an ASCII digit.
pub open spec fn all_ascii_digits(s: Seq<char>) -> bool {
    forall|i: int| 0 <= i < s.len() ==> '0' <= #[trigger] s[i] && s[i] <= '9'
}

/// The text ends with `.exe`, in any case.
pub open spec fn ends_with_exe(s: Seq<char>) -> bool {
    s.len() >= 4 && eq_ignore_ascii_case(s.subrange(s.len() - 4, s.len() as int), ".exe"@)
}

/// A `DisplayIcon` value as an executable path: the quotes and an icon index suffix
/// (`,<digits>`) removed, also where the index follows the closing quote
/// (`"C:\App\app.exe",0`); `None` unless it ends in `.exe`.
pub open spec fn sanitize_display_icon_spec(raw: Seq<char>) -> Option<Seq<char>> {
    let s1 = trim_of(trim_of(raw, CharClass::Whitespace), CharClass::Quote);
    let s2 = trim_of(strip_icon_index(s1), CharClass::Whitespace);
    let s3 = trim_of(trim_of(s2, CharClass::Quote), CharClass::Whitespace);
    if ends_with_exe(s3) {
        Some(s3)
    } else {
        None
    }
}

/// `s` without a trailing icon index `,<digits>`.
pub open spec fn strip_icon_index(s: Seq<char>) -> Seq<char> {
    match last_index_of(s, ',') {
        Some(p) => {
            let idx = s.subrange(p + 1, s.len() as int);
            if idx.len() > 0 && all_ascii_digits(idx) {
                s.subrange(0, p)
            } else {
                s
            }
        },
        None => s,
    }
}

fn strip_icon_index_exec(s1: Vec<char>) -> (res: Vec<char>)
    ensures
        res@ == strip_icon_index(s1@),
{
    proof {
        lemma_last_index_of(s1@, ',');
    }
    match rfind_char(s1.as_slice(), ',') {
        Some(p) => {
            assert(last_index_of(s1@, ',') == Some(p as int));
            let n = s1.len();
            let mut all_digits = p + 1 < n;
            let mut k = p + 1;
            while k < n
                invariant
                    p < n,
                    n == s1@.len(),
                    p + 1 <= k <= n,
                    all_digits == (p + 1 < n && forall|j: int| p + 1 <= j < k ==> '0' <= #[trigger] s1@[j] && s1@[j] <= '9'),
                decreases n - k,
            {
                if !('0' <= s1[k] && s1[k] <= '9') {
                    all_digits = false;
                }
                k += 1;
            }
            proof {
                let idx = s1@.subrange(p + 1, n as int);
                if all_digits {
                    assert forall|i: int| 0 <= i < idx.len() implies '0' <= #[trigger] idx[i] && idx[i] <= '9' by {
                        assert(idx[i] == s1@[p + 1 + i]);
                    }
                } else if idx.len() > 0 {
                    let j = choose|j: int| p + 1 <= j < n && !('0' <= s1@[j] && s1@[j] <= '9');
                    assert(idx[j - p - 1] == s1@[j]);
                    assert(!all_ascii_digits(idx));
                }
            }
            if all_digits {
                slice_range(s1.as_slice(), 0, p)
            } else {
                s1
            }
        },
        None => s1,
    }
}

/// An uninstall entry's `DisplayIcon` as the executable's path: the value trimmed,
/// its quotes taken off, a trailing `,<digits>` icon index dropped, and the rest
/// trimmed of white space and quotes again; `None` unless that ends in `.exe`
/// (ASCII case ignored).
pub fn sanitize_display_icon(raw: &str) -> (res: Option<String>)
    ensures
        opt_view(res) == sanitize_display_icon_spec(raw@),
{
    let c = chars_of(raw);
    let t = trim_chars(c.as_slice(), CharClass::Whitespace);
    let s1 = trim_chars(t.as_slice(), CharClass::Quote);
    let s2 = strip_icon_index_exec(s1);
    let s2w = trim_chars(s2.as_slice(), CharClass::Whitespace);
    let s2q = trim_chars(s2w.as_slice(), CharClass::Quote);
    let s3 = trim_chars(s2q.as_slice(), CharClass::Whitespace);
    let n3 = s3.len();
    if n3 >= 4 {
        let tail = slice_range(s3.as_slice(), n3 - 4, n3);
        let exe = chars_of(".exe");
        if chars_eq_ignore_case(tail.as_slice(), exe.as_slice()) {
            return Some(string_from_chars(s3.as_slice()));
        }
    }
    None
}

/// What the registry search does next with the uninstall entry at hand.
pub enum RegistryStep {
    /// Query the entry's `DisplayIcon`.
    QueryIcon,
    /// Check whether this path is a file: if it is, it is the executable found.
    CheckFile(String),
    /// Go on with the next uninstall entry.
    NextEntry,
}

impl AppSpec {
    /// The step after the entry's `DisplayName` was queried (`None` when the query
    /// failed or found no value): the icon is queried only for this application's
    /// entries.
    pub fn after_display_name(&self, display_name: Option<&str>) -> (res: RegistryStep)
        ensures
            match display_name {
                Some(n) => if self.display_name_prefix@.len() <= n@.len()
                    && n@.subrange(0, self.display_name_prefix@.len() as int)
                    == self.display_name_prefix@ {
                    res is QueryIcon
                } else {
                    res is NextEntry
                },
                None => res is NextEntry,
            },
    {
        match display_name {
            Some(n) => if self.matches_display_name(n) {
                RegistryStep::QueryIcon
            } else {
                RegistryStep::NextEntry
            },
            None => RegistryStep::NextEntry,
        }
    }
}

/// The step after the entry's `DisplayIcon` was queried (`None` when the query
/// failed or found no value): a path that the icon gives is checked on disk.
pub fn after_display_icon(icon: Option<&str>) -> (res: RegistryStep)
    ensures
        match icon {
            Some(i) => match sanitize_display_icon_spec(i@) {
                Some(p) => res matches RegistryStep::CheckFile(q) && q@ == p,
                None => res is NextEntry,
            },
            None => res is NextEntry,
        },
{
    match icon {
        Some(i) => match sanitize_display_icon(i) {
            Some(p) => RegistryStep::CheckFile(p),
            None => RegistryStep::NextEntry,
        },
        None => RegistryStep::NextEntry,
    }
}

/// The value of `value` on one line of `reg query` output: the line trimmed, the
/// name before the first `REG_SZ` matched without ASCII case, the data after it trimmed.
pub open spec fn reg_line_value(line: Seq<char>, value: Seq<char>) -> Option<Seq<char>> {
    let t = trim_of(line, CharClass::Whitespace);
    match find_from(t, "REG_SZ"@, 0) {
        None => None,
        Some(pos) => if eq_ignore_ascii_case(trim_of(t.subrange(0, pos), CharClass::Whitespace), value) {
            Some(trim_of(t.subrange(pos + 6, t.len() as int), CharClass::Whitespace))
        } else {
            None
        },
    }
}

/// The value on the first line that has it.
pub open spec fn reg_value_in(lines: Seq<Seq<char>>, value: Seq<char>) -> Option<Seq<char>>
    decreases lines.len(),
{
    if lines.len() == 0 {
        None
    } else {
        match reg_line_value(lines[0], value) {
            Some(v) => Some(v),
            None => reg_value_in(lines.drop_first(), value),
        }
    }
}

/// A `REG_SZ` value from the output of `reg query <key> /v <value>`; `None` when
/// the query failed or did not list it.
pub fn query_reg_value(value: &str, success: bool, stdout: &[u8]) -> (res: Option<String>)
    ensures
        opt_view(res) == if success {
            reg_value_in(lines_of(utf8_lossy(stdout@)), value@)
        } else {
            None
        },
{
    if !success {
        return None;
    }
    let text = decode_lossy(stdout);
    let chars = chars_of(text.as_str());
    let lines = split_lines(chars.as_slice());
    let ghost all = lines_of(text@);
    let vc = chars_of(value);
    let reg = chars_of("REG_SZ");
    proof {
        reveal_strlit("REG_SZ");
    }
    let mut i: usize = 0;
    assert(all.skip(0) =~= all);
    while i < lines.len()
        invariant
            all == lines_of(text@),
            lines@.len() == all.len(),
            forall|j: int| 0 <= j < lines@.len() ==> #[trigger] lines@[j]@ == all[j],
            0 <= i <= lines@.len(),
            vc@ == value@,
            success,
            text@ == utf8_lossy(stdout@),
            reg@ == "REG_SZ"@,
            reg@.len() == 6,
            reg_value_in(all, value@) == reg_value_in(all.skip(i as int), value@),
        decreases lines@.len() - i,
    {
        assert(all.skip(i as int)[0] == all[i as int]);
        assert(all.skip(i as int).drop_first() =~= all.skip(i + 1));
        let t = trim_chars(lines[i].as_slice(), CharClass::Whitespace);
        let found = find_chars(t.as_slice(), reg.as_slice());
        assert(found matches Some(p) ==> p + reg@.len() <= t@.len());
        match found {
            Some(pos) => {
                let tl = t.len();
                assert(pos + 6 <= tl);
                let data_start: usize = pos + 6;
                let head = slice_range(t.as_slice(), 0, pos);
                let name = trim_chars(head.as_slice(), CharClass::Whitespace);
                if chars_eq_ignore_case(name.as_slice(), vc.as_slice()) {
                    let data = slice_range(t.as_slice(), data_start, t.len());
                    let d = trim_chars(data.as_slice(), CharClass::Whitespace);
                    proof {
                        let line = all[i as int];
                        assert(t@ == trim_of(line, CharClass::Whitespace));
                        assert(find_from(t@, "REG_SZ"@, 0) == Some(pos as int));
                        assert(head@ =~= t@.subrange(0, pos as int));
                        assert(data@ =~= t@.subrange(pos + 6, t@.len() as int));
                        assert(reg_line_value(line, value@) == Some(d@));
                        assert(reg_value_in(all.skip(i as int), value@) == Some(d@));
                    }
                    return Some(string_from_chars(d.as_slice()));
                }
            },
            None => {},
        }
        i += 1;
    }
    None
}

/// The subkeys that `reg query <root>` lists: the trimmed lines that start with
/// `<root>\` and go on after it.
pub open spec fn uninstall_keys_spec(root: Seq<char>, lines: Seq<Seq<char>>) -> Seq<Seq<char>>
    decreases lines.len(),
{
    if lines.len() == 0 {
        Seq::empty()
    } else {
        let prev = uninstall_keys_spec(root, lines.drop_last());
        let t = trim_of(lines.last(), CharClass::Whitespace);
        let prefix = root + "\\"@;
        if t.len() > prefix.len() && t.subrange(0, prefix.len() as int) == prefix {
            prev.push(t)
        } else {
            prev
        }
    }
}

/// The subkey paths from the output of `reg query <root>`.
pub fn enum_uninstall_keys(root: &str, stdout: &[u8]) -> (res: Vec<String>)
    ensures
        res@.map_values(|s: String| s@) == uninstall_keys_spec(root@, lines_of(utf8_lossy(stdout@))),
{
    let text = decode_lossy(stdout);
    let chars = chars_of(text.as_str());
    let lines = split_lines(chars.as_slice());
    let ghost all = lines_of(text@);
    let p = concat2(root, "\\");
    let prefix = chars_of(p.as_str());
    let mut out: Vec<String> = Vec::new();
    let mut i: usize = 0;
    while i < lines.len()
        invariant
            all == lines_of(text@),
            lines@.len() == all.len(),
            forall|j: int| 0 <= j < lines@.len() ==> #[trigger] lines@[j]@ == all[j],
            0 <= i <= lines@.len(),
            prefix@ == root@ + "\\"@,
            out@.map_values(|s: String| s@) == uninstall_keys_spec(root@, all.take(i as int)),
        decreases lines@.len() - i,
    {
        let t = trim_chars(lines[i].as_slice(), CharClass::Whitespace);
        assert(all.take(i + 1).drop_last() =~= all.take(i as int));
        assert(all.take(i + 1).last() == all[i as int]);
        let ghost before = out@;
        if t.len() > prefix.len() && starts_with_chars(t.as_slice(), prefix.as_slice()) {
            out.push(string_from_chars(t.as_slice()));
            assert(out@.map_values(|s: String| s@) =~= before.map_values(|s: String| s@).push(t@));
        }
        i += 1;
    }
    assert(all.take(lines@.len() as int) =~= all);
    out
}

/// The first comma-separated field of a line.
pub open spec fn first_field(s: Seq<char>) -> Seq<char> {
    match find_from(s, ","@, 0) {
        Some(i) => s.subrange(0, i),
        None => s,
    }
}

/// One line of `tasklist /NH /FO CSV` output names the image: its first field,
/// without quotes, equals the process name without ASCII case.
pub open spec fn line_names_image(line: Seq<char>, process_name: Seq<char>) -> bool {
    eq_ignore_ascii_case(
        trim_of(first_field(trim_of(line, CharClass::Whitespace)), CharClass::Quote),
        process_name,
    )
}

/// Whether the process runs, from the output of
/// `tasklist /NH /FO CSV /FI "IMAGENAME eq <name>"`: some line names its image (the
/// output without a match is a single informational line, which names none).
pub fn is_running(process_name: &str, stdout: &[u8]) -> (res: bool)
    ensures
        res == exists|i: int|
            0 <= i < lines_of(utf8_lossy(stdout@)).len() && line_names_image(
                #[trigger] lines_of(utf8_lossy(stdout@))[i],
                process_name@,
            ),
{
    let text = decode_lossy(stdout);
    let chars = chars_of(text.as_str());
    let lines = split_lines(chars.as_slice());
    let ghost all = lines_of(text@);
    let name = chars_of(process_name);
    let comma = chars_of(",");
    proof {
        reveal_strlit(",");
    }
    let mut i: usize = 0;
    while i < lines.len()
        invariant
            all == lines_of(text@),
            lines@.len() == all.len(),
            forall|j: int| 0 <= j < lines@.len() ==> #[trigger] lines@[j]@ == all[j],
            0 <= i <= lines@.len(),
            name@ == process_name@,
            comma@ == ","@,
            text@ == utf8_lossy(stdout@),
            forall|j: int| 0 <= j < i ==> !line_names_image(#[trigger] all[j], process_name@),
        decreases lines@.len() - i,
    {
        let t = trim_chars(lines[i].as_slice(), CharClass::Whitespace);
        let ghost tv = t@;
        let found = find_chars(t.as_slice(), comma.as_slice());
        assert(find_from(tv, ","@, 0) == find_from(tv, comma@, 0));
        let field = match found {
            Some(k) => {
                assert(find_from(tv, ","@, 0) == Some(k as int));
                slice_range(t.as_slice(), 0, k)
            },
            None => t,
        };
        assert(tv == trim_of(all[i as int], CharClass::Whitespace));
        assert(field@ == first_field(tv));
        let img = trim_chars(field.as_slice(), CharClass::Quote);
        if chars_eq_ignore_case(img.as_slice(), name.as_slice()) {
            assert(line_names_image(all[i as int], process_name@));
            assert(all == lines_of(utf8_lossy(stdout@)));
            assert(line_names_image(lines_of(utf8_lossy(stdout@))[i as int], process_name@));
            return true;
        }
        i += 1;
    }
    false
}

/// The `tasklist` filter for an image name.
pub fn image_filter(process_name: &str) -> (res: String)
    ensures
        res@ == "IMAGENAME eq "@ + process_name@,
{
    concat2("IMAGENAME eq ", process_name)
}

} // verus!
