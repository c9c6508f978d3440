//! The kimi CLI's version, the update check (`kimi upgrade` without `-y`) and the
//! update itself (`kimi upgrade -y`), from the outputs of those commands.
use vstd::prelude::*;
use vstd::string::StringSliceAdditionalSpecFns;
use vstd::utf8::encode_utf8;
use crate::jsonl::{bytes_contain, contains_bytes};
use crate::models::{UpdateCheckResult, UpdateResult};
use crate::numeric::is_digit_byte;
use crate::strings::{concat, concat_spec, concat2, opt_view, owned, str_equals};
use crate::text::{chars_of, lines_of, split_lines, string_from_chars, trim_chars, trim_of, CharClass};
use crate::timestamp::digit_run_len;
use crate::wsl::WslOutput;

verus! {

/// The exit code of `timeout` when it killed the command.
pub const TIMEOUT_EXIT_CODE: i32 = 124;
/// The command that prints the CLI version.
pub const VERSION_COMMAND: &'static str = "kimi --version";
/// The command that checks for an update (never with `-y`).
pub const CHECK_COMMAND: &'static str = "timeout 90 kimi upgrade";
/// The command that installs an update.
pub const UPDATE_COMMAND: &'static str = "timeout 600 kimi upgrade -y";

/// The CLI's output: standard output, or standard error when that is empty.
pub fn raw_output(out: &WslOutput) -> (res: String)
    ensures
        res@ == if out.stdout@.len() == 0 {
            out.stderr@
        } else {
            out.stdout@
        },
{
    if out.stdout.as_str().is_empty() {
        owned(out.stderr.as_str())
    } else {
        owned(out.stdout.as_str())
    }
}

/// The last line of the given lines that is not blank, trimmed.
pub open spec fn last_nonblank(lines: Seq<Seq<char>>) -> Seq<char>
    decreases lines.len(),
{
    if lines.len() == 0 {
        Seq::empty()
    } else if trim_of(lines.last(), CharClass::Whitespace).len() > 0 {
        trim_of(lines.last(), CharClass::Whitespace)
    } else {
        last_nonblank(lines.drop_last())
    }
}

/// The version that `kimi --version` printed: its last non-blank line, trimmed (a
/// login profile may print before it); an error when the command failed or
/// printed nothing.
pub open spec fn get_version_spec(distro: Seq<char>, outcome: Result<Seq<char>, Seq<char>>) -> Result<Seq<char>, Seq<char>> {
    match outcome {
        Err(e) => Err("获取 kimi CLI 版本失败: "@ + e),
        Ok(out) => {
            let v = last_nonblank(lines_of(out));
            if v.len() == 0 {
                Err("kimi --version 输出为空（发行版 "@ + distro + " 里是否已安装 kimi CLI？）"@)
            } else {
                Ok(v)
            }
        },
    }
}

/// A result of strings as a result of views.
pub open spec fn result_view(r: Result<String, String>) -> Result<Seq<char>, Seq<char>> {
    match r {
        Ok(s) => Ok(s@),
        Err(e) => Err(e@),
    }
}

/// The CLI version from the outcome of [`VERSION_COMMAND`].
pub fn get_version(distro: &str, outcome: Result<String, String>) -> (res: Result<String, String>)
    ensures
        result_view(res) == get_version_spec(distro@, result_view(outcome)),
{
    let out = match outcome {
        Err(e) => return Err(concat2("获取 kimi CLI 版本失败: ", e.as_str())),
        Ok(o) => o,
    };
    let chars = chars_of(out.as_str());
    let lines = split_lines(chars.as_slice());
    let ghost all = lines_of(out@);
    let mut i = lines.len();
    let mut found: Option<Vec<char>> = None;
    assert(all.take(i as int) =~= all);
    while i > 0 && found.is_none()
        invariant
            all == lines_of(out@),
            lines@.len() == all.len(),
            forall|j: int| 0 <= j < lines@.len() ==> #[trigger] lines@[j]@ == all[j],
            0 <= i <= lines@.len(),
            found is None ==> last_nonblank(all) == last_nonblank(all.take(i as int)),
            found matches Some(v) ==> v@ == last_nonblank(all) && v@.len() > 0,
        decreases i,
    {
        let t = trim_chars(lines[i - 1].as_slice(), CharClass::Whitespace);
        assert(all.take(i as int).drop_last() =~= all.take(i - 1));
        assert(all.take(i as int).last() == all[i - 1]);
        if t.len() > 0 {
            found = Some(t);
        }
        i -= 1;
    }
    match found {
        Some(v) => Ok(string_from_chars(v.as_slice())),
        None => {
            assert(all.take(0).len() == 0);
            let res = concat(&["kimi --version 输出为空（发行版 ", distro, " 里是否已安装 kimi CLI？）"]);
            proof {
                reveal_with_fuel(concat_spec, 4);
            }
            Err(res)
        },
    }
}

/// Where a version starts at position `i` of `b`: at `i` for a digit, after a `v`
/// followed by a digit.
pub open spec fn version_start(b: Seq<u8>, i: int) -> Option<int> {
    if b[i] == 118u8 && i + 1 < b.len() && is_digit_byte(b[i + 1]) {
        Some(i + 1)
    } else if is_digit_byte(b[i]) {
        Some(i)
    } else {
        None
    }
}

/// Where the run of ASCII digits that starts at `start` ends.
pub open spec fn run_end(b: Seq<u8>, start: int) -> int {
    start + digit_run_len(b.subrange(start, b.len() as int))
}

/// The end of `digits.digits.digits` starting at `start`, each run as long as it goes;
/// none past the end of `b`.
pub open spec fn semver_end(b: Seq<u8>, start: int) -> Option<int> {
    let e1 = run_end(b, start);
    if start < 0 || start > b.len() {
        None
    } else if e1 == start || e1 >= b.len() || b[e1] != 46u8 {
        None
    } else {
        let e2 = run_end(b, e1 + 1);
        if e2 == e1 + 1 || e2 >= b.len() || b[e2] != 46u8 {
            None
        } else {
            let e3 = run_end(b, e2 + 1);
            if e3 == e2 + 1 {
                None
            } else {
                Some(e3)
            }
        }
    }
}

/// The versions `X.Y.Z` found from position `i` on, left to right without overlap,
/// as the regular expression `v?(\d+\.\d+\.\d+)` matches them (the `v` not kept).
pub open spec fn versions_from(b: Seq<u8>, i: int) -> Seq<Seq<u8>>
    decreases b.len() - i,
{
    if i < 0 || i >= b.len() {
        Seq::empty()
    } else {
        match version_start(b, i) {
            None => versions_from(b, i + 1),
            Some(s) => match semver_end(b, s) {
                Some(e) => if i < e <= b.len() {
                    seq![b.subrange(s, e)] + versions_from(b, e)
                } else {
                    Seq::empty()
                },
                None => versions_from(b, i + 1),
            },
        }
    }
}

/// `X.Y.Z` with `X`, `Y` and `Z` non-empty runs of ASCII digits: what the capture
/// group of `v?(\d+\.\d+\.\d+)` matches.
pub open spec fn is_version_text(v: Seq<u8>) -> bool {
    exists|i: int, j: int|
        {
            &&& 0 < i
            &&& i + 1 < j
            &&& j + 1 < v.len()
            &&& v[i] == 46u8
            &&& v[j] == 46u8
            &&& forall|k: int|
                0 <= k < v.len() && k != i && k != j ==> is_digit_byte(#[trigger] v[k])
        }
}

/// `v` stands in `b` from position `s`.
pub open spec fn occurs_at(b: Seq<u8>, v: Seq<u8>, s: int) -> bool {
    0 <= s && s + v.len() <= b.len() && b.subrange(s, s + v.len()) == v
}

/// `v` stands somewhere in `b`.
pub open spec fn occurs_in(b: Seq<u8>, v: Seq<u8>) -> bool {
    exists|s: int| #[trigger] occurs_at(b, v, s)
}

proof fn lemma_digit_run(s: Seq<u8>)
    ensures
        digit_run_len(s) <= s.len(),
        forall|j: int| 0 <= j < digit_run_len(s) ==> is_digit_byte(#[trigger] s[j]),
    decreases s.len(),
{
    if s.len() > 0 && is_digit_byte(s[0]) {
        lemma_digit_run(s.drop_first());
        assert forall|j: int| 0 <= j < digit_run_len(s) implies is_digit_byte(#[trigger] s[j]) by {
            if j > 0 {
                assert(s[j] == s.drop_first()[j - 1]);
            }
        }
    }
}

proof fn lemma_run_end(b: Seq<u8>, start: int)
    requires
        0 <= start <= b.len(),
    ensures
        start <= run_end(b, start) <= b.len(),
        forall|k: int| start <= k < run_end(b, start) ==> is_digit_byte(#[trigger] b[k]),
{
    let t = b.subrange(start, b.len() as int);
    lemma_digit_run(t);
    assert forall|k: int| start <= k < run_end(b, start) implies is_digit_byte(#[trigger] b[k]) by {
        assert(b[k] == t[k - start]);
    }
}

proof fn lemma_semver_text(b: Seq<u8>, start: int)
    requires
        semver_end(b, start) is Some,
    ensures
        start < semver_end(b, start)->0 <= b.len(),
        is_version_text(b.subrange(start, semver_end(b, start)->0)),
{
    let e1 = run_end(b, start);
    lemma_run_end(b, start);
    let e2 = run_end(b, e1 + 1);
    lemma_run_end(b, e1 + 1);
    let e3 = run_end(b, e2 + 1);
    lemma_run_end(b, e2 + 1);
    let v = b.subrange(start, e3);
    let i = e1 - start;
    let j = e2 - start;
    assert forall|k: int| 0 <= k < v.len() && k != i && k != j implies is_digit_byte(#[trigger] v[k]) by {
        assert(v[k] == b[start + k]);
    }
    assert(v[i] == 46u8 && v[j] == 46u8);
}

proof fn lemma_versions_from(b: Seq<u8>, i: int)
    requires
        0 <= i,
    ensures
        forall|k: int|
            0 <= k < versions_from(b, i).len() ==> {
                &&& is_version_text(#[trigger] versions_from(b, i)[k])
                &&& occurs_in(b, versions_from(b, i)[k])
            },
    decreases b.len() - i,
{
    if i < b.len() {
        match version_start(b, i) {
            None => {
                lemma_versions_from(b, i + 1);
                assert(versions_from(b, i) == versions_from(b, i + 1));
            },
            Some(st) => match semver_end(b, st) {
                Some(e) => if i < e <= b.len() {
                    lemma_versions_from(b, e);
                    lemma_semver_text(b, st);
                    let head = b.subrange(st, e);
                    let tail = versions_from(b, e);
                    assert forall|k: int| 0 <= k < versions_from(b, i).len() implies {
                        &&& is_version_text(#[trigger] versions_from(b, i)[k])
                        &&& occurs_in(b, versions_from(b, i)[k])
                    } by {
                        if k == 0 {
                            assert(versions_from(b, i)[k] == head);
                            assert(b.subrange(st, st + head.len()) == head);
                            assert(occurs_at(b, head, st));
                        } else {
                            assert(versions_from(b, i)[k] == tail[k - 1]);
                        }
                    }
                } else {
                    assert(versions_from(b, i).len() == 0);
                },
                None => {
                    lemma_versions_from(b, i + 1);
                    assert(versions_from(b, i) == versions_from(b, i + 1));
                },
            },
        }
    }
}

/// Law: every version found is `X.Y.Z` in ASCII digits (the regular expression's
/// capture group) and stands in the text as found.
pub proof fn law_versions_are_dotted_triples(b: Seq<u8>)
    ensures
        forall|k: int|
            0 <= k < versions_from(b, 0).len() ==> {
                &&& is_version_text(#[trigger] versions_from(b, 0)[k])
                &&& occurs_in(b, versions_from(b, 0)[k])
            },
{
    lemma_versions_from(b, 0);
}

/// The end of the digit run of `b` at `start`.
fn digits_end(b: &[u8], start: usize) -> (res: usize)
    requires
        start <= b@.len(),
    ensures
        res == run_end(b@, start as int),
        start <= res <= b@.len(),
{
    let n = b.len();
    let mut i = start;
    while i < n && 48 <= b[i] && b[i] <= 57
        invariant
            n == b@.len(),
            start <= i <= n,
            run_end(b@, start as int) == i + digit_run_len(b@.subrange(i as int, n as int)),
        decreases n - i,
    {
        assert(b@.subrange(i as int, n as int).drop_first() =~= b@.subrange(i + 1, n as int));
        i += 1;
    }
    assert(digit_run_len(b@.subrange(i as int, n as int)) == 0);
    i
}

/// Parses `digits.digits.digits` from `start`; returns where it ends (`None` for a
/// `start` past the end).
pub fn parse_semver_end(b: &[u8], start: usize) -> (res: Option<usize>)
    ensures
        match semver_end(b@, start as int) {
            Some(e) => res == Some(e as usize) && start < e <= b@.len(),
            None => res is None,
        },
{
    let n = b.len();
    if start > n {
        return None;
    }
    let e1 = digits_end(b, start);
    if e1 == start || e1 >= n || b[e1] != 46 {
        return None;
    }
    let e2 = digits_end(b, e1 + 1);
    if e2 == e1 + 1 || e2 >= n || b[e2] != 46 {
        return None;
    }
    let e3 = digits_end(b, e2 + 1);
    if e3 == e2 + 1 {
        return None;
    }
    Some(e3)
}

/// The characters of ASCII bytes.
pub open spec fn ascii_text(b: Seq<u8>) -> Seq<char> {
    b.map_values(|x: u8| x as char)
}

fn ascii_string(b: &[u8], lo: usize, hi: usize) -> (res: String)
    requires
        lo <= hi <= b@.len(),
    ensures
        res@ == ascii_text(b@.subrange(lo as int, hi as int)),
{
    let mut v: Vec<char> = Vec::new();
    let mut i = lo;
    while i < hi
        invariant
            lo <= i <= hi <= b@.len(),
            v@ == ascii_text(b@.subrange(lo as int, i as int)),
        decreases hi - i,
    {
        v.push(b[i] as char);
        i += 1;
        assert(v@ =~= ascii_text(b@.subrange(lo as int, i as int)));
    }
    string_from_chars(v.as_slice())
}

/// Every version `X.Y.Z` (or `vX.Y.Z`, without the `v`) in the text, left to right.
pub fn extract_versions(text: &str) -> (res: Vec<String>)
    ensures
        res@.map_values(|s: String| s@) == versions_from(text.spec_bytes(), 0).map_values(
            |v: Seq<u8>| ascii_text(v),
        ),
{
    let b = text.as_bytes();
    let n = b.len();
    let mut out: Vec<String> = Vec::new();
    let mut i: usize = 0;
    while i < n
        invariant
            n == b@.len(),
            0 <= i <= n,
            versions_from(b@, 0).map_values(|v: Seq<u8>| ascii_text(v)) == out@.map_values(
                |s: String| s@,
            ) + versions_from(b@, i as int).map_values(|v: Seq<u8>| ascii_text(v)),
        decreases n - i,
    {
        let start: Option<usize> = if b[i] == 118 && i + 1 < n && 48 <= b[i + 1] && b[i + 1] <= 57 {
            Some(i + 1)
        } else if 48 <= b[i] && b[i] <= 57 {
            Some(i)
        } else {
            None
        };
        let ghost before = out@.map_values(|s: String| s@);
        match start {
            None => {
                i += 1;
            },
            Some(s) => match parse_semver_end(b, s) {
                Some(e) => {
                    let v = ascii_string(b, s, e);
                    out.push(v);
                    assert(out@.map_values(|s: String| s@) =~= before.push(
                        ascii_text(b@.subrange(s as int, e as int)),
                    ));
                    let ghost rest = versions_from(b@, e as int);
                    assert((seq![b@.subrange(s as int, e as int)] + rest).map_values(
                        |v: Seq<u8>| ascii_text(v),
                    ) =~= seq![ascii_text(b@.subrange(s as int, e as int))] + rest.map_values(
                        |v: Seq<u8>| ascii_text(v),
                    ));
                    i = e;
                },
                None => {
                    i += 1;
                },
            },
        }
    }
    assert(versions_from(b@, n as int).len() == 0);
    out
}

/// The decision of an update check: up to date when the output says
/// `already up to date`, and otherwise the first version in the output that
/// differs from the current one (the current version may appear in it too).
pub open spec fn check_update_spec(current: Seq<char>, output: Seq<char>) -> (bool, Option<Seq<char>>) {
    let up_to_date = bytes_contain(encode_utf8(output), encode_utf8("already up to date"@));
    if up_to_date {
        (true, None)
    } else {
        let vs = versions_from(encode_utf8(output), 0).map_values(|v: Seq<u8>| ascii_text(v));
        if exists|i: int| 0 <= i < vs.len() && vs[i] != current {
            (false, Some(vs[first_other(vs, current)]))
        } else {
            (false, None)
        }
    }
}

/// The index of the first element of `vs` other than `current`.
pub open spec fn first_other(vs: Seq<Seq<char>>, current: Seq<char>) -> int {
    choose|i: int| 0 <= i < vs.len() && vs[i] != current && forall|j: int| 0 <= j < i ==> vs[j] == current
}

/// Some version in `vs` differs from `current`.
pub open spec fn some_version_differs(vs: Seq<Seq<char>>, current: Seq<char>) -> bool {
    exists|i: int| 0 <= i < vs.len() && vs[i] != current
}

/// `v` is the first version in `vs` that differs from `current`: it stands at some
/// position of `vs`, and every version before it is `current`.
pub open spec fn first_differing_version(vs: Seq<Seq<char>>, current: Seq<char>, v: Seq<char>) -> bool {
    v != current && exists|k: int|
        0 <= k < vs.len() && #[trigger] vs[k] == v && forall|j: int| 0 <= j < k ==> vs[j] == current
}

proof fn lemma_first_other(vs: Seq<Seq<char>>, current: Seq<char>)
    requires
        exists|i: int| 0 <= i < vs.len() && vs[i] != current,
    ensures
        0 <= first_other(vs, current) < vs.len(),
        vs[first_other(vs, current)] != current,
        forall|j: int| 0 <= j < first_other(vs, current) ==> vs[j] == current,
    decreases vs.len(),
{
    if vs[0] != current {
        assert(0 <= 0 < vs.len() && vs[0] != current && forall|j: int| 0 <= j < 0 ==> vs[j] == current);
    } else {
        let i = choose|i: int| 0 <= i < vs.len() && vs[i] != current;
        let rest = vs.drop_first();
        assert(rest[i - 1] == vs[i]);
        lemma_first_other(rest, current);
        let w = first_other(rest, current) + 1;
        assert forall|j: int| 0 <= j < w implies vs[j] == current by {
            if j > 0 {
                assert(vs[j] == rest[j - 1]);
            }
        }
        assert(vs[w] == rest[w - 1]);
        assert(0 <= w < vs.len() && vs[w] != current && forall|j: int| 0 <= j < w ==> vs[j] == current);
    }
}

/// Law: an update check is up to date exactly when the output says `already up to
/// date`, and then names no latest version. Otherwise the latest version is the
/// first version in the output (left to right) that differs from the current one,
/// and there is none exactly when every version in the output is the current one.
pub proof fn law_latest_is_first_other_version(current: Seq<char>, output: Seq<char>)
    ensures
        ({
            let r = check_update_spec(current, output);
            let vs = versions_from(encode_utf8(output), 0).map_values(|v: Seq<u8>| ascii_text(v));
            &&& r.0 == bytes_contain(encode_utf8(output), encode_utf8("already up to date"@))
            &&& r.0 ==> r.1 is None
            &&& !r.0 ==> (r.1 is Some <==> some_version_differs(vs, current))
            &&& !r.0 ==> (r.1 matches Some(v) ==> first_differing_version(vs, current, v))
        }),
{
    let vs = versions_from(encode_utf8(output), 0).map_values(|v: Seq<u8>| ascii_text(v));
    if exists|i: int| 0 <= i < vs.len() && vs[i] != current {
        lemma_first_other(vs, current);
        let w = first_other(vs, current);
        assert(vs[w] == vs[first_other(vs, current)]);
    }
}

/// The result of an update check from the current version and the outcome of
/// [`CHECK_COMMAND`]; an error when `timeout` killed it. Another non-zero exit is
/// no failure: the confirmation prompt ends at end of input.
pub fn check_update(current_version: String, out: &WslOutput) -> (res: Result<UpdateCheckResult, String>)
    ensures
        out.code == Some(TIMEOUT_EXIT_CODE) ==> (res matches Err(e) && e@ == "检查更新超时（90 秒），请检查网络连接后重试"@),
        out.code != Some(TIMEOUT_EXIT_CODE) ==> (res matches Ok(r) && {
            let output = if out.stdout@.len() == 0 {
                out.stderr@
            } else {
                out.stdout@
            };
            &&& r.current_version@ == current_version@
            &&& r.output@ == output
            &&& (r.up_to_date, opt_view(r.latest_version)) == check_update_spec(current_version@, output)
        }),
        out.code != Some(TIMEOUT_EXIT_CODE) ==> (res matches Ok(r) && {
            let output = if out.stdout@.len() == 0 {
                out.stderr@
            } else {
                out.stdout@
            };
            let vs = versions_from(encode_utf8(output), 0).map_values(|v: Seq<u8>| ascii_text(v));
            &&& r.up_to_date == bytes_contain(encode_utf8(output), encode_utf8("already up to date"@))
            &&& r.up_to_date ==> r.latest_version is None
            &&& !r.up_to_date ==> (r.latest_version is Some <==> some_version_differs(
                vs,
                current_version@,
            ))
            &&& !r.up_to_date ==> (r.latest_version matches Some(v) ==> first_differing_version(
                vs,
                current_version@,
                v@,
            ))
        }),
{
    if out.code == Some(TIMEOUT_EXIT_CODE) {
        return Err(owned("检查更新超时（90 秒），请检查网络连接后重试"));
    }
    let output = raw_output(out);
    let needle = "already up to date";
    let up_to_date = contains_bytes(output.as_str().as_bytes(), needle.as_bytes());
    let latest = if up_to_date {
        None
    } else {
        let versions = extract_versions(output.as_str());
        let ghost vs = versions_from(encode_utf8(output@), 0).map_values(|v: Seq<u8>| ascii_text(v));
        let mut found: Option<String> = None;
        let mut i: usize = 0;
        while i < versions.len() && found.is_none()
            invariant
                vs == versions@.map_values(|s: String| s@),
                0 <= i <= versions@.len(),
                found is None ==> forall|j: int| 0 <= j < i ==> vs[j] == current_version@,
                found matches Some(f) ==> f@ != current_version@ && exists|k: int|
                    0 <= k < vs.len() && vs[k] == f@ && forall|j: int| 0 <= j < k ==> vs[j] == current_version@,
            decreases versions@.len() - i,
        {
            assert(vs[i as int] == versions@[i as int]@);
            if !str_equals(versions[i].as_str(), current_version.as_str()) {
                found = Some(owned(versions[i].as_str()));
            }
            i += 1;
        }
        proof {
            match &found {
                Some(f) => {
                    let k = choose|k: int|
                        0 <= k < vs.len() && vs[k] == f@ && forall|j: int| 0 <= j < k ==> vs[j] == current_version@;
                    let w = first_other(vs, current_version@);
                    assert(exists|i: int| 0 <= i < vs.len() && vs[i] != current_version@);
                    if w < k {
                        assert(vs[w] == current_version@);
                    }
                    if k < w {
                        assert(vs[k] == current_version@);
                    }
                },
                None => {
                    assert(i == versions@.len());
                },
            }
        }
        found
    };
    proof {
        law_latest_is_first_other_version(current_version@, output@);
        let vs = versions_from(encode_utf8(output@), 0).map_values(|v: Seq<u8>| ascii_text(v));
        let spec = check_update_spec(current_version@, output@);
        assert(spec.1 == opt_view(latest));
        if let Some(v) = &latest {
            if !up_to_date {
                assert(spec.1 == Some(v@));
            }
        }
    }
    Ok(UpdateCheckResult { current_version, up_to_date, latest_version: latest, output })
}

/// Whether [`UPDATE_COMMAND`] succeeded: it exited with 0.
pub fn update_succeeded(out: &WslOutput) -> (res: bool)
    ensures
        res == (out.code == Some(0i32)),
{
    out.code == Some(0)
}

/// The result of an update: an error when `timeout` killed it; otherwise success
/// is a zero exit, and only then do the version read afterwards and whether kimi
/// web was restarted count (a failure to read either does not undo the success).
pub fn update(out: &WslOutput, new_version: Option<String>, restarted_web: bool) -> (res: Result<UpdateResult, String>)
    ensures
        out.code == Some(TIMEOUT_EXIT_CODE) ==> (res matches Err(e) && e@ == "更新超时（600 秒），请检查网络连接后重试"@),
        out.code != Some(TIMEOUT_EXIT_CODE) ==> (res matches Ok(r) && {
            &&& r.success == (out.code == Some(0i32))
            &&& r.output@ == if out.stdout@.len() == 0 {
                out.stderr@
            } else {
                out.stdout@
            }
            &&& opt_view(r.new_version) == if r.success {
                opt_view(new_version)
            } else {
                None
            }
            &&& r.restarted_web == (r.success && restarted_web)
        }),
{
    if out.code == Some(TIMEOUT_EXIT_CODE) {
        return Err(owned("更新超时（600 秒），请检查网络连接后重试"));
    }
    let output = raw_output(out);
    let success = update_succeeded(out);
    if success {
        Ok(UpdateResult { success, output, restarted_web, new_version })
    } else {
        Ok(UpdateResult { success, output, restarted_web: false, new_version: None })
    }
}

} // verus!
