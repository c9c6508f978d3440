//! Codex rollout files: parsing of their lines, the per-file incremental import
//! and the status that each round reports, for the Windows and the WSL source.
use vstd::prelude::*;
use vstd::utf8::encode_utf8;
use crate::incremental::{advance_offset, complete_len, decode_lossy, last_newline, utf8_lossy};
use crate::json::{json_lookup, json_scalar_at, JsonScalar, JsonScalarView};
use crate::jsonl::{has_type, has_type_spec};
use crate::models::{CodexStatus, UsageEventRow, UsageEventView};
use crate::strings::{concat2, join, join_spec, last_error, last_some, opt_view, owned, str_equals};
use crate::text::{chars_of, law_lines_concat, lines_of, split_lines, string_from_chars};
use crate::timestamp::{rfc3339_ms_spec, rfc3339_utc_to_ms, timestamp_fraction_too_long, fraction_too_long};

verus! {

/// Meta key prefix of the per-file byte offsets of the Windows source.
pub const WINDOWS_OFFSET_PREFIX: &'static str = "codex_off:";
/// Meta key prefix of the last model name seen per file, Windows source.
pub const WINDOWS_MODEL_PREFIX: &'static str = "codex_model:";
/// Meta key prefix of the per-file byte offsets of the WSL source.
pub const WSL_OFFSET_PREFIX: &'static str = "wsl_codex_off:";
/// Meta key prefix of the last model name seen per file, WSL source.
pub const WSL_MODEL_PREFIX: &'static str = "wsl_codex_model:";
/// Meta key of the parser version that the stored offsets were made with.
pub const PARSER_VERSION_KEY: &'static str = "codex_parser_v";
/// The version of the rollout parsing rules.
pub const PARSER_VERSION: &'static str = "2";

/// The initial Windows-side status.
pub fn new_shared_status() -> (res: CodexStatus)
    ensures
        !res.dir_found,
        res.dir is None,
        res.total_records == 0,
        res.last_sync_at_ms is None,
        res.last_error is None,
{
    CodexStatus::default()
}

/// The initial WSL-side status.
pub fn new_shared_wsl_status() -> (res: CodexStatus)
    ensures
        !res.dir_found,
        res.dir is None,
        res.total_records == 0,
        res.last_sync_at_ms is None,
        res.last_error is None,
{
    CodexStatus::default()
}

/// Whether the stored offsets were made by another parser version, so that they
/// must be cleared and every file read again.
pub fn needs_offset_migration(stored_version: Option<&str>) -> (res: bool)
    ensures
        res == !(stored_version matches Some(v) && v@ == PARSER_VERSION@),
{
    match stored_version {
        Some(v) => !str_equals(v, PARSER_VERSION),
        None => true,
    }
}

/// The session id and the current model of a rollout file.
#[derive(Debug)]
pub struct FileMeta {
    pub session_id: String,
    pub model: String,
}

impl FileMeta {
    /// No session id and no model yet.
    pub fn new() -> (res: FileMeta)
        ensures
            res.session_id@.len() == 0,
            res.model@.len() == 0,
    {
        FileMeta { session_id: String::new(), model: String::new() }
    }
}

/// The string at `pointer` of the line, if there is one.
pub open spec fn str_at(line: Seq<char>, pointer: Seq<char>) -> Option<Seq<char>> {
    json_scalar_at(line, pointer).as_str()
}

/// Whether the line has a value at `pointer`.
pub open spec fn present_at(line: Seq<char>, pointer: Seq<char>) -> bool {
    json_scalar_at(line, pointer).present()
}

/// The string, or the empty string when there is none.
pub open spec fn or_empty(s: Option<Seq<char>>) -> Seq<char> {
    match s {
        Some(v) => v,
        None => Seq::empty(),
    }
}

/// A `session_meta` line: its session id (`payload.session_id`, else `payload.id`)
/// and model (`payload.model`), each empty when missing.
pub open spec fn meta_line_spec(line: Seq<char>) -> Option<(Seq<char>, Seq<char>)> {
    if str_at(line, "/type"@) != Some("session_meta"@) || !present_at(line, "/payload"@) {
        None
    } else {
        let sid = if present_at(line, "/payload/session_id"@) {
            or_empty(str_at(line, "/payload/session_id"@))
        } else {
            or_empty(str_at(line, "/payload/id"@))
        };
        Some((sid, or_empty(str_at(line, "/payload/model"@))))
    }
}

fn lookup_str(line: &str, pointer: &str) -> (res: Option<String>)
    ensures
        match res {
            Some(s) => str_at(line@, pointer@) == Some(s@),
            None => str_at(line@, pointer@) is None,
        },
{
    json_lookup(line, pointer).as_str_value()
}

fn lookup_present(line: &str, pointer: &str) -> (res: bool)
    ensures
        res == present_at(line@, pointer@),
{
    json_lookup(line, pointer).is_present()
}

fn string_or_empty(s: Option<String>) -> (res: String)
    ensures
        res@ == or_empty(
            match s {
                Some(v) => Some(v@),
                None => None,
            },
        ),
{
    match s {
        Some(v) => v,
        None => String::new(),
    }
}

/// Whether the line's `/type` is the string `t`.
fn type_is(line: &str, pointer: &str, t: &str) -> (res: bool)
    ensures
        res == (str_at(line@, pointer@) == Some(t@)),
{
    match lookup_str(line, pointer) {
        Some(s) => str_equals(s.as_str(), t),
        None => false,
    }
}

/// Reads a `session_meta` line leniently: `None` for another line or invalid JSON.
pub fn parse_meta_line(line: &str) -> (res: Option<FileMeta>)
    ensures
        match meta_line_spec(line@) {
            Some((sid, model)) => res matches Some(m) && m.session_id@ == sid && m.model@ == model,
            None => res is None,
        },
{
    if !type_is(line, "/type", "session_meta") {
        return None;
    }
    if !lookup_present(line, "/payload") {
        return None;
    }
    let sid = if lookup_present(line, "/payload/session_id") {
        string_or_empty(lookup_str(line, "/payload/session_id"))
    } else {
        string_or_empty(lookup_str(line, "/payload/id"))
    };
    let model = string_or_empty(lookup_str(line, "/payload/model"));
    Some(FileMeta { session_id: sid, model })
}

/// A `turn_context` line: its `payload.model`.
pub open spec fn turn_model_spec(line: Seq<char>) -> Option<Seq<char>> {
    if str_at(line, "/type"@) != Some("turn_context"@) {
        None
    } else {
        str_at(line, "/payload/model"@)
    }
}

/// Reads the model of a `turn_context` line leniently.
pub fn parse_turn_model(line: &str) -> (res: Option<String>)
    ensures
        match turn_model_spec(line@) {
            Some(m) => res matches Some(r) && r@ == m,
            None => res is None,
        },
{
    if !type_is(line, "/type", "turn_context") {
        return None;
    }
    lookup_str(line, "/payload/model")
}

/// The values that a `token_count` line holds at the pointers that the import reads.
pub struct TokenFields {
    /// `/type`.
    pub kind: JsonScalar,
    /// `/payload/type`.
    pub payload_kind: JsonScalar,
    /// `/timestamp`.
    pub timestamp: JsonScalar,
    /// `/payload/info/last_token_usage` (only whether it is there matters).
    pub usage: JsonScalar,
    /// `/payload/info/last_token_usage/input_tokens`.
    pub input_tokens: JsonScalar,
    /// `/payload/info/last_token_usage/cached_input_tokens`.
    pub cached_input_tokens: JsonScalar,
    /// `/payload/info/last_token_usage/output_tokens`.
    pub output_tokens: JsonScalar,
    /// `/payload/info/last_token_usage/cache_write_input_tokens`.
    pub cache_write_input_tokens: JsonScalar,
}

/// The mathematical counterpart of [`TokenFields`].
pub struct TokenFieldsView {
    pub kind: JsonScalarView,
    pub payload_kind: JsonScalarView,
    pub timestamp: JsonScalarView,
    pub usage: JsonScalarView,
    pub input_tokens: JsonScalarView,
    pub cached_input_tokens: JsonScalarView,
    pub output_tokens: JsonScalarView,
    pub cache_write_input_tokens: JsonScalarView,
}

impl View for TokenFields {
    type V = TokenFieldsView;

    open spec fn view(&self) -> TokenFieldsView {
        TokenFieldsView {
            kind: self.kind@,
            payload_kind: self.payload_kind@,
            timestamp: self.timestamp@,
            usage: self.usage@,
            input_tokens: self.input_tokens@,
            cached_input_tokens: self.cached_input_tokens@,
            output_tokens: self.output_tokens@,
            cache_write_input_tokens: self.cache_write_input_tokens@,
        }
    }
}

/// What the line holds at each pointer of [`TokenFields`].
pub open spec fn token_fields_at(line: Seq<char>) -> TokenFieldsView {
    TokenFieldsView {
        kind: json_scalar_at(line, "/type"@),
        payload_kind: json_scalar_at(line, "/payload/type"@),
        timestamp: json_scalar_at(line, "/timestamp"@),
        usage: json_scalar_at(line, "/payload/info/last_token_usage"@),
        input_tokens: json_scalar_at(line, "/payload/info/last_token_usage/input_tokens"@),
        cached_input_tokens: json_scalar_at(
            line,
            "/payload/info/last_token_usage/cached_input_tokens"@,
        ),
        output_tokens: json_scalar_at(line, "/payload/info/last_token_usage/output_tokens"@),
        cache_write_input_tokens: json_scalar_at(
            line,
            "/payload/info/last_token_usage/cache_write_input_tokens"@,
        ),
    }
}

/// A `token_count` event: `type` is `event_msg`, `payload.type` is `token_count`,
/// and the timestamp is a string.
pub open spec fn token_head_ok_of(f: TokenFieldsView) -> bool {
    &&& f.kind.as_str() == Some("event_msg"@)
    &&& f.payload_kind.as_str() == Some("token_count"@)
    &&& f.timestamp.as_str() is Some
}

/// The one shape of `token_count` event whose conversion is refused: a timestamp
/// fraction too long to scale, or an `input_tokens - cached_input_tokens` that
/// leaves the `i64` range.
pub open spec fn token_refused_of(f: TokenFieldsView) -> bool {
    token_head_ok_of(f) && {
        let ts = encode_utf8(f.timestamp.as_str()->0);
        ||| fraction_too_long(ts)
        ||| (rfc3339_ms_spec(ts) is Some && f.usage.present() && !(i64::MIN
            <= f.input_tokens.int_or_zero() - f.cached_input_tokens.int_or_zero() <= i64::MAX))
    }
}

/// The usage row of a `token_count` event: `payload.info.last_token_usage` (the
/// increment, not the running total) at the event's timestamp. The cached tokens
/// are part of the input and are counted once: input is the uncached part
/// (`input_tokens - cached_input_tokens`, at least 0), `cache_read` the cached
/// part, `cache_creation` the written cache, output includes reasoning. An empty
/// session id falls back to `fallback_id`.
pub open spec fn token_row_of(
    f: TokenFieldsView,
    session_id: Seq<char>,
    model: Seq<char>,
    fallback_id: Seq<char>,
) -> Option<UsageEventView> {
    if !token_head_ok_of(f) {
        None
    } else {
        match rfc3339_ms_spec(encode_utf8(f.timestamp.as_str()->0)) {
            None => None,
            Some(ts) => if !f.usage.present() {
                None
            } else {
                let cached = f.cached_input_tokens.int_or_zero();
                let uncached = f.input_tokens.int_or_zero() - cached;
                Some(
                    UsageEventView {
                        ts: ts as i64,
                        session_id: if session_id.len() == 0 {
                            fallback_id
                        } else {
                            session_id
                        },
                        agent: Seq::empty(),
                        model,
                        input_tokens: if uncached < 0 {
                            0
                        } else {
                            uncached as i64
                        },
                        output_tokens: f.output_tokens.int_or_zero(),
                        cache_read: cached,
                        cache_creation: f.cache_write_input_tokens.int_or_zero(),
                    },
                )
            },
        }
    }
}

/// The line is a `token_count` event (see [`token_head_ok_of`]).
pub open spec fn token_head_ok(line: Seq<char>) -> bool {
    token_head_ok_of(token_fields_at(line))
}

/// The line's conversion is refused (see [`token_refused_of`]).
pub open spec fn token_line_refused(line: Seq<char>) -> bool {
    token_refused_of(token_fields_at(line))
}

/// The usage row of a `token_count` line (see [`token_row_of`]).
pub open spec fn token_row_spec(
    line: Seq<char>,
    session_id: Seq<char>,
    model: Seq<char>,
    fallback_id: Seq<char>,
) -> Option<UsageEventView> {
    token_row_of(token_fields_at(line), session_id, model, fallback_id)
}

/// Looks up the values of [`TokenFields`] in the line (through `serde_json`).
pub fn token_fields(line: &str) -> (res: TokenFields)
    ensures
        res@ == token_fields_at(line@),
{
    TokenFields {
        kind: json_lookup(line, "/type"),
        payload_kind: json_lookup(line, "/payload/type"),
        timestamp: json_lookup(line, "/timestamp"),
        usage: json_lookup(line, "/payload/info/last_token_usage"),
        input_tokens: json_lookup(line, "/payload/info/last_token_usage/input_tokens"),
        cached_input_tokens: json_lookup(
            line,
            "/payload/info/last_token_usage/cached_input_tokens",
        ),
        output_tokens: json_lookup(line, "/payload/info/last_token_usage/output_tokens"),
        cache_write_input_tokens: json_lookup(
            line,
            "/payload/info/last_token_usage/cache_write_input_tokens",
        ),
    }
}

/// Whether the conversion of a `token_count` event with these values is refused.
pub fn token_fields_refused(f: &TokenFields) -> (res: bool)
    ensures
        res == token_refused_of(f@),
{
    if !f.kind.is_str("event_msg") || !f.payload_kind.is_str("token_count") {
        return false;
    }
    let ts = match &f.timestamp {
        JsonScalar::Str(t) => t,
        _ => return false,
    };
    if timestamp_fraction_too_long(ts.as_str()) {
        return true;
    }
    match rfc3339_utc_to_ms(ts.as_str()) {
        None => false,
        Some(_) => {
            if !f.usage.is_present() {
                return false;
            }
            let wide = f.input_tokens.int_or_zero() as i128 - f.cached_input_tokens.int_or_zero() as i128;
            !(i64::MIN as i128 <= wide && wide <= i64::MAX as i128)
        },
    }
}

/// The usage row of a `token_count` event with these values (see [`token_row_of`]);
/// `None` for another event or a missing or malformed timestamp or usage.
pub fn token_row(f: &TokenFields, meta: &FileMeta, fallback_id: &str) -> (res: Option<UsageEventRow>)
    requires
        !token_refused_of(f@),
    ensures
        match token_row_of(f@, meta.session_id@, meta.model@, fallback_id@) {
            Some(r) => res matches Some(row) && row@ == r,
            None => res is None,
        },
{
    if !f.kind.is_str("event_msg") || !f.payload_kind.is_str("token_count") {
        return None;
    }
    let ts_text = match &f.timestamp {
        JsonScalar::Str(t) => t,
        _ => return None,
    };
    let ts = match rfc3339_utc_to_ms(ts_text.as_str()) {
        Some(t) => t,
        None => return None,
    };
    if !f.usage.is_present() {
        return None;
    }
    let cached = f.cached_input_tokens.int_or_zero();
    let input = f.input_tokens.int_or_zero();
    let uncached = input - cached;
    let session_id = if meta.session_id.as_str().is_empty() {
        owned(fallback_id)
    } else {
        meta.session_id.clone()
    };
    Some(
        UsageEventRow {
            ts,
            session_id,
            agent: String::new(),
            model: meta.model.clone(),
            input_tokens: if uncached < 0 { 0 } else { uncached },
            output_tokens: f.output_tokens.int_or_zero(),
            cache_read: cached,
            cache_creation: f.cache_write_input_tokens.int_or_zero(),
        },
    )
}

/// Whether a `token_count` line has the shape whose conversion is refused.
pub fn token_line_is_refused(line: &str) -> (res: bool)
    ensures
        res == token_line_refused(line@),
{
    token_fields_refused(&token_fields(line))
}

/// Reads a `token_count` event leniently; `None` for another line, a missing
/// timestamp or usage, or invalid JSON. An empty session id falls back to
/// `fallback_id` (the file name).
pub fn parse_token_line(line: &str, meta: &FileMeta, fallback_id: &str) -> (res: Option<
    UsageEventRow,
>)
    requires
        !token_line_refused(line@),
    ensures
        match token_row_spec(line@, meta.session_id@, meta.model@, fallback_id@) {
            Some(r) => res matches Some(row) && row@ == r,
            None => res is None,
        },
{
    token_row(&token_fields(line), meta, fallback_id)
}

/// What the import keeps while it walks the lines of a file.
pub struct RolloutState {
    pub rows: Seq<UsageEventView>,
    pub session_id: Seq<char>,
    pub model: Seq<char>,
}

/// One line of a rollout file: a `session_meta` line sets the session id and model
/// it names (non-empty ones only), a `turn_context` line sets the model (the model
/// can change between turns), a `token_count` line adds its usage row. Refused
/// lines (see [`token_line_refused`]) and all others are skipped.
pub open spec fn rollout_step(st: RolloutState, line: Seq<char>, fallback_id: Seq<char>) -> RolloutState {
    if has_type_spec(line, "session_meta"@) {
        match meta_line_spec(line) {
            Some((sid, model)) => RolloutState {
                rows: st.rows,
                session_id: if sid.len() > 0 {
                    sid
                } else {
                    st.session_id
                },
                model: if model.len() > 0 {
                    model
                } else {
                    st.model
                },
            },
            None => st,
        }
    } else if has_type_spec(line, "turn_context"@) {
        match turn_model_spec(line) {
            Some(m) => RolloutState { rows: st.rows, session_id: st.session_id, model: m },
            None => st,
        }
    } else if has_type_spec(line, "token_count"@) && !token_line_refused(line) {
        match token_row_spec(line, st.session_id, st.model, fallback_id) {
            Some(r) => RolloutState {
                rows: st.rows.push(r),
                session_id: st.session_id,
                model: st.model,
            },
            None => st,
        }
    } else {
        st
    }
}

/// The state after the given lines, in order.
pub open spec fn rollout_fold(lines: Seq<Seq<char>>, st: RolloutState, fallback_id: Seq<char>) -> RolloutState
    decreases lines.len(),
{
    if lines.len() == 0 {
        st
    } else {
        rollout_step(rollout_fold(lines.drop_last(), st, fallback_id), lines.last(), fallback_id)
    }
}

/// What one round imports from one rollout file.
pub struct RolloutImport {
    /// The usage rows, in file order.
    pub rows: Vec<UsageEventRow>,
    /// The session id and model after the last line (the model is stored so
    /// that the next round can resume with it).
    pub meta: FileMeta,
    /// Where the next round starts reading.
    pub new_offset: u64,
}

impl RolloutImport {
    /// The model to store for the file after this round: the last one seen, unless
    /// none is known (an empty model never overwrites a stored one).
    pub fn model_to_store(&self) -> (res: Option<&str>)
        ensures
            match res {
                Some(m) => m@ == self.meta.model@ && m@.len() > 0,
                None => self.meta.model@.len() == 0,
            },
    {
        let m = self.meta.model.as_str();
        if m.is_empty() {
            None
        } else {
            Some(m)
        }
    }
}

/// The import of the bytes `buf` read from `offset` of a rollout file: the whole
/// lines (up to the last `'\n'`; a partial last line waits for the next round),
/// decoded leniently as UTF-8, walked with [`rollout_step`] from `meta`. `None`
/// when `buf` holds no whole line.
pub fn sync_file(offset: u64, buf: &[u8], meta: FileMeta, fallback_id: &str) -> (res: Option<
    RolloutImport,
>)
    requires
        offset + buf@.len() <= u64::MAX,
    ensures
        match last_newline(buf@) {
            None => res is None,
            Some(i) => res matches Some(imp) && {
                let fin = rollout_fold(
                    lines_of(utf8_lossy(buf@.subrange(0, i + 1))),
                    RolloutState { rows: Seq::empty(), session_id: meta.session_id@, model: meta.model@ },
                    fallback_id@,
                );
                &&& imp.new_offset == offset + i + 1
                &&& imp.rows@.map_values(|r: UsageEventRow| r@) == fin.rows
                &&& imp.meta.session_id@ == fin.session_id
                &&& imp.meta.model@ == fin.model
            },
        },
{
    let k = match complete_len(buf) {
        Some(k) => k,
        None => return None,
    };
    let whole = vstd::slice::slice_subrange(buf, 0, k);
    assert(whole@ == buf@.subrange(0, k as int));
    let text = decode_lossy(whole);
    let chars = chars_of(text.as_str());
    let lines = split_lines(chars.as_slice());
    let ghost all = lines_of(utf8_lossy(buf@.subrange(0, k as int)));
    let ghost st0 = RolloutState { rows: Seq::empty(), session_id: meta.session_id@, model: meta.model@ };
    let mut rows: Vec<UsageEventRow> = Vec::new();
    let ghost meta0 = meta;
    let mut cur = meta;
    let mut i: usize = 0;
    while i < lines.len()
        invariant
            last_newline(buf@) == Some(k as int - 1),
            1 <= k <= buf@.len(),
            offset + buf@.len() <= u64::MAX,
            all == lines_of(utf8_lossy(buf@.subrange(0, k as int))),
            st0 == (RolloutState { rows: Seq::empty(), session_id: meta0.session_id@, model: meta0.model@ }),
            meta0 == meta,
            lines@.len() == all.len(),
            forall|j: int| 0 <= j < lines@.len() ==> #[trigger] lines@[j]@ == all[j],
            0 <= i <= lines@.len(),
            ({
                let st = rollout_fold(all.take(i as int), st0, fallback_id@);
                &&& rows@.map_values(|r: UsageEventRow| r@) == st.rows
                &&& cur.session_id@ == st.session_id
                &&& cur.model@ == st.model
            }),
        decreases lines@.len() - i,
    {
        let line = string_from_chars(lines[i].as_slice());
        let l = line.as_str();
        let ghost prev = rollout_fold(all.take(i as int), st0, fallback_id@);
        assert(all.take(i + 1).drop_last() =~= all.take(i as int));
        assert(all.take(i + 1).last() == all[i as int]);
        let ghost before = rows@;
        if has_type(l, "session_meta") {
            match parse_meta_line(l) {
                Some(m) => {
                    if !m.session_id.as_str().is_empty() {
                        cur.session_id = m.session_id;
                    }
                    if !m.model.as_str().is_empty() {
                        cur.model = m.model;
                    }
                },
                None => {},
            }
        } else if has_type(l, "turn_context") {
            match parse_turn_model(l) {
                Some(m) => {
                    cur.model = m;
                },
                None => {},
            }
        } else if has_type(l, "token_count") {
            let f = token_fields(l);
            let refused = token_fields_refused(&f);
            let row = if refused { None } else { token_row(&f, &cur, fallback_id) };
            match row {
                Some(r) => {
                    rows.push(r);
                    assert(rows@.map_values(|r: UsageEventRow| r@) =~= before.map_values(
                        |r: UsageEventRow| r@,
                    ).push(r@));
                },
                None => {},
            }
        }
        i += 1;
    }
    assert(all.take(lines@.len() as int) =~= all);
    assert(k as int - 1 == last_newline(buf@)->0);
    let new_offset = advance_offset(offset, k);
    Some(RolloutImport { rows, meta: cur, new_offset })
}

/// The file name without its extension: the session id when the file names none.
pub fn fallback_session_id(file_stem: Option<&str>) -> (res: String)
    ensures
        res@ == match file_stem {
            Some(s) => s@,
            None => Seq::<char>::empty(),
        },
{
    match file_stem {
        Some(s) => owned(s),
        None => String::new(),
    }
}

/// The meta key of a file: its source's prefix and its path.
pub fn meta_key(prefix: &str, path: &str) -> (res: String)
    ensures
        res@ == prefix@ + path@,
{
    concat2(prefix, path)
}

/// The error shown when the Windows Codex data directory is missing.
pub const NO_CODEX_DIR: &'static str = "未找到 Codex 数据目录（Codex 未安装或尚未使用过）";

/// The Windows-side status after a round. `root` is the data directory when it
/// exists, `error` the last file error of the scan, `total` the table's row count
/// when it could be read (else the previous count stays).
pub fn sync_windows(
    prev: CodexStatus,
    root: Option<String>,
    error: Option<String>,
    now_ms: i64,
    total: Option<i64>,
) -> (res: CodexStatus)
    ensures
        res.dir_found == root is Some,
        opt_view(res.dir) == opt_view(root),
        res.last_sync_at_ms == if root is Some {
            Some(now_ms)
        } else {
            prev.last_sync_at_ms
        },
        opt_view(res.last_error) == if root is Some {
            opt_view(error)
        } else {
            Some(NO_CODEX_DIR@)
        },
        res.total_records == match total {
            Some(t) => t,
            None => prev.total_records,
        },
{
    let found = root.is_some();
    let last_error = if found { error } else { Some(owned(NO_CODEX_DIR)) };
    CodexStatus {
        dir_found: found,
        dir: root,
        total_records: match total {
            Some(t) => t,
            None => prev.total_records,
        },
        last_sync_at_ms: if found { Some(now_ms) } else { prev.last_sync_at_ms },
        last_error,
    }
}

/// The WSL-side status after a round. `roots` are the data directories found (one
/// per distribution at most), `enum_error` the error of listing the distributions,
/// `scan_errors` the last file error of each root. A missing directory is no error.
pub fn sync_wsl(
    prev: CodexStatus,
    roots: &Vec<String>,
    enum_error: Option<String>,
    scan_errors: Vec<Option<String>>,
    now_ms: i64,
    total: Option<i64>,
) -> (res: CodexStatus)
    ensures
        res.dir_found == (roots@.len() > 0),
        opt_view(res.dir) == if roots@.len() > 0 {
            Some(join_spec(roots@.map_values(|p: String| p@), ", "@))
        } else {
            None
        },
        res.last_sync_at_ms == if roots@.len() > 0 {
            Some(now_ms)
        } else {
            prev.last_sync_at_ms
        },
        opt_view(res.last_error) == if enum_error is Some {
            opt_view(enum_error)
        } else {
            last_some(scan_errors@.map_values(|e: Option<String>| opt_view(e)))
        },
        res.total_records == match total {
            Some(t) => t,
            None => prev.total_records,
        },
{
    let found = roots.len() > 0;
    let scan_error = last_error(scan_errors);
    let last_error = match enum_error {
        Some(e) => Some(e),
        None => scan_error,
    };
    CodexStatus {
        dir_found: found,
        dir: if found { Some(join(roots, ", ")) } else { None },
        total_records: match total {
            Some(t) => t,
            None => prev.total_records,
        },
        last_sync_at_ms: if found { Some(now_ms) } else { prev.last_sync_at_ms },
        last_error,
    }
}

proof fn lemma_rollout_fold_concat(x: Seq<Seq<char>>, y: Seq<Seq<char>>, st: RolloutState, fallback_id: Seq<char>)
    ensures
        rollout_fold(x + y, st, fallback_id) == rollout_fold(y, rollout_fold(x, st, fallback_id), fallback_id),
    decreases y.len(),
{
    if y.len() == 0 {
        assert(x + y =~= x);
    } else {
        assert((x + y).drop_last() =~= x + y.drop_last());
        assert((x + y).last() == y.last());
        lemma_rollout_fold_concat(x, y.drop_last(), st, fallback_id);
    }
}

/// Law: importing a rollout file in two rounds, the first ending after a whole
/// line and the second resuming with the session id and model that the first
/// ended with, gives the same rows, session id and model as importing it at once.
pub proof fn law_rollout_import_in_pieces(a: Seq<char>, b: Seq<char>, st: RolloutState, fallback_id: Seq<char>)
    requires
        a.len() > 0,
        a.last() == '\n',
    ensures
        ({
            let first = rollout_fold(lines_of(a), st, fallback_id);
            let second = rollout_fold(
                lines_of(b),
                RolloutState { rows: Seq::empty(), session_id: first.session_id, model: first.model },
                fallback_id,
            );
            let whole = rollout_fold(lines_of(a + b), st, fallback_id);
            &&& whole.rows == first.rows + second.rows
            &&& whole.session_id == second.session_id
            &&& whole.model == second.model
        }),
{
    law_lines_concat(a, b);
    lemma_rollout_fold_concat(lines_of(a), lines_of(b), st, fallback_id);
    let first = rollout_fold(lines_of(a), st, fallback_id);
    lemma_rollout_rows_shift(
        lines_of(b),
        first,
        RolloutState { rows: Seq::empty(), session_id: first.session_id, model: first.model },
        fallback_id,
    );
}

/// Walking lines from two states that differ only in the rows collected so far
/// adds the same rows and ends with the same session id and model.
proof fn lemma_rollout_rows_shift(lines: Seq<Seq<char>>, s1: RolloutState, s2: RolloutState, fallback_id: Seq<char>)
    requires
        s1.session_id == s2.session_id,
        s1.model == s2.model,
        s2.rows.len() == 0,
    ensures
        rollout_fold(lines, s1, fallback_id).rows == s1.rows + rollout_fold(lines, s2, fallback_id).rows,
        rollout_fold(lines, s1, fallback_id).session_id == rollout_fold(lines, s2, fallback_id).session_id,
        rollout_fold(lines, s1, fallback_id).model == rollout_fold(lines, s2, fallback_id).model,
    decreases lines.len(),
{
    if lines.len() == 0 {
        assert(s1.rows + s2.rows =~= s1.rows);
    } else {
        lemma_rollout_rows_shift(lines.drop_last(), s1, s2, fallback_id);
        let p1 = rollout_fold(lines.drop_last(), s1, fallback_id);
        let p2 = rollout_fold(lines.drop_last(), s2, fallback_id);
        let l = lines.last();
        if has_type_spec(l, "session_meta"@) {
        } else if has_type_spec(l, "turn_context"@) {
        } else if has_type_spec(l, "token_count"@) && !token_line_refused(l) {
            match token_row_spec(l, p2.session_id, p2.model, fallback_id) {
                Some(r) => {
                    assert(p1.rows.push(r) =~= s1.rows + p2.rows.push(r));
                },
                None => {},
            }
        }
    }
}

/// The first line of a text, or the empty text.
pub open spec fn first_line(s: Seq<char>) -> Seq<char> {
    if lines_of(s).len() == 0 {
        Seq::empty()
    } else {
        lines_of(s)[0]
    }
}

/// The session id and model with which a file is read on from a non-zero offset
/// (its `session_meta` line was consumed in an earlier round): the session id from
/// the file's first line (the `session_meta` line, read in `first_chunk`), the model
/// from it too or, when it names none, the model stored for the file.
pub fn resume_meta(first_chunk: &[u8], stored_model: Option<String>) -> (res: FileMeta)
    ensures
        ({
            let m = meta_line_spec(first_line(utf8_lossy(first_chunk@)));
            let sid = match m {
                Some((sid, _)) => sid,
                None => Seq::empty(),
            };
            let model = match m {
                Some((_, model)) => model,
                None => Seq::empty(),
            };
            &&& res.session_id@ == sid
            &&& res.model@ == if model.len() > 0 {
                model
            } else {
                or_empty(opt_view(stored_model))
            }
        }),
{
    let text = decode_lossy(first_chunk);
    let chars = chars_of(text.as_str());
    let lines = split_lines(chars.as_slice());
    let first = if lines.len() > 0 { string_from_chars(lines[0].as_slice()) } else { String::new() };
    let mut m = match parse_meta_line(first.as_str()) {
        Some(m) => m,
        None => FileMeta::new(),
    };
    if m.model.as_str().is_empty() {
        m.model = match stored_model {
            Some(s) => s,
            None => String::new(),
        };
    }
    m
}

/// The most bytes read from the start of a file while looking for the end of its
/// first line (a `session_meta` line can run to tens of kilobytes).
pub const FIRST_LINE_READ_LIMIT: usize = 4 * 1024 * 1024;

/// Whether reading the first line of a file goes on after a read that returned
/// `chunk`, with `total` bytes read so far (`chunk` included): not after the end
/// of the file (an empty read), nor once a newline was read, nor past the limit.
pub fn first_line_read_more(total: usize, chunk: &[u8]) -> (res: bool)
    ensures
        res == (chunk@.len() > 0 && !chunk@.contains(10u8) && total <= FIRST_LINE_READ_LIMIT),
{
    if chunk.len() == 0 {
        return false;
    }
    let mut i: usize = 0;
    while i < chunk.len()
        invariant
            0 <= i <= chunk@.len(),
            forall|j: int| 0 <= j < i ==> chunk@[j] != 10u8,
        decreases chunk@.len() - i,
    {
        if chunk[i] == 10u8 {
            assert(chunk@.contains(10u8)) by {
                assert(chunk@[i as int] == 10u8);
            }
            return false;
        }
        i += 1;
    }
    total <= FIRST_LINE_READ_LIMIT
}

/// How long the list of distributions is reused between rounds.
pub const DISTRO_CACHE_TTL_MS: u64 = 60_000;

/// Whether a cached list of distributions (or its error) is still fresh.
pub fn distro_cache_fresh(age_ms: u64) -> (res: bool)
    ensures
        res == (age_ms < DISTRO_CACHE_TTL_MS),
{
    age_ms < DISTRO_CACHE_TTL_MS
}

} // verus!
