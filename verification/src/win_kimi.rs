//! The Windows Kimi Code desktop application's `wire.jsonl` session files: their
//! `usage.record` lines, the per-file incremental import and the round's status.
use vstd::prelude::*;
use crate::incremental::{advance_offset, complete_len, decode_lossy, last_newline, utf8_lossy};
use crate::json::{json_lookup, json_scalar_at, JsonScalar, JsonScalarView};
use crate::jsonl::{has_type, has_type_spec};
use crate::models::{UsageEventRow, UsageEventView, WinKimiStatus};
use crate::strings::{opt_view, owned, str_equals};
use crate::text::{chars_of, law_lines_concat, lines_of, split_lines, string_from_chars};

verus! {

/// Meta key prefix of the per-file byte offsets.
pub const OFFSET_KEY_PREFIX: &'static str = "win_kimi_off:";
/// Meta key of the parser version that the stored offsets were made with.
pub const PARSER_VERSION_KEY: &'static str = "win_kimi_parser_v";
/// The version of the `wire.jsonl` parsing rules.
pub const PARSER_VERSION: &'static str = "1";
/// The error shown when the desktop application's data directory is missing.
pub const NO_DATA_DIR: &'static str = "未找到 Kimi Code 桌面端数据目录（Kimi Code 桌面端未安装或尚未使用过）";

/// The initial status.
pub fn new_shared_status() -> (res: WinKimiStatus)
    ensures
        !res.dir_found,
        res.dir is None,
        res.total_records == 0,
        res.last_sync_at_ms is None,
        res.last_error is None,
{
    WinKimiStatus::default()
}

/// Whether the stored offsets were made by another parser version.
pub fn needs_offset_migration(stored_version: Option<&str>) -> (res: bool)
    ensures
        res == !(stored_version matches Some(v) && v@ == PARSER_VERSION@),
{
    match stored_version {
        Some(v) => !str_equals(v, PARSER_VERSION),
        None => true,
    }
}

/// The values that a `usage.record` line holds at the keys that the import reads.
pub struct WireFields {
    /// `/type`.
    pub kind: JsonScalar,
    /// `/time`.
    pub time: JsonScalar,
    /// `/usage` (only whether it is there matters).
    pub usage: JsonScalar,
    /// `/sessionId`.
    pub session_id: JsonScalar,
    /// `/model`.
    pub model: JsonScalar,
    /// `/usage/inputOther`.
    pub input_other: JsonScalar,
    /// `/usage/output`.
    pub output: JsonScalar,
    /// `/usage/inputCacheRead`.
    pub input_cache_read: JsonScalar,
    /// `/usage/inputCacheCreation`.
    pub input_cache_creation: JsonScalar,
}

/// The mathematical counterpart of [`WireFields`].
pub struct WireFieldsView {
    pub kind: JsonScalarView,
    pub time: JsonScalarView,
    pub usage: JsonScalarView,
    pub session_id: JsonScalarView,
    pub model: JsonScalarView,
    pub input_other: JsonScalarView,
    pub output: JsonScalarView,
    pub input_cache_read: JsonScalarView,
    pub input_cache_creation: JsonScalarView,
}

impl View for WireFields {
    type V = WireFieldsView;

    open spec fn view(&self) -> WireFieldsView {
        WireFieldsView {
            kind: self.kind@,
            time: self.time@,
            usage: self.usage@,
            session_id: self.session_id@,
            model: self.model@,
            input_other: self.input_other@,
            output: self.output@,
            input_cache_read: self.input_cache_read@,
            input_cache_creation: self.input_cache_creation@,
        }
    }
}

/// What the line holds at each key of [`WireFields`].
pub open spec fn wire_fields_at(line: Seq<char>) -> WireFieldsView {
    WireFieldsView {
        kind: json_scalar_at(line, "/type"@),
        time: json_scalar_at(line, "/time"@),
        usage: json_scalar_at(line, "/usage"@),
        session_id: json_scalar_at(line, "/sessionId"@),
        model: json_scalar_at(line, "/model"@),
        input_other: json_scalar_at(line, "/usage/inputOther"@),
        output: json_scalar_at(line, "/usage/output"@),
        input_cache_read: json_scalar_at(line, "/usage/inputCacheRead"@),
        input_cache_creation: json_scalar_at(line, "/usage/inputCacheCreation"@),
    }
}

/// A `usage.record` event: a row when `time` is an integer and `usage` is there.
/// The session id is `sessionId` unless that is no string or empty, then
/// `fallback_id`; the four counts come from `usage.inputOther`, `usage.output`,
/// `usage.inputCacheRead` and `usage.inputCacheCreation` (0 when no integer).
pub open spec fn usage_row_of(f: WireFieldsView, fallback_id: Seq<char>) -> Option<UsageEventView> {
    if f.kind.as_str() != Some("usage.record"@) {
        None
    } else {
        match f.time.as_i64() {
            None => None,
            Some(ts) => if !f.usage.present() {
                None
            } else {
                Some(
                    UsageEventView {
                        ts,
                        session_id: if f.session_id.str_or_empty().len() > 0 {
                            f.session_id.str_or_empty()
                        } else {
                            fallback_id
                        },
                        agent: Seq::empty(),
                        model: f.model.str_or_empty(),
                        input_tokens: f.input_other.int_or_zero(),
                        output_tokens: f.output.int_or_zero(),
                        cache_read: f.input_cache_read.int_or_zero(),
                        cache_creation: f.input_cache_creation.int_or_zero(),
                    },
                )
            },
        }
    }
}

/// A `usage.record` line (see [`usage_row_of`]).
pub open spec fn usage_row_spec(line: Seq<char>, fallback_id: Seq<char>) -> Option<UsageEventView> {
    usage_row_of(wire_fields_at(line), fallback_id)
}

/// Looks up the values of [`WireFields`] in the line (through `serde_json`).
pub fn wire_fields(line: &str) -> (res: WireFields)
    ensures
        res@ == wire_fields_at(line@),
{
    WireFields {
        kind: json_lookup(line, "/type"),
        time: json_lookup(line, "/time"),
        usage: json_lookup(line, "/usage"),
        session_id: json_lookup(line, "/sessionId"),
        model: json_lookup(line, "/model"),
        input_other: json_lookup(line, "/usage/inputOther"),
        output: json_lookup(line, "/usage/output"),
        input_cache_read: json_lookup(line, "/usage/inputCacheRead"),
        input_cache_creation: json_lookup(line, "/usage/inputCacheCreation"),
    }
}

/// The row of a `usage.record` event with these values (see [`usage_row_of`]).
pub fn usage_row(f: &WireFields, fallback_id: &str) -> (res: Option<UsageEventRow>)
    ensures
        match usage_row_of(f@, fallback_id@) {
            Some(r) => res matches Some(row) && row@ == r,
            None => res is None,
        },
{
    if !f.kind.is_str("usage.record") {
        return None;
    }
    let ts = match f.time.as_i64_value() {
        Some(t) => t,
        None => return None,
    };
    if !f.usage.is_present() {
        return None;
    }
    let sid = f.session_id.str_or_empty();
    let session_id = if sid.as_str().is_empty() {
        owned(fallback_id)
    } else {
        sid
    };
    Some(
        UsageEventRow {
            ts,
            session_id,
            agent: String::new(),
            model: f.model.str_or_empty(),
            input_tokens: f.input_other.int_or_zero(),
            output_tokens: f.output.int_or_zero(),
            cache_read: f.input_cache_read.int_or_zero(),
            cache_creation: f.input_cache_creation.int_or_zero(),
        },
    )
}

/// Reads a `usage.record` line leniently.
pub fn parse_usage_line(line: &str, fallback_id: &str) -> (res: Option<UsageEventRow>)
    ensures
        match usage_row_spec(line@, fallback_id@) {
            Some(r) => res matches Some(row) && row@ == r,
            None => res is None,
        },
{
    usage_row(&wire_fields(line), fallback_id)
}

/// The rows of the given lines, in order: lines that carry the `usage.record`
/// type and read as a row.
pub open spec fn wire_rows(lines: Seq<Seq<char>>, fallback_id: Seq<char>) -> Seq<UsageEventView>
    decreases lines.len(),
{
    if lines.len() == 0 {
        Seq::empty()
    } else {
        let prev = wire_rows(lines.drop_last(), fallback_id);
        if has_type_spec(lines.last(), "usage.record"@) {
            match usage_row_spec(lines.last(), fallback_id) {
                Some(r) => prev.push(r),
                None => prev,
            }
        } else {
            prev
        }
    }
}

/// What one round imports from one `wire.jsonl` file.
pub struct WireImport {
    pub rows: Vec<UsageEventRow>,
    /// Where the next round starts reading.
    pub new_offset: u64,
}

/// The import of the bytes `buf` read from `offset` of a `wire.jsonl` file; a
/// partial last line waits for the next round (skipping it would lose its record).
/// `None` when `buf` holds no whole line.
pub fn sync_file(offset: u64, buf: &[u8], fallback_id: &str) -> (res: Option<WireImport>)
    requires
        offset + buf@.len() <= u64::MAX,
    ensures
        match last_newline(buf@) {
            None => res is None,
            Some(i) => res matches Some(imp) && imp.new_offset == offset + i + 1
                && imp.rows@.map_values(|r: UsageEventRow| r@) == wire_rows(
                lines_of(utf8_lossy(buf@.subrange(0, i + 1))),
                fallback_id@,
            ),
        },
{
    let k = match complete_len(buf) {
        Some(k) => k,
        None => return None,
    };
    let whole = vstd::slice::slice_subrange(buf, 0, k);
    assert(whole@ == buf@.subrange(0, k as int));
    let text = decode_lossy(whole);
    let chars = chars_of(text.as_str());
    let lines = split_lines(chars.as_slice());
    let ghost all = lines_of(utf8_lossy(buf@.subrange(0, k as int)));
    let mut rows: Vec<UsageEventRow> = Vec::new();
    let mut i: usize = 0;
    while i < lines.len()
        invariant
            last_newline(buf@) == Some(k as int - 1),
            1 <= k <= buf@.len(),
            offset + buf@.len() <= u64::MAX,
            all == lines_of(utf8_lossy(buf@.subrange(0, k as int))),
            lines@.len() == all.len(),
            forall|j: int| 0 <= j < lines@.len() ==> #[trigger] lines@[j]@ == all[j],
            0 <= i <= lines@.len(),
            rows@.map_values(|r: UsageEventRow| r@) == wire_rows(all.take(i as int), fallback_id@),
        decreases lines@.len() - i,
    {
        let line = string_from_chars(lines[i].as_slice());
        assert(all.take(i + 1).drop_last() =~= all.take(i as int));
        assert(all.take(i + 1).last() == all[i as int]);
        let ghost before = rows@;
        if has_type(line.as_str(), "usage.record") {
            match parse_usage_line(line.as_str(), fallback_id) {
                Some(r) => {
                    rows.push(r);
                    assert(rows@.map_values(|r: UsageEventRow| r@) =~= before.map_values(
                        |r: UsageEventRow| r@,
                    ).push(r@));
                },
                None => {},
            }
        }
        i += 1;
    }
    assert(all.take(lines@.len() as int) =~= all);
    let new_offset = advance_offset(offset, k);
    Some(WireImport { rows, new_offset })
}

/// The status after a round: `root` is the data directory when it exists, `error`
/// the last file error, `total` the table's row count when it could be read.
pub fn sync_round(
    prev: WinKimiStatus,
    root: Option<String>,
    error: Option<String>,
    now_ms: i64,
    total: Option<i64>,
) -> (res: WinKimiStatus)
    ensures
        res.dir_found == root is Some,
        opt_view(res.dir) == opt_view(root),
        res.last_sync_at_ms == if root is Some {
            Some(now_ms)
        } else {
            prev.last_sync_at_ms
        },
        opt_view(res.last_error) == if root is Some {
            opt_view(error)
        } else {
            Some(NO_DATA_DIR@)
        },
        res.total_records == match total {
            Some(t) => t,
            None => prev.total_records,
        },
{
    let found = root.is_some();
    let last_error = if found { error } else { Some(owned(NO_DATA_DIR)) };
    WinKimiStatus {
        dir_found: found,
        dir: root,
        total_records: match total {
            Some(t) => t,
            None => prev.total_records,
        },
        last_sync_at_ms: if found { Some(now_ms) } else { prev.last_sync_at_ms },
        last_error,
    }
}

proof fn lemma_wire_rows_concat(x: Seq<Seq<char>>, y: Seq<Seq<char>>, fallback_id: Seq<char>)
    ensures
        wire_rows(x + y, fallback_id) == wire_rows(x, fallback_id) + wire_rows(y, fallback_id),
    decreases y.len(),
{
    if y.len() == 0 {
        assert(x + y =~= x);
        assert(wire_rows(x, fallback_id) + wire_rows(y, fallback_id) =~= wire_rows(x, fallback_id));
    } else {
        assert((x + y).drop_last() =~= x + y.drop_last());
        assert((x + y).last() == y.last());
        lemma_wire_rows_concat(x, y.drop_last(), fallback_id);
        if has_type_spec(y.last(), "usage.record"@) {
            match usage_row_spec(y.last(), fallback_id) {
                Some(r) => {
                    assert(wire_rows(x, fallback_id) + wire_rows(y, fallback_id) =~= (wire_rows(x, fallback_id)
                        + wire_rows(y.drop_last(), fallback_id)).push(r));
                },
                None => {},
            }
        }
    }
}

/// Law: importing a `wire.jsonl` file in two rounds, the first ending after a whole
/// line, gives the same rows as importing it at once.
pub proof fn law_wire_import_in_pieces(a: Seq<char>, b: Seq<char>, fallback_id: Seq<char>)
    requires
        a.len() > 0,
        a.last() == '\n',
    ensures
        wire_rows(lines_of(a + b), fallback_id) == wire_rows(lines_of(a), fallback_id) + wire_rows(
            lines_of(b),
            fallback_id,
        ),
{
    law_lines_concat(a, b);
    lemma_wire_rows_concat(lines_of(a), lines_of(b), fallback_id);
}

} // verus!
