//! The token ledger (`~/.kimi-code/token-ledger.jsonl` in WSL): its lines, the
//! incremental import of one distribution's ledger and the round over all of them.
use vstd::prelude::*;
use crate::incremental::{advance_offset, complete_len, decode_lossy, last_newline, utf8_lossy};
use crate::json::{json_lookup, json_scalar_at, JsonScalar, JsonScalarView};
use crate::models::{LedgerStatus, UsageEventRow, UsageEventView};
use crate::strings::{concat, concat_spec, opt_view, owned};
use crate::text::{chars_of, law_lines_concat, lines_of, split_lines, string_from_chars};
use crate::wsl::{backslashed, unc_home_candidates};

verus! {

/// Meta key of the ledger's byte offset.
pub const META_LEDGER_OFFSET: &'static str = "ledger_offset";
/// The loopback port on which a hook asks for an immediate round.
pub const SYNC_TRIGGER_PORT: u16 = 51999;
/// The error of a round when there is no distribution at all.
pub const NO_DISTRO: &'static str = "没有可用的 WSL 发行版";
/// The reply to a trigger connection.
pub const TRIGGER_REPLY: &'static str = "HTTP/1.1 200 OK\r\nContent-Length: 0\r\n\r\n";

/// The initial status.
pub fn new_shared_status() -> (res: LedgerStatus)
    ensures
        res.total_records == 0,
        res.last_sync_at_ms is None,
        res.last_error is None,
{
    LedgerStatus::default()
}

/// The values that a ledger line holds at the keys that the import reads.
pub struct LedgerFields {
    pub ts: JsonScalar,
    pub session_id: JsonScalar,
    pub agent: JsonScalar,
    pub model: JsonScalar,
    pub input: JsonScalar,
    pub output: JsonScalar,
    pub cache_read: JsonScalar,
    pub cache_creation: JsonScalar,
}

/// The mathematical counterpart of [`LedgerFields`].
pub struct LedgerFieldsView {
    pub ts: JsonScalarView,
    pub session_id: JsonScalarView,
    pub agent: JsonScalarView,
    pub model: JsonScalarView,
    pub input: JsonScalarView,
    pub output: JsonScalarView,
    pub cache_read: JsonScalarView,
    pub cache_creation: JsonScalarView,
}

impl View for LedgerFields {
    type V = LedgerFieldsView;

    open spec fn view(&self) -> LedgerFieldsView {
        LedgerFieldsView {
            ts: self.ts@,
            session_id: self.session_id@,
            agent: self.agent@,
            model: self.model@,
            input: self.input@,
            output: self.output@,
            cache_read: self.cache_read@,
            cache_creation: self.cache_creation@,
        }
    }
}

/// What the line holds at each key of [`LedgerFields`].
pub open spec fn ledger_fields_at(line: Seq<char>) -> LedgerFieldsView {
    LedgerFieldsView {
        ts: json_scalar_at(line, "/ts"@),
        session_id: json_scalar_at(line, "/session_id"@),
        agent: json_scalar_at(line, "/agent"@),
        model: json_scalar_at(line, "/model"@),
        input: json_scalar_at(line, "/input"@),
        output: json_scalar_at(line, "/output"@),
        cache_read: json_scalar_at(line, "/cache_read"@),
        cache_creation: json_scalar_at(line, "/cache_creation"@),
    }
}

/// A ledger entry: a row when `ts` is an integer; text fields that are no strings
/// are empty and numbers that are no integers 0.
pub open spec fn ledger_row_of(f: LedgerFieldsView) -> Option<UsageEventView> {
    match f.ts.as_i64() {
        None => None,
        Some(ts) => Some(
            UsageEventView {
                ts,
                session_id: f.session_id.str_or_empty(),
                agent: f.agent.str_or_empty(),
                model: f.model.str_or_empty(),
                input_tokens: f.input.int_or_zero(),
                output_tokens: f.output.int_or_zero(),
                cache_read: f.cache_read.int_or_zero(),
                cache_creation: f.cache_creation.int_or_zero(),
            },
        ),
    }
}

/// A ledger line (see [`ledger_row_of`]).
pub open spec fn ledger_row_spec(line: Seq<char>) -> Option<UsageEventView> {
    ledger_row_of(ledger_fields_at(line))
}

/// Looks up the values of [`LedgerFields`] in the line (through `serde_json`).
pub fn ledger_fields(line: &str) -> (res: LedgerFields)
    ensures
        res@ == ledger_fields_at(line@),
{
    LedgerFields {
        ts: json_lookup(line, "/ts"),
        session_id: json_lookup(line, "/session_id"),
        agent: json_lookup(line, "/agent"),
        model: json_lookup(line, "/model"),
        input: json_lookup(line, "/input"),
        output: json_lookup(line, "/output"),
        cache_read: json_lookup(line, "/cache_read"),
        cache_creation: json_lookup(line, "/cache_creation"),
    }
}

/// The row of a ledger entry with these values (see [`ledger_row_of`]).
pub fn ledger_row(f: &LedgerFields) -> (res: Option<UsageEventRow>)
    ensures
        match ledger_row_of(f@) {
            Some(r) => res matches Some(row) && row@ == r,
            None => res is None,
        },
{
    let ts = match f.ts.as_i64_value() {
        Some(t) => t,
        None => return None,
    };
    Some(
        UsageEventRow {
            ts,
            session_id: f.session_id.str_or_empty(),
            agent: f.agent.str_or_empty(),
            model: f.model.str_or_empty(),
            input_tokens: f.input.int_or_zero(),
            output_tokens: f.output.int_or_zero(),
            cache_read: f.cache_read.int_or_zero(),
            cache_creation: f.cache_creation.int_or_zero(),
        },
    )
}

/// Reads one ledger line leniently: `None` without an integer `ts` or for invalid JSON.
pub fn parse_line(line: &str) -> (res: Option<UsageEventRow>)
    ensures
        match ledger_row_spec(line@) {
            Some(r) => res matches Some(row) && row@ == r,
            None => res is None,
        },
{
    ledger_row(&ledger_fields(line))
}

/// The rows of the given lines, in order, skipping lines that are not rows.
pub open spec fn ledger_rows(lines: Seq<Seq<char>>) -> Seq<UsageEventView>
    decreases lines.len(),
{
    if lines.len() == 0 {
        Seq::empty()
    } else {
        match ledger_row_spec(lines.last()) {
            Some(r) => ledger_rows(lines.drop_last()).push(r),
            None => ledger_rows(lines.drop_last()),
        }
    }
}

/// What one round imports from the ledger.
pub struct LedgerImport {
    pub rows: Vec<UsageEventRow>,
    /// Where the next round starts reading.
    pub new_offset: u64,
}

/// The import of the bytes `buf` read from `offset` of the ledger: the rows of its
/// whole lines (a partial last line waits for the next round); `None` when `buf`
/// holds no whole line.
pub fn sync_distro(offset: u64, buf: &[u8]) -> (res: Option<LedgerImport>)
    requires
        offset + buf@.len() <= u64::MAX,
    ensures
        match last_newline(buf@) {
            None => res is None,
            Some(i) => res matches Some(imp) && imp.new_offset == offset + i + 1
                && imp.rows@.map_values(|r: UsageEventRow| r@) == ledger_rows(
                lines_of(utf8_lossy(buf@.subrange(0, i + 1))),
            ),
        },
{
    let k = match complete_len(buf) {
        Some(k) => k,
        None => return None,
    };
    let whole = vstd::slice::slice_subrange(buf, 0, k);
    assert(whole@ == buf@.subrange(0, k as int));
    let text = decode_lossy(whole);
    let chars = chars_of(text.as_str());
    let lines = split_lines(chars.as_slice());
    let ghost all = lines_of(utf8_lossy(buf@.subrange(0, k as int)));
    let mut rows: Vec<UsageEventRow> = Vec::new();
    let mut i: usize = 0;
    while i < lines.len()
        invariant
            last_newline(buf@) == Some(k as int - 1),
            1 <= k <= buf@.len(),
            offset + buf@.len() <= u64::MAX,
            all == lines_of(utf8_lossy(buf@.subrange(0, k as int))),
            lines@.len() == all.len(),
            forall|j: int| 0 <= j < lines@.len() ==> #[trigger] lines@[j]@ == all[j],
            0 <= i <= lines@.len(),
            rows@.map_values(|r: UsageEventRow| r@) == ledger_rows(all.take(i as int)),
        decreases lines@.len() - i,
    {
        let line = string_from_chars(lines[i].as_slice());
        assert(all.take(i + 1).drop_last() =~= all.take(i as int));
        assert(all.take(i + 1).last() == all[i as int]);
        let ghost before = rows@;
        match parse_line(line.as_str()) {
            Some(r) => {
                rows.push(r);
                assert(rows@.map_values(|r: UsageEventRow| r@) =~= before.map_values(
                    |r: UsageEventRow| r@,
                ).push(r@));
            },
            None => {},
        }
        i += 1;
    }
    assert(all.take(lines@.len() as int) =~= all);
    let new_offset = advance_offset(offset, k);
    Some(LedgerImport { rows, new_offset })
}

/// Whether a round goes on to the next distribution after one's import: only
/// after a failure (the ledger lives in the one distribution that has the hook).
pub fn continue_after(result: &Result<u64, String>) -> (res: bool)
    ensures
        res == result is Err,
{
    result.is_err()
}

/// An import's result with its error as a string view.
pub open spec fn result_view(r: Result<u64, String>) -> Result<u64, Seq<char>> {
    match r {
        Ok(n) => Ok(n),
        Err(e) => Err(e@),
    }
}

/// The results of the imports tried, as views.
pub open spec fn attempt_views(a: Seq<Result<u64, String>>) -> Seq<Result<u64, Seq<char>>> {
    a.map_values(|r: Result<u64, String>| result_view(r))
}

/// The outcome of a round: the distribution listing failed with its error, or some
/// distribution's import succeeded, or the error of the last one tried, or
/// [`NO_DISTRO`] when there was none.
pub open spec fn round_outcome_spec(listing: Result<Seq<Result<u64, Seq<char>>>, Seq<char>>) -> Result<(), Seq<char>> {
    match listing {
        Err(e) => Err(e),
        Ok(attempts) => if exists|i: int| 0 <= i < attempts.len() && attempts[i] is Ok {
            Ok(())
        } else if attempts.len() == 0 {
            Err(NO_DISTRO@)
        } else {
            Err(attempts.last()->Err_0)
        },
    }
}

/// The outcome of a round from the listing of distributions and the imports tried,
/// in order.
pub fn round_outcome(listing: Result<Vec<Result<u64, String>>, String>) -> (res: Result<(), String>)
    ensures
        match res {
            Ok(()) => round_outcome_spec(
                match listing {
                    Ok(a) => Ok(attempt_views(a@)),
                    Err(e) => Err(e@),
                },
            ) == Ok::<(), Seq<char>>(()),
            Err(e) => round_outcome_spec(
                match listing {
                    Ok(a) => Ok(attempt_views(a@)),
                    Err(e) => Err(e@),
                },
            ) == Err::<(), Seq<char>>(e@),
        },
{
    match listing {
        Err(e) => Err(e),
        Ok(attempts) => {
            let ghost views = attempt_views(attempts@);
            let n = attempts.len();
            let mut i: usize = 0;
            while i < n
                invariant
                    listing == Ok::<Vec<Result<u64, String>>, String>(attempts),
                    n == attempts@.len(),
                    views == attempt_views(attempts@),
                    0 <= i <= n,
                    forall|j: int| 0 <= j < i ==> #[trigger] views[j] is Err,
                decreases n - i,
            {
                if attempts[i].is_ok() {
                    assert(views[i as int] is Ok);
                    assert(exists|j: int| 0 <= j < views.len() && views[j] is Ok);
                    return Ok(());
                }
                assert(views[i as int] is Err);
                i += 1;
            }
            if n == 0 {
                Err(owned(NO_DISTRO))
            } else {
                match &attempts[n - 1] {
                    Err(e) => {
                        assert(views[n - 1] == result_view(attempts@[n - 1]));
                        Err(e.clone())
                    },
                    Ok(_) => Ok(()),
                }
            }
        },
    }
}

/// The status after a round: a success records `now_ms` and clears the error, a
/// failure records its error and keeps the last success time; the row count is
/// refreshed whenever it could be read.
pub fn sync_round(prev: LedgerStatus, outcome: Result<(), String>, now_ms: i64, total: Option<i64>) -> (res: LedgerStatus)
    ensures
        match outcome {
            Ok(()) => res.last_sync_at_ms == Some(now_ms) && res.last_error is None,
            Err(e) => res.last_sync_at_ms == prev.last_sync_at_ms && opt_view(res.last_error)
                == Some(e@),
        },
        res.total_records == match total {
            Some(t) => t,
            None => prev.total_records,
        },
{
    let total_records = match total {
        Some(t) => t,
        None => prev.total_records,
    };
    match outcome {
        Ok(()) => LedgerStatus { total_records, last_sync_at_ms: Some(now_ms), last_error: None },
        Err(e) => LedgerStatus {
            total_records,
            last_sync_at_ms: prev.last_sync_at_ms,
            last_error: Some(e),
        },
    }
}

/// The ledger's place in the user's home inside WSL (the hook writes it there).
pub const LEDGER_SUBPATH: &'static str = ".kimi-code\\token-ledger.jsonl";

/// The two UNC paths of a distribution's ledger, tried in order, given the home
/// directory that `$HOME` names in the distribution (the default user's, who runs
/// the hook): `~/.kimi-code/token-ledger.jsonl` through `\\wsl$` first and
/// `\\wsl.localhost` second.
pub fn ledger_paths(distro: &str, home: &str) -> (res: Vec<String>)
    ensures
        res@.len() == 2,
        res@[0]@ == "\\\\wsl$\\"@ + distro@ + backslashed(home@) + "\\.kimi-code\\token-ledger.jsonl"@,
        res@[1]@ == "\\\\wsl.localhost\\"@ + distro@ + backslashed(home@)
            + "\\.kimi-code\\token-ledger.jsonl"@,
{
    let v = unc_home_candidates(distro, home, LEDGER_SUBPATH);
    proof {
        reveal_strlit(".kimi-code\\token-ledger.jsonl");
        reveal_strlit("\\");
        reveal_strlit("\\.kimi-code\\token-ledger.jsonl");
        assert("\\"@ + LEDGER_SUBPATH@ =~= "\\.kimi-code\\token-ledger.jsonl"@);
        assert(v@[0]@ =~= "\\\\wsl$\\"@ + distro@ + backslashed(home@) + "\\.kimi-code\\token-ledger.jsonl"@);
        assert(v@[1]@ =~= "\\\\wsl.localhost\\"@ + distro@ + backslashed(home@) + "\\.kimi-code\\token-ledger.jsonl"@);
    }
    v
}

proof fn lemma_ledger_rows_concat(x: Seq<Seq<char>>, y: Seq<Seq<char>>)
    ensures
        ledger_rows(x + y) == ledger_rows(x) + ledger_rows(y),
    decreases y.len(),
{
    if y.len() == 0 {
        assert(x + y =~= x);
        assert(ledger_rows(x) + ledger_rows(y) =~= ledger_rows(x));
    } else {
        assert((x + y).drop_last() =~= x + y.drop_last());
        assert((x + y).last() == y.last());
        lemma_ledger_rows_concat(x, y.drop_last());
        match ledger_row_spec(y.last()) {
            Some(r) => {
                assert(ledger_rows(x) + ledger_rows(y) =~= (ledger_rows(x) + ledger_rows(y.drop_last())).push(r));
            },
            None => {},
        }
    }
}

/// Law: importing the ledger in two rounds, the first ending after a whole line,
/// gives the same rows as importing it at once: incremental reading loses and
/// repeats nothing.
pub proof fn law_ledger_import_in_pieces(a: Seq<char>, b: Seq<char>)
    requires
        a.len() > 0,
        a.last() == '\n',
    ensures
        ledger_rows(lines_of(a + b)) == ledger_rows(lines_of(a)) + ledger_rows(lines_of(b)),
{
    law_lines_concat(a, b);
    lemma_ledger_rows_concat(lines_of(a), lines_of(b));
}

/// The error when neither path of the ledger opens: the last path and its error.
pub fn open_ledger_error(path: &str, error: &str) -> (res: String)
    ensures
        res@ == "无法打开账本文件: "@ + path@ + ": "@ + error@,
{
    let r = concat(&["无法打开账本文件: ", path, ": ", error]);
    proof {
        reveal_with_fuel(concat_spec, 5);
    }
    r
}

} // verus!
