//! The values that the library hands to the user interface and to the database layer.
use vstd::prelude::*;

verus! {

/// The kimi web instance that is running (or that this application took over).
#[derive(Debug)]
pub struct RunningInstance {
    pub distro: String,
    pub port: u16,
    pub token: String,
}

/// The state of the launch page.
#[derive(Debug)]
pub struct LaunchStatus {
    pub wsl_ok: bool,
    pub kimi_installed: bool,
    pub running: bool,
    /// Whether an interactive kimi session (TUI) is running.
    pub tui_running: bool,
    pub port: Option<u16>,
    /// The full address to open, with the token fragment:
    /// `http://127.0.0.1:<port>/#token=<token>`.
    pub url: Option<String>,
}

/// Token usage over a period.
#[derive(Debug)]
pub struct PeriodUsage {
    pub input: i64,
    pub output: i64,
    pub cache_read: i64,
    pub cache_creation: i64,
}

impl Default for PeriodUsage {
    fn default() -> (res: Self)
        ensures
            res.input == 0 && res.output == 0 && res.cache_read == 0 && res.cache_creation == 0,
    {
        PeriodUsage { input: 0, output: 0, cache_read: 0, cache_creation: 0 }
    }
}

/// Token usage of one model.
#[derive(Debug)]
pub struct ModelUsage {
    pub model: String,
    pub input: i64,
    pub output: i64,
    pub cache_read: i64,
    pub cache_creation: i64,
}

/// The dashboard: today, this week (from Monday), this month and all time in
/// local time, and the usage per model over all time and over each period.
#[derive(Debug)]
pub struct StatsSummary {
    pub today: PeriodUsage,
    pub this_week: PeriodUsage,
    pub this_month: PeriodUsage,
    pub total: PeriodUsage,
    pub by_model: Vec<ModelUsage>,
    pub today_by_model: Vec<ModelUsage>,
    pub this_week_by_model: Vec<ModelUsage>,
    pub this_month_by_model: Vec<ModelUsage>,
}

/// One day of the heat map (a sparse list: only days with data).
#[derive(Debug)]
pub struct HeatmapDay {
    /// Local date, `YYYY-MM-DD`.
    pub date: String,
    pub input: i64,
    pub output: i64,
    pub cache_read: i64,
    pub cache_creation: i64,
    pub total: i64,
}

/// One point of the trend chart (gaps filled with zeros); `cache` is
/// `cache_read + cache_creation`.
#[derive(Debug)]
pub struct TrendPoint {
    pub date: String,
    pub input: i64,
    pub output: i64,
    pub cache: i64,
}

/// The ledger synchronisation status.
#[derive(Debug)]
pub struct LedgerStatus {
    /// Number of rows in `usage_events`.
    pub total_records: i64,
    /// When the last successful round ended (milliseconds), if any.
    pub last_sync_at_ms: Option<i64>,
    /// The error of the last round, if it failed.
    pub last_error: Option<String>,
}

impl Default for LedgerStatus {
    fn default() -> (res: Self)
        ensures
            res.total_records == 0,
            res.last_sync_at_ms is None,
            res.last_error is None,
    {
        LedgerStatus { total_records: 0, last_sync_at_ms: None, last_error: None }
    }
}

/// The Codex synchronisation status (Windows side or WSL side).
#[derive(Debug)]
pub struct CodexStatus {
    /// Whether the Codex data directory was found.
    pub dir_found: bool,
    /// The data directory (or directories), when found.
    pub dir: Option<String>,
    /// Number of rows in the source's table.
    pub total_records: i64,
    /// When the last successful scan ended (milliseconds), if any.
    pub last_sync_at_ms: Option<i64>,
    /// The error of one file in the last scan, if any.
    pub last_error: Option<String>,
}

impl Default for CodexStatus {
    fn default() -> (res: Self)
        ensures
            !res.dir_found,
            res.dir is None,
            res.total_records == 0,
            res.last_sync_at_ms is None,
            res.last_error is None,
    {
        CodexStatus {
            dir_found: false,
            dir: None,
            total_records: 0,
            last_sync_at_ms: None,
            last_error: None,
        }
    }
}

/// The synchronisation status of the Windows Kimi Code desktop application.
#[derive(Debug)]
pub struct WinKimiStatus {
    pub dir_found: bool,
    pub dir: Option<String>,
    pub total_records: i64,
    pub last_sync_at_ms: Option<i64>,
    pub last_error: Option<String>,
}

impl Default for WinKimiStatus {
    fn default() -> (res: Self)
        ensures
            !res.dir_found,
            res.dir is None,
            res.total_records == 0,
            res.last_sync_at_ms is None,
            res.last_error is None,
    {
        WinKimiStatus {
            dir_found: false,
            dir: None,
            total_records: 0,
            last_sync_at_ms: None,
            last_error: None,
        }
    }
}

/// Installation and run state of a Windows desktop application.
#[derive(Debug)]
pub struct DesktopAppInfo {
    /// Fixed identifier: `"kimi-code"`.
    pub id: String,
    /// Display name: `"Kimi Code"`.
    pub name: String,
    pub installed: bool,
    pub running: bool,
    /// The detected executable (None when not installed).
    pub exe_path: Option<String>,
}

/// The result of checking for a kimi CLI update.
#[derive(Debug)]
pub struct UpdateCheckResult {
    pub current_version: String,
    pub up_to_date: bool,
    pub latest_version: Option<String>,
    /// The raw CLI output.
    pub output: String,
}

/// The result of updating the kimi CLI.
#[derive(Debug)]
pub struct UpdateResult {
    pub success: bool,
    pub output: String,
    /// Whether kimi web was restarted after the update.
    pub restarted_web: bool,
    pub new_version: Option<String>,
}

/// One usage record to store (one line of a ledger or session file).
#[derive(Debug)]
pub struct UsageEventRow {
    pub ts: i64,
    pub session_id: String,
    pub agent: String,
    pub model: String,
    pub input_tokens: i64,
    pub output_tokens: i64,
    pub cache_read: i64,
    pub cache_creation: i64,
}

/// The mathematical counterpart of [`UsageEventRow`].
pub struct UsageEventView {
    pub ts: i64,
    pub session_id: Seq<char>,
    pub agent: Seq<char>,
    pub model: Seq<char>,
    pub input_tokens: i64,
    pub output_tokens: i64,
    pub cache_read: i64,
    pub cache_creation: i64,
}

impl View for UsageEventRow {
    type V = UsageEventView;

    open spec fn view(&self) -> UsageEventView {
        UsageEventView {
            ts: self.ts,
            session_id: self.session_id@,
            agent: self.agent@,
            model: self.model@,
            input_tokens: self.input_tokens,
            output_tokens: self.output_tokens,
            cache_read: self.cache_read,
            cache_creation: self.cache_creation,
        }
    }
}

/// The views of a list of rows.
pub open spec fn rows_view(rows: Seq<UsageEventRow>) -> Seq<UsageEventView> {
    rows.map_values(|r: UsageEventRow| r@)
}

} // verus!
