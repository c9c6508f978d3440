//! The launcher of kimi web and the kimi TUI: the status it reports, and the
//! decisions of start, restart and stop, each a step function from the state of
//! the operation and what the last outside action gave back to the next action.
use vstd::prelude::*;
use crate::models::{LaunchStatus, RunningInstance};
use crate::numeric::{decimal_chars, format_u64};
use crate::strings::{concat, concat_spec, concat2, opt_view, owned, str_equals};
use crate::wsl::WslProbe;

verus! {

/// The first port that kimi web tries (it moves on to the next ones when taken).
pub const PORT_FIRST: u16 = 58627;
/// The last port probed.
pub const PORT_LAST: u16 = 58637;
/// How long the launcher waits for kimi web to become healthy.
pub const HEALTH_WAIT_MAX_MS: u64 = 30_000;
/// The pause between two health probes while waiting.
pub const HEALTH_POLL_INTERVAL_MS: u64 = 500;
/// How long a probe of WSL is reused.
pub const PROBE_CACHE_TTL_MS: u64 = 10_000;
/// How long a restart waits for the old kimi web to exit.
pub const EXIT_WAIT_MAX_MS: u64 = 10_000;

/// The script that runs kimi web in the foreground of a long-lived `wsl.exe`,
/// from the home directory, appending to its log.
pub const WEB_SCRIPT: &'static str = "cd ~ && mkdir -p ~/.kimi-code && exec kimi web >> ~/.kimi-code/companion-web.log 2>&1";
/// The script that runs the kimi TUI in a visible terminal.
pub const TUI_SCRIPT: &'static str = "cd ~ && exec kimi";
/// The script that prints kimi web's token.
pub const TOKEN_SCRIPT: &'static str = "cat ~/.kimi-code/server.token";
/// The script that ends the kimi web process (its pid is in the instance file);
/// it always exits with 0.
pub const KILL_WEB_SCRIPT: &'static str = "kill $(grep -o '\"pid\":[0-9]*' ~/.kimi-code/server/instances/*.json 2>/dev/null | cut -d: -f2) 2>/dev/null || true";
/// The error when the shared state's lock is poisoned.
pub const LOCK_ERROR: &'static str = "应用状态锁已损坏";
/// The error when no distribution is available to stop kimi in.
pub const NO_DISTRO: &'static str = "没有可用的 WSL 发行版";
/// The error when kimi web did not become healthy in time.
pub const READY_TIMEOUT: &'static str = "等待 kimi web 就绪超时（30 秒）。请检查 WSL 内 ~/.kimi-code/companion-web.log";
/// The error when the token file is empty or missing.
pub const TOKEN_EMPTY: &'static str = "~/.kimi-code/server.token 为空或不存在";
/// The error when the token does not authenticate against the running kimi web.
pub const TOKEN_MISMATCH: &'static str = "server.token 与运行中的 kimi web 不匹配（认证失败）。请在 WSL 里重启 kimi web 或执行 kimi web rotate-token 后重试";
/// The error when the old kimi web did not exit during a restart.
pub const EXIT_TIMEOUT: &'static str = "kimi web 进程未在 10 秒内退出";

/// The address to open: `http://127.0.0.1:<port>/#token=<token>`.
pub open spec fn url_spec(port: u16, token: Seq<char>) -> Seq<char> {
    "http://127.0.0.1:"@ + decimal_chars(port as nat) + "/#token="@ + token
}

/// The address of a running instance, with its token.
pub fn build_url(port: u16, token: &str) -> (res: String)
    ensures
        res@ == url_spec(port, token@),
{
    let p = format_u64(port as u64);
    let res = concat(&["http://127.0.0.1:", p.as_str(), "/#token=", token]);
    proof {
        reveal_with_fuel(concat_spec, 5);
    }
    res
}

/// An address on the loopback interface: `http://127.0.0.1:<port><path>`.
pub open spec fn local_url_spec(port: u16, path: Seq<char>) -> Seq<char> {
    "http://127.0.0.1:"@ + decimal_chars(port as nat) + path
}

/// The health check (`/api/v1/healthz`), the authenticated probe of the token
/// (`/api/v1/oauth/usage`) and the shutdown call (`/api/v1/shutdown`) go to these.
pub fn local_url(port: u16, path: &str) -> (res: String)
    ensures
        res@ == local_url_spec(port, path@),
{
    let p = format_u64(port as u64);
    let res = concat(&["http://127.0.0.1:", p.as_str(), path]);
    proof {
        reveal_with_fuel(concat_spec, 4);
    }
    res
}

/// The error when the distribution has no kimi CLI.
pub open spec fn not_installed_spec(distro: Seq<char>) -> Seq<char> {
    "发行版 "@ + distro + " 中没有找到 kimi CLI（which kimi 为空）"@
}

/// The error when the distribution has no kimi CLI.
pub fn not_installed_error(distro: &str) -> (res: String)
    ensures
        res@ == not_installed_spec(distro@),
{
    let res = concat(&["发行版 ", distro, " 中没有找到 kimi CLI（which kimi 为空）"]);
    proof {
        reveal_with_fuel(concat_spec, 4);
    }
    res
}

/// Whether a cached probe can be reused: it is of the same distribution and
/// younger than [`PROBE_CACHE_TTL_MS`].
pub fn probe_cache_hit(cached_distro: &str, age_ms: u64, distro: &str) -> (res: bool)
    ensures
        res == (cached_distro@ == distro@ && age_ms < PROBE_CACHE_TTL_MS),
{
    str_equals(cached_distro, distro) && age_ms < PROBE_CACHE_TTL_MS
}

/// What the probe cache holds: the distribution, when it was probed (milliseconds
/// on a monotonic clock) and what the probe found (kimi installed, a TUI running).
pub type ProbeCacheView = Option<(Seq<char>, u64, bool, bool)>;

/// The cached probe reused for `distro` at `now_ms`: the entry's, when it is of that
/// distribution and younger than [`PROBE_CACHE_TTL_MS`].
pub open spec fn cache_lookup(c: ProbeCacheView, distro: Seq<char>, now_ms: u64) -> Option<(bool, bool)> {
    match c {
        Some((d, at, installed, tui)) => if d == distro && at <= now_ms && now_ms - at
            < PROBE_CACHE_TTL_MS {
            Some((installed, tui))
        } else {
            None
        },
        None => None,
    }
}

/// The cache after probing `distro` at `now_ms`: a successful probe replaces the
/// entry; an error is never kept.
pub open spec fn cache_record(
    c: ProbeCacheView,
    distro: Seq<char>,
    now_ms: u64,
    probe: Option<(bool, bool)>,
) -> ProbeCacheView {
    match probe {
        Some((installed, tui)) => Some((distro, now_ms, installed, tui)),
        None => c,
    }
}

/// The probe of WSL as the status query uses it, reused for a short while: a probe
/// starts a `wsl.exe` process and the status is polled every few seconds. A start or
/// a stop empties it, so that the next query probes afresh.
pub struct ProbeCache {
    entry: Option<(String, u64, WslProbe)>,
}

impl View for ProbeCache {
    type V = ProbeCacheView;

    closed spec fn view(&self) -> ProbeCacheView {
        match self.entry {
            Some((d, at, p)) => Some((d@, at, p.kimi_installed, p.tui_running)),
            None => None,
        }
    }
}

impl ProbeCache {
    /// An empty cache.
    pub fn new() -> (res: ProbeCache)
        ensures
            res@ is None,
    {
        ProbeCache { entry: None }
    }

    /// The cached probe for `distro` at `now_ms`, if it can be reused (see
    /// [`cache_lookup`]).
    pub fn lookup(&self, distro: &str, now_ms: u64) -> (res: Option<WslProbe>)
        ensures
            match cache_lookup(self@, distro@, now_ms) {
                Some((installed, tui)) => res matches Some(p) && p.kimi_installed == installed
                    && p.tui_running == tui,
                None => res is None,
            },
    {
        match &self.entry {
            Some((d, at, p)) => {
                if *at <= now_ms && probe_cache_hit(d.as_str(), now_ms - *at, distro) {
                    Some(WslProbe { kimi_installed: p.kimi_installed, tui_running: p.tui_running })
                } else {
                    None
                }
            },
            None => None,
        }
    }

    /// Keeps the outcome of probing `distro` at `now_ms` (see [`cache_record`]).
    pub fn record(&mut self, distro: &str, now_ms: u64, result: &Result<WslProbe, String>)
        ensures
            final(self)@ == cache_record(
                old(self)@,
                distro@,
                now_ms,
                match result {
                    Ok(p) => Some((p.kimi_installed, p.tui_running)),
                    Err(_) => None,
                },
            ),
    {
        match result {
            Ok(p) => {
                self.entry = Some(
                    (
                        owned(distro),
                        now_ms,
                        WslProbe { kimi_installed: p.kimi_installed, tui_running: p.tui_running },
                    ),
                );
            },
            Err(_) => {},
        }
    }

    /// Empties the cache.
    pub fn invalidate(&mut self)
        ensures
            final(self)@ is None,
    {
        self.entry = None;
    }
}

/// Law: a successful probe is reused for the same distribution until
/// [`PROBE_CACHE_TTL_MS`] have passed, and not for another distribution; an error
/// leaves the cache as it was; an emptied cache reuses nothing, so the query after a
/// start or a stop probes afresh.
pub proof fn law_probe_cache(
    c: ProbeCacheView,
    distro: Seq<char>,
    other: Seq<char>,
    at: u64,
    now_ms: u64,
    installed: bool,
    tui: bool,
)
    requires
        other != distro,
    ensures
        at <= now_ms && now_ms - at < PROBE_CACHE_TTL_MS ==> cache_lookup(
            cache_record(c, distro, at, Some((installed, tui))),
            distro,
            now_ms,
        ) == Some((installed, tui)),
        at <= now_ms && now_ms - at >= PROBE_CACHE_TTL_MS ==> cache_lookup(
            cache_record(c, distro, at, Some((installed, tui))),
            distro,
            now_ms,
        ) is None,
        cache_lookup(cache_record(c, distro, at, Some((installed, tui))), other, now_ms) is None,
        cache_record(c, distro, at, None) == c,
        cache_lookup(None, distro, now_ms) is None,
{
}

/// A copy of a running instance.
pub fn copy_instance(inst: &RunningInstance) -> (res: RunningInstance)
    ensures
        res.distro@ == inst.distro@,
        res.port == inst.port,
        res.token@ == inst.token@,
{
    RunningInstance { distro: inst.distro.clone(), port: inst.port, token: inst.token.clone() }
}

/// The instance the state knows is on `port`.
pub open spec fn known_on(state: Option<Option<RunningInstance>>, port: u16) -> bool {
    state matches Some(Some(inst)) && inst.port == port
}

/// Whether the status query must read the token to take over an instance that
/// this application did not start: a healthy port, a distribution, and no known
/// instance on that port.
pub fn needs_takeover(state: &Option<Option<RunningInstance>>, port: Option<u16>, distro: Option<&str>) -> (res: bool)
    ensures
        res == (port is Some && distro is Some && !known_on(*state, port->0)),
{
    match (port, distro) {
        (Some(p), Some(_)) => {
            let known = match state {
                Some(Some(inst)) => inst.port == p,
                _ => false,
            };
            !known
        },
        _ => false,
    }
}

/// The status query's result and the instance it takes over, if any.
pub struct StatusOutcome {
    pub status: LaunchStatus,
    /// The instance to store (a running instance that was not known).
    pub adopted: Option<RunningInstance>,
}

/// The launch status from what the query observed. `client_ok`: the HTTP client
/// could be built (else everything is reported off). `state`: the shared instance,
/// `None` when its lock is poisoned. `port`: the first healthy port. `probe`: the
/// WSL probe when a distribution was given. `token`: the token read when
/// [`needs_takeover`] asked for it. A healthy instance that the state does not know
/// is taken over with a non-empty token; the address is given only for an
/// instance on the healthy port, since only then is its token known.
pub fn get_status(
    client_ok: bool,
    state: Option<Option<RunningInstance>>,
    distro: Option<&str>,
    port: Option<u16>,
    probe: Option<Result<WslProbe, String>>,
    token: Option<Result<String, String>>,
) -> (res: StatusOutcome)
    ensures
        !client_ok ==> {
            &&& !res.status.wsl_ok && !res.status.kimi_installed && !res.status.running
                && !res.status.tui_running
            &&& res.status.port is None && res.status.url is None
            &&& res.adopted is None
        },
        client_ok ==> {
            let probed = if distro is Some {
                probe
            } else {
                None
            };
            let adopt = port is Some && distro is Some && !known_on(state, port->0) && state is Some
                && (token matches Some(Ok(t)) && t@.len() > 0);
            &&& res.status.running == port is Some
            &&& res.status.port == port
            &&& res.status.wsl_ok == (probed matches Some(Ok(_)))
            &&& res.status.kimi_installed == (probed matches Some(Ok(p)) && p.kimi_installed)
            &&& res.status.tui_running == (probed matches Some(Ok(p)) && p.tui_running)
            &&& adopt ==> (res.adopted matches Some(a) && a.distro@ == distro->0@ && a.port
                == port->0 && a.token@ == token->0->Ok_0@)
            &&& !adopt ==> res.adopted is None
            &&& opt_view(res.status.url) == if adopt {
                Some(url_spec(port->0, token->0->Ok_0@))
            } else if port is Some && known_on(state, port->0) {
                Some(url_spec(port->0, state->0->0.token@))
            } else {
                None
            }
        },
{
    if !client_ok {
        return StatusOutcome {
            status: LaunchStatus {
                wsl_ok: false,
                kimi_installed: false,
                running: false,
                tui_running: false,
                port: None,
                url: None,
            },
            adopted: None,
        };
    }
    let (wsl_ok, kimi_installed, tui_running) = match distro {
        Some(_) => match &probe {
            Some(Ok(p)) => (true, p.kimi_installed, p.tui_running),
            _ => (false, false, false),
        },
        None => (false, false, false),
    };
    let takeover = needs_takeover(&state, port, distro);
    let adopted: Option<RunningInstance> = if takeover && state.is_some() {
        match (&token, port, distro) {
            (Some(Ok(t)), Some(p), Some(d)) => {
                if !t.as_str().is_empty() {
                    Some(RunningInstance { distro: owned(d), port: p, token: t.clone() })
                } else {
                    None
                }
            },
            _ => None,
        }
    } else {
        None
    };
    let url = match &adopted {
        Some(a) => Some(build_url(a.port, a.token.as_str())),
        None => match &state {
            Some(Some(inst)) => {
                if Some(inst.port) == port {
                    Some(build_url(inst.port, inst.token.as_str()))
                } else {
                    None
                }
            },
            _ => None,
        },
    };
    StatusOutcome {
        status: LaunchStatus { wsl_ok, kimi_installed, running: port.is_some(), tui_running, port, url },
        adopted,
    }
}

/// What the waiting for readiness does after one probe of the ports.
pub enum WaitDecision {
    /// kimi web answers on this port.
    Ready(u16),
    /// Probe again after [`HEALTH_POLL_INTERVAL_MS`].
    Retry,
    /// Give up with this error.
    TimedOut(String),
}

/// One round of waiting for kimi web: ready as soon as a port answers, an error
/// once [`HEALTH_WAIT_MAX_MS`] have passed, otherwise another round.
pub fn wait_ready_step(healthy_port: Option<u16>, elapsed_ms: u64) -> (res: WaitDecision)
    ensures
        match healthy_port {
            Some(p) => res == WaitDecision::Ready(p),
            None => if elapsed_ms >= HEALTH_WAIT_MAX_MS {
                res matches WaitDecision::TimedOut(e) && e@ == READY_TIMEOUT@
            } else {
                res == WaitDecision::Retry
            },
        },
{
    match healthy_port {
        Some(p) => WaitDecision::Ready(p),
        None => if elapsed_ms >= HEALTH_WAIT_MAX_MS {
            WaitDecision::TimedOut(owned(READY_TIMEOUT))
        } else {
            WaitDecision::Retry
        },
    }
}

/// The token read from WSL: its error, an error when it is empty, or the token.
pub fn check_token_read(read: Result<String, String>) -> (res: Result<String, String>)
    ensures
        match read {
            Err(e) => res matches Err(r) && r@ == e@,
            Ok(t) => if t@.len() == 0 {
                res matches Err(r) && r@ == TOKEN_EMPTY@
            } else {
                res matches Ok(r) && r@ == t@
            },
        },
{
    match read {
        Err(e) => Err(e),
        Ok(t) => if t.as_str().is_empty() {
            Err(owned(TOKEN_EMPTY))
        } else {
            Ok(t)
        },
    }
}

/// What the token verification does after one authentication attempt.
pub enum TokenDecision {
    /// The token authenticates.
    Accept(String),
    /// Read it again after 500 ms (the file may have been written meanwhile).
    Retry,
    /// Give up with this error.
    Reject(String),
}

/// After authenticating with `token` in attempt `attempt` (0 or 1): accept it, try
/// once more, or reject it.
pub fn after_auth(attempt: u32, token: String, auth_ok: bool) -> (res: TokenDecision)
    ensures
        auth_ok ==> (res matches TokenDecision::Accept(t) && t@ == token@),
        !auth_ok && attempt == 0 ==> res == TokenDecision::Retry,
        !auth_ok && attempt != 0 ==> (res matches TokenDecision::Reject(e) && e@ == TOKEN_MISMATCH@),
{
    if auth_ok {
        TokenDecision::Accept(token)
    } else if attempt == 0 {
        TokenDecision::Retry
    } else {
        TokenDecision::Reject(owned(TOKEN_MISMATCH))
    }
}

/// Where a start is.
pub enum StartPhase {
    AwaitClient,
    AwaitPorts,
    AwaitWslProbe,
    /// kimi web is being spawned; the probe said whether a TUI runs.
    AwaitSpawn { tui_running: bool },
    /// Waiting for kimi web; whether a TUI runs is known when the probe ran.
    AwaitReady { tui_known: Option<bool> },
    AwaitTuiProbe { port: u16, token: String },
    AwaitTerminal { port: u16, token: String },
    AwaitCommit { port: u16, token: String },
    Finished,
}

/// What the last action of a start gave back.
pub enum StartEvent {
    /// The shared HTTP client, or the error of building it.
    ClientReady(Result<(), String>),
    /// Whether some port answers the health check (2 s timeout).
    PortsProbed(bool),
    /// The WSL probe.
    WslProbed(Result<WslProbe, String>),
    /// The spawning of kimi web ([`WEB_SCRIPT`]).
    WebSpawned(Result<(), String>),
    /// The healthy port and the verified token, or why waiting failed.
    Ready(Result<(u16, String), String>),
    /// Whether a TUI runs (a failed probe counts as none).
    TuiProbed(bool),
    /// The terminal with the TUI was opened (its failure does not stop a start).
    TerminalOpened,
    /// The instance was stored; `false` when the state's lock is poisoned.
    Committed(bool),
}

/// What a start does next.
pub enum StartAction {
    /// Get the shared HTTP client.
    GetClient,
    /// Probe the port range for a healthy kimi web (2 s timeout).
    ProbePorts,
    /// Run the WSL probe.
    ProbeWsl,
    /// Spawn kimi web with [`WEB_SCRIPT`] in a long-lived hidden `wsl.exe`.
    SpawnWeb,
    /// Wait for readiness ([`wait_ready_step`]) and verify the token ([`after_auth`]).
    WaitReady,
    /// Run the WSL probe for the TUI only.
    ProbeTui,
    /// Open a visible terminal with [`TUI_SCRIPT`].
    OpenTerminal,
    /// Invalidate the probe cache, then store this instance in the shared state.
    Commit(RunningInstance),
    /// The start is over with this result.
    Done(Result<LaunchStatus, String>),
}

/// The event is the one the phase waits for.
pub open spec fn start_event_fits(phase: StartPhase, event: StartEvent) -> bool {
    match phase {
        StartPhase::AwaitClient => event is ClientReady,
        StartPhase::AwaitPorts => event is PortsProbed,
        StartPhase::AwaitWslProbe => event is WslProbed,
        StartPhase::AwaitSpawn { .. } => event is WebSpawned,
        StartPhase::AwaitReady { .. } => event is Ready,
        StartPhase::AwaitTuiProbe { .. } => event is TuiProbed,
        StartPhase::AwaitTerminal { .. } => event is TerminalOpened,
        StartPhase::AwaitCommit { .. } => event is Committed,
        StartPhase::Finished => false,
    }
}

/// The start stores the instance `distro`/`port`/`token` next.
pub open spec fn commits(res: (StartPhase, StartAction), distro: Seq<char>, port: u16, token: Seq<char>) -> bool {
    &&& res.0 matches StartPhase::AwaitCommit { port: p, token: t } && p == port && t@ == token
    &&& res.1 matches StartAction::Commit(i) && i.distro@ == distro && i.port == port && i.token@
        == token
}

/// With kimi web ready on `port` with `token`: open a terminal for the TUI when
/// none runs, then store the instance.
pub open spec fn after_ready(res: (StartPhase, StartAction), distro: Seq<char>, port: u16, token: Seq<char>, tui_running: bool) -> bool {
    if tui_running {
        commits(res, distro, port, token)
    } else {
        &&& res.0 matches StartPhase::AwaitTerminal { port: p, token: t } && p == port && t@ == token
        &&& res.1 is OpenTerminal
    }
}

/// The start ends with the error `e`.
pub open spec fn fails_with(res: (StartPhase, StartAction), e: Seq<char>) -> bool {
    &&& res.0 is Finished
    &&& res.1 matches StartAction::Done(Err(r)) && r@ == e
}

/// The first step of a start.
pub fn start_begin() -> (res: (StartPhase, StartAction))
    ensures
        res.0 is AwaitClient,
        res.1 is GetClient,
{
    (StartPhase::AwaitClient, StartAction::GetClient)
}

/// One step of starting kimi web in `distro`. A healthy instance is reused (the
/// health check is the only test of whether kimi web runs); otherwise the kimi
/// CLI must be installed, kimi web is spawned and awaited; a terminal with the
/// TUI is opened when none runs; the instance is stored, and the status reports
/// everything running with the address of the stored instance.
pub fn start(distro: &str, phase: StartPhase, event: StartEvent) -> (res: (StartPhase, StartAction))
    requires
        start_event_fits(phase, event),
    ensures
        match (phase, event) {
            (StartPhase::AwaitClient, StartEvent::ClientReady(Err(e))) => fails_with(res, e@),
            (StartPhase::AwaitClient, StartEvent::ClientReady(Ok(()))) => res.0 is AwaitPorts
                && res.1 is ProbePorts,
            (StartPhase::AwaitPorts, StartEvent::PortsProbed(healthy)) => if healthy {
                res.0 matches StartPhase::AwaitReady { tui_known: t } && t is None && res.1 is WaitReady
            } else {
                res.0 is AwaitWslProbe && res.1 is ProbeWsl
            },
            (StartPhase::AwaitWslProbe, StartEvent::WslProbed(Err(e))) => fails_with(res, e@),
            (StartPhase::AwaitWslProbe, StartEvent::WslProbed(Ok(p))) => if !p.kimi_installed {
                fails_with(res, not_installed_spec(distro@))
            } else {
                res.0 matches StartPhase::AwaitSpawn { tui_running: t } && t == p.tui_running
                    && res.1 is SpawnWeb
            },
            (StartPhase::AwaitSpawn { tui_running }, StartEvent::WebSpawned(r)) => match r {
                Err(e) => fails_with(res, e@),
                Ok(()) => res.0 matches StartPhase::AwaitReady { tui_known: t } && t == Some(
                    tui_running,
                ) && res.1 is WaitReady,
            },
            (StartPhase::AwaitReady { tui_known }, StartEvent::Ready(r)) => match r {
                Err(e) => fails_with(res, e@),
                Ok((port, token)) => match tui_known {
                    Some(t) => after_ready(res, distro@, port, token@, t),
                    None => res.0 matches StartPhase::AwaitTuiProbe { port: p, token: tk } && p
                        == port && tk@ == token@ && res.1 is ProbeTui,
                },
            },
            (StartPhase::AwaitTuiProbe { port, token }, StartEvent::TuiProbed(t)) => after_ready(
                res,
                distro@,
                port,
                token@,
                t,
            ),
            (StartPhase::AwaitTerminal { port, token }, StartEvent::TerminalOpened) => commits(
                res,
                distro@,
                port,
                token@,
            ),
            (StartPhase::AwaitCommit { port, token }, StartEvent::Committed(ok)) => if !ok {
                fails_with(res, LOCK_ERROR@)
            } else {
                &&& res.0 is Finished
                &&& res.1 matches StartAction::Done(Ok(st)) && st.wsl_ok && st.kimi_installed
                    && st.running && st.tui_running && st.port == Some(port) && opt_view(st.url)
                    == Some(url_spec(port, token@))
            },
            _ => false,
        },
{
    match (phase, event) {
        (StartPhase::AwaitClient, StartEvent::ClientReady(r)) => match r {
            Err(e) => (StartPhase::Finished, StartAction::Done(Err(e))),
            Ok(()) => (StartPhase::AwaitPorts, StartAction::ProbePorts),
        },
        (StartPhase::AwaitPorts, StartEvent::PortsProbed(healthy)) => if healthy {
            (StartPhase::AwaitReady { tui_known: None }, StartAction::WaitReady)
        } else {
            (StartPhase::AwaitWslProbe, StartAction::ProbeWsl)
        },
        (StartPhase::AwaitWslProbe, StartEvent::WslProbed(r)) => match r {
            Err(e) => (StartPhase::Finished, StartAction::Done(Err(e))),
            Ok(p) => if !p.kimi_installed {
                (StartPhase::Finished, StartAction::Done(Err(not_installed_error(distro))))
            } else {
                (StartPhase::AwaitSpawn { tui_running: p.tui_running }, StartAction::SpawnWeb)
            },
        },
        (StartPhase::AwaitSpawn { tui_running }, StartEvent::WebSpawned(r)) => match r {
            Err(e) => (StartPhase::Finished, StartAction::Done(Err(e))),
            Ok(()) => (StartPhase::AwaitReady { tui_known: Some(tui_running) }, StartAction::WaitReady),
        },
        (StartPhase::AwaitReady { tui_known }, StartEvent::Ready(r)) => match r {
            Err(e) => (StartPhase::Finished, StartAction::Done(Err(e))),
            Ok((port, token)) => match tui_known {
                Some(t) => ready_next(distro, port, token, t),
                None => (StartPhase::AwaitTuiProbe { port, token }, StartAction::ProbeTui),
            },
        },
        (StartPhase::AwaitTuiProbe { port, token }, StartEvent::TuiProbed(t)) => ready_next(
            distro,
            port,
            token,
            t,
        ),
        (StartPhase::AwaitTerminal { port, token }, StartEvent::TerminalOpened) => commit_step(
            distro,
            port,
            token,
        ),
        (StartPhase::AwaitCommit { port, token }, StartEvent::Committed(ok)) => if !ok {
            (StartPhase::Finished, StartAction::Done(Err(owned(LOCK_ERROR))))
        } else {
            let url = build_url(port, token.as_str());
            (
                StartPhase::Finished,
                StartAction::Done(
                    Ok(
                        LaunchStatus {
                            wsl_ok: true,
                            kimi_installed: true,
                            running: true,
                            tui_running: true,
                            port: Some(port),
                            url: Some(url),
                        },
                    ),
                ),
            )
        },
        (StartPhase::Finished, _) => (StartPhase::Finished, StartAction::Done(Err(owned(LOCK_ERROR)))),
        (_, _) => (StartPhase::Finished, StartAction::Done(Err(owned(LOCK_ERROR)))),
    }
}

fn commit_step(distro: &str, port: u16, token: String) -> (res: (StartPhase, StartAction))
    ensures
        commits(res, distro@, port, token@),
{
    let inst = RunningInstance { distro: owned(distro), port, token: token.clone() };
    (StartPhase::AwaitCommit { port, token }, StartAction::Commit(inst))
}

fn ready_next(distro: &str, port: u16, token: String, tui_running: bool) -> (res: (StartPhase, StartAction))
    ensures
        after_ready(res, distro@, port, token@, tui_running),
{
    if tui_running {
        commit_step(distro, port, token)
    } else {
        (StartPhase::AwaitTerminal { port, token }, StartAction::OpenTerminal)
    }
}

/// Where a restart of kimi web is.
pub enum RestartPhase {
    AwaitClient,
    AwaitPorts,
    AwaitKill,
    AwaitExit,
    AwaitSpawn,
    AwaitReady,
    AwaitCommit { port: u16, token: String },
    Finished,
}

/// What the last action of a restart gave back.
pub enum RestartEvent {
    ClientReady(Result<(), String>),
    /// Whether some port answers the health check (800 ms timeout).
    PortsProbed(bool),
    /// The outcome of [`KILL_WEB_SCRIPT`].
    Killed(Result<String, String>),
    /// Whether a port still answers (500 ms timeout), and the time since the kill.
    ExitProbed { still_running: bool, elapsed_ms: u64 },
    WebSpawned(Result<(), String>),
    Ready(Result<(u16, String), String>),
    /// The instance was stored; `false` when the state's lock is poisoned.
    Committed(bool),
}

/// What a restart does next.
pub enum RestartAction {
    GetClient,
    /// Probe the port range (800 ms timeout).
    ProbePorts,
    /// Run [`KILL_WEB_SCRIPT`] (the TUI sessions are left alone).
    KillWeb,
    /// Probe the port range (500 ms timeout).
    ProbeExit,
    /// Wait 300 ms, then probe the port range again (500 ms timeout).
    WaitThenProbeExit,
    SpawnWeb,
    WaitReady,
    /// Store this instance in the shared state, then invalidate the probe cache.
    Commit(RunningInstance),
    /// The restart is over: whether kimi web was restarted, or the error.
    Done(Result<bool, String>),
}

/// The event is the one the restart phase waits for.
pub open spec fn restart_event_fits(phase: RestartPhase, event: RestartEvent) -> bool {
    match phase {
        RestartPhase::AwaitClient => event is ClientReady,
        RestartPhase::AwaitPorts => event is PortsProbed,
        RestartPhase::AwaitKill => event is Killed,
        RestartPhase::AwaitExit => event is ExitProbed,
        RestartPhase::AwaitSpawn => event is WebSpawned,
        RestartPhase::AwaitReady => event is Ready,
        RestartPhase::AwaitCommit { .. } => event is Committed,
        RestartPhase::Finished => false,
    }
}

/// The restart ends with the error `e`.
pub open spec fn restart_fails_with(res: (RestartPhase, RestartAction), e: Seq<char>) -> bool {
    &&& res.0 is Finished
    &&& res.1 matches RestartAction::Done(Err(r)) && r@ == e
}

/// The first step of a restart.
pub fn restart_begin() -> (res: (RestartPhase, RestartAction))
    ensures
        res.0 is AwaitClient,
        res.1 is GetClient,
{
    (RestartPhase::AwaitClient, RestartAction::GetClient)
}

/// One step of restarting kimi web in `distro` after the hook was installed or the
/// CLI updated (kimi web reads its hooks only when it starts). Nothing happens when
/// kimi web is not running. Otherwise the web process is ended, its port must
/// fall silent within [`EXIT_WAIT_MAX_MS`], kimi web is spawned and awaited, and the
/// new instance is stored; the result says that it was restarted.
pub fn restart_web_if_running(distro: &str, phase: RestartPhase, event: RestartEvent) -> (res: (RestartPhase, RestartAction))
    requires
        restart_event_fits(phase, event),
    ensures
        match (phase, event) {
            (RestartPhase::AwaitClient, RestartEvent::ClientReady(Err(e))) => restart_fails_with(res, e@),
            (RestartPhase::AwaitClient, RestartEvent::ClientReady(Ok(()))) => res.0 is AwaitPorts
                && res.1 is ProbePorts,
            (RestartPhase::AwaitPorts, RestartEvent::PortsProbed(running)) => if running {
                res.0 is AwaitKill && res.1 is KillWeb
            } else {
                res.0 is Finished && (res.1 matches RestartAction::Done(Ok(r)) && !r)
            },
            (RestartPhase::AwaitKill, RestartEvent::Killed(Err(e))) => restart_fails_with(res, e@),
            (RestartPhase::AwaitKill, RestartEvent::Killed(Ok(_))) => res.0 is AwaitExit && res.1 is ProbeExit,
            (RestartPhase::AwaitExit, RestartEvent::ExitProbed { still_running, elapsed_ms }) => if !still_running {
                res.0 is AwaitSpawn && res.1 is SpawnWeb
            } else if elapsed_ms >= EXIT_WAIT_MAX_MS {
                restart_fails_with(res, EXIT_TIMEOUT@)
            } else {
                res.0 is AwaitExit && res.1 is WaitThenProbeExit
            },
            (RestartPhase::AwaitSpawn, RestartEvent::WebSpawned(Err(e))) => restart_fails_with(res, e@),
            (RestartPhase::AwaitSpawn, RestartEvent::WebSpawned(Ok(()))) => res.0 is AwaitReady
                && res.1 is WaitReady,
            (RestartPhase::AwaitReady, RestartEvent::Ready(Err(e))) => restart_fails_with(res, e@),
            (RestartPhase::AwaitReady, RestartEvent::Ready(Ok((port, token)))) => {
                &&& res.0 matches RestartPhase::AwaitCommit { port: p, token: t } && p == port && t@ == token@
                &&& res.1 matches RestartAction::Commit(i) && i.distro@ == distro@ && i.port == port
                    && i.token@ == token@
            },
            (RestartPhase::AwaitCommit { .. }, RestartEvent::Committed(ok)) => if !ok {
                restart_fails_with(res, LOCK_ERROR@)
            } else {
                res.0 is Finished && (res.1 matches RestartAction::Done(Ok(r)) && r)
            },
            _ => false,
        },
{
    match (phase, event) {
        (RestartPhase::AwaitClient, RestartEvent::ClientReady(r)) => match r {
            Err(e) => (RestartPhase::Finished, RestartAction::Done(Err(e))),
            Ok(()) => (RestartPhase::AwaitPorts, RestartAction::ProbePorts),
        },
        (RestartPhase::AwaitPorts, RestartEvent::PortsProbed(running)) => if running {
            (RestartPhase::AwaitKill, RestartAction::KillWeb)
        } else {
            (RestartPhase::Finished, RestartAction::Done(Ok(false)))
        },
        (RestartPhase::AwaitKill, RestartEvent::Killed(r)) => match r {
            Err(e) => (RestartPhase::Finished, RestartAction::Done(Err(e))),
            Ok(_) => (RestartPhase::AwaitExit, RestartAction::ProbeExit),
        },
        (RestartPhase::AwaitExit, RestartEvent::ExitProbed { still_running, elapsed_ms }) => {
            if !still_running {
                (RestartPhase::AwaitSpawn, RestartAction::SpawnWeb)
            } else if elapsed_ms >= EXIT_WAIT_MAX_MS {
                (RestartPhase::Finished, RestartAction::Done(Err(owned(EXIT_TIMEOUT))))
            } else {
                (RestartPhase::AwaitExit, RestartAction::WaitThenProbeExit)
            }
        },
        (RestartPhase::AwaitSpawn, RestartEvent::WebSpawned(r)) => match r {
            Err(e) => (RestartPhase::Finished, RestartAction::Done(Err(e))),
            Ok(()) => (RestartPhase::AwaitReady, RestartAction::WaitReady),
        },
        (RestartPhase::AwaitReady, RestartEvent::Ready(r)) => match r {
            Err(e) => (RestartPhase::Finished, RestartAction::Done(Err(e))),
            Ok((port, token)) => {
                let inst = RunningInstance { distro: owned(distro), port, token: token.clone() };
                (RestartPhase::AwaitCommit { port, token }, RestartAction::Commit(inst))
            },
        },
        (RestartPhase::AwaitCommit { .. }, RestartEvent::Committed(ok)) => if !ok {
            (RestartPhase::Finished, RestartAction::Done(Err(owned(LOCK_ERROR))))
        } else {
            (RestartPhase::Finished, RestartAction::Done(Ok(true)))
        },
        (_, _) => (RestartPhase::Finished, RestartAction::Done(Err(owned(LOCK_ERROR)))),
    }
}

/// Where a stop is.
pub enum StopPhase {
    AwaitSnapshot,
    /// The graceful shutdown of the known instance is under way.
    AwaitShutdown { distro: String },
    AwaitDistros,
    AwaitKill,
    AwaitClear,
    Finished,
}

/// What the last action of a stop gave back.
pub enum StopEvent {
    /// The shared instance; `None` when the state's lock is poisoned.
    Snapshot(Option<Option<RunningInstance>>),
    /// The shutdown request was sent (when an HTTP client was available, its
    /// result ignored) and the grace period of 800 ms passed.
    ShutdownSent,
    /// The installed distributions.
    Distros(Result<Vec<String>, String>),
    /// The outcome of ending every kimi process ([`crate::wsl::kill_all_kimi`]).
    Killed(Result<(), String>),
    /// The shared instance was cleared; `false` when the lock is poisoned.
    Cleared(bool),
}

/// What a stop does next.
pub enum StopAction {
    /// Read the shared instance.
    ReadState,
    /// Ask kimi web on `port` to shut down (`POST /api/v1/shutdown`, bearer `token`,
    /// 5 s timeout), then wait 800 ms.
    Shutdown { port: u16, token: String },
    /// List the distributions.
    ListDistros,
    /// End every kimi process (web and TUI sessions) in the distribution.
    KillAll(String),
    /// Invalidate the probe cache, then clear the shared instance.
    Clear,
    /// The stop is over.
    Done(Result<(), String>),
}

/// The event is the one the stop phase waits for.
pub open spec fn stop_event_fits(phase: StopPhase, event: StopEvent) -> bool {
    match phase {
        StopPhase::AwaitSnapshot => event is Snapshot,
        StopPhase::AwaitShutdown { .. } => event is ShutdownSent,
        StopPhase::AwaitDistros => event is Distros,
        StopPhase::AwaitKill => event is Killed,
        StopPhase::AwaitClear => event is Cleared,
        StopPhase::Finished => false,
    }
}

/// The stop ends with the error `e`.
pub open spec fn stop_fails_with(res: (StopPhase, StopAction), e: Seq<char>) -> bool {
    &&& res.0 is Finished
    &&& res.1 matches StopAction::Done(Err(r)) && r@ == e
}

/// The first step of a stop.
pub fn stop_begin() -> (res: (StopPhase, StopAction))
    ensures
        res.0 is AwaitSnapshot,
        res.1 is ReadState,
{
    (StopPhase::AwaitSnapshot, StopAction::ReadState)
}

/// One step of stopping: a known instance is first asked to shut down; then every
/// kimi process of its distribution (or of the first distribution, when no
/// instance is known) is ended, and the shared instance cleared.
pub fn stop(phase: StopPhase, event: StopEvent) -> (res: (StopPhase, StopAction))
    requires
        stop_event_fits(phase, event),
    ensures
        match (phase, event) {
            (StopPhase::AwaitSnapshot, StopEvent::Snapshot(snap)) => match snap {
                None => stop_fails_with(res, LOCK_ERROR@),
                Some(Some(inst)) => {
                    &&& res.0 matches StopPhase::AwaitShutdown { distro: d } && d@ == inst.distro@
                    &&& res.1 matches StopAction::Shutdown { port: p, token: t } && p == inst.port
                        && t@ == inst.token@
                },
                Some(None) => res.0 is AwaitDistros && res.1 is ListDistros,
            },
            (StopPhase::AwaitShutdown { distro }, StopEvent::ShutdownSent) => {
                &&& res.0 is AwaitKill
                &&& res.1 matches StopAction::KillAll(d) && d@ == distro@
            },
            (StopPhase::AwaitDistros, StopEvent::Distros(r)) => match r {
                Ok(v) => if v@.len() > 0 {
                    &&& res.0 is AwaitKill
                    &&& res.1 matches StopAction::KillAll(d) && d@ == v@[0]@
                } else {
                    stop_fails_with(res, NO_DISTRO@)
                },
                Err(_) => stop_fails_with(res, NO_DISTRO@),
            },
            (StopPhase::AwaitKill, StopEvent::Killed(Err(e))) => stop_fails_with(res, e@),
            (StopPhase::AwaitKill, StopEvent::Killed(Ok(()))) => res.0 is AwaitClear && res.1 is Clear,
            (StopPhase::AwaitClear, StopEvent::Cleared(ok)) => if ok {
                res.0 is Finished && (res.1 matches StopAction::Done(Ok(())))
            } else {
                stop_fails_with(res, LOCK_ERROR@)
            },
            _ => false,
        },
{
    match (phase, event) {
        (StopPhase::AwaitSnapshot, StopEvent::Snapshot(snap)) => match snap {
            None => (StopPhase::Finished, StopAction::Done(Err(owned(LOCK_ERROR)))),
            Some(Some(inst)) => (
                StopPhase::AwaitShutdown { distro: inst.distro },
                StopAction::Shutdown { port: inst.port, token: inst.token },
            ),
            Some(None) => (StopPhase::AwaitDistros, StopAction::ListDistros),
        },
        (StopPhase::AwaitShutdown { distro }, StopEvent::ShutdownSent) => (
            StopPhase::AwaitKill,
            StopAction::KillAll(distro),
        ),
        (StopPhase::AwaitDistros, StopEvent::Distros(r)) => match r {
            Ok(v) => if v.len() > 0 {
                let d = v[0].clone();
                (StopPhase::AwaitKill, StopAction::KillAll(d))
            } else {
                (StopPhase::Finished, StopAction::Done(Err(owned(NO_DISTRO))))
            },
            Err(_) => (StopPhase::Finished, StopAction::Done(Err(owned(NO_DISTRO)))),
        },
        (StopPhase::AwaitKill, StopEvent::Killed(r)) => match r {
            Err(e) => (StopPhase::Finished, StopAction::Done(Err(e))),
            Ok(()) => (StopPhase::AwaitClear, StopAction::Clear),
        },
        (StopPhase::AwaitClear, StopEvent::Cleared(ok)) => if ok {
            (StopPhase::Finished, StopAction::Done(Ok(())))
        } else {
            (StopPhase::Finished, StopAction::Done(Err(owned(LOCK_ERROR))))
        },
        (_, _) => (StopPhase::Finished, StopAction::Done(Err(owned(LOCK_ERROR)))),
    }
}

} // verus!
