//! What the desktop shell decides on its own: mapping the front end's settings to
//! sessions, the payloads it forwards, the application log it keeps, and the upkeep and
//! paging of the load-test history table.
use vstd::prelude::*;
use crate::conn::ConnectionMode;
use crate::load_test::{LoadTestConfig, MetricsMode, ResponseMode};
use crate::net_debug::{DebugConfig, IpVersion, Protocol, Role, SendPlan};
use crate::proxy::ProxyConfig;
use crate::scheduler::RpsMode;
use crate::stats::{ClientSnapshot, TrafficSnapshot};
use crate::text::{decimal, push_char, push_decimal};

verus! {

/// The connection mode a front-end name selects: `newConnection`, otherwise keep-alive.
pub fn map_connection_mode(mode: Option<&str>) -> (r: ConnectionMode)
    ensures
        r == if mode matches Some(m) && m@ == "newConnection"@ {
            ConnectionMode::NewConnection
        } else {
            ConnectionMode::KeepAlive
        },
{
    match mode {
        Some(m) => {
            let owned = m.to_owned();
            let name = "newConnection".to_owned();
            if owned == name {
                ConnectionMode::NewConnection
            } else {
                ConnectionMode::KeepAlive
            }
        },
        None => ConnectionMode::KeepAlive,
    }
}

/// The rate mode a front-end name selects: `perWorker`, otherwise global.
pub fn map_rps_mode(mode: Option<&str>) -> (r: RpsMode)
    ensures
        r == if mode matches Some(m) && m@ == "perWorker"@ { RpsMode::PerWorker } else { RpsMode::Global },
{
    match mode {
        Some(m) => {
            let owned = m.to_owned();
            let name = "perWorker".to_owned();
            if owned == name {
                RpsMode::PerWorker
            } else {
                RpsMode::Global
            }
        },
        None => RpsMode::Global,
    }
}

/// The response mode a front-end name selects: `discardBody`, otherwise counted.
pub fn map_response_mode(mode: Option<&str>) -> (r: ResponseMode)
    ensures
        r == if mode matches Some(m) && m@ == "discardBody"@ {
            ResponseMode::DiscardBody
        } else {
            ResponseMode::CountBytes
        },
{
    match mode {
        Some(m) => {
            let owned = m.to_owned();
            let name = "discardBody".to_owned();
            if owned == name {
                ResponseMode::DiscardBody
            } else {
                ResponseMode::CountBytes
            }
        },
        None => ResponseMode::CountBytes,
    }
}

/// The metrics mode a front-end name selects: `minimal`, otherwise full.
pub fn map_metrics_mode(mode: Option<&str>) -> (r: MetricsMode)
    ensures
        r == if mode matches Some(m) && m@ == "minimal"@ { MetricsMode::Minimal } else { MetricsMode::Full },
{
    match mode {
        Some(m) => {
            let owned = m.to_owned();
            let name = "minimal".to_owned();
            if owned == name {
                MetricsMode::Minimal
            } else {
                MetricsMode::Full
            }
        },
        None => MetricsMode::Full,
    }
}

/// A load test as the front end describes it (the rate limit as the pacing interval
/// it gives, the headers as pairs).
#[derive(Clone, Debug)]
pub struct LoadTestRequest {
    pub url: String,
    pub method: String,
    pub concurrency: usize,
    pub ramp_up_secs: Option<u64>,
    pub iterations_per_worker: Option<u64>,
    pub total_requests_limit: Option<u64>,
    pub duration_secs: u64,
    pub timeout_ms: u64,
    pub payload: Option<String>,
    pub headers: Option<Vec<(String, String)>>,
    pub response_mode: Option<String>,
    pub metrics_mode: Option<String>,
    pub connection_mode: Option<String>,
    pub pacing_interval_nanos: Option<u64>,
    pub rps_mode: Option<String>,
    pub allow_insecure_certs: Option<bool>,
}

/// The name an optional string holds.
pub open spec fn opt_name(s: Option<String>) -> Option<Seq<char>> {
    match s {
        Some(x) => Some(x@),
        None => None,
    }
}

/// `x * k`, capped at `u64::MAX`.
pub open spec fn capped_mul(x: u64, k: u64) -> u64 {
    if x * k > u64::MAX { u64::MAX } else { (x * k) as u64 }
}

fn mul_capped(x: u64, k: u64) -> (r: u64)
    ensures
        r == capped_mul(x, k),
{
    match x.checked_mul(k) {
        Some(p) => p,
        None => u64::MAX,
    }
}

fn copy_pairs(v: &Vec<(String, String)>) -> (r: Vec<(String, String)>)
    ensures
        r@ == v@,
{
    let mut out: Vec<(String, String)> = Vec::new();
    let mut i: usize = 0;
    while i < v.len()
        invariant
            i <= v@.len(),
            out@ == v@.take(i as int),
        decreases v.len() - i,
    {
        out.push((v[i].0.clone(), v[i].1.clone()));
        proof {
            assert(out@ =~= v@.take(i + 1));
        }
        i = i + 1;
    }
    proof {
        assert(v@.take(v@.len() as int) =~= v@);
    }
    out
}

fn opt_str(s: &Option<String>) -> (r: Option<&str>)
    ensures
        match r {
            Some(x) => opt_name(*s) == Some(x@),
            None => s is None,
        },
{
    match s {
        Some(x) => Some(x.as_str()),
        None => None,
    }
}

/// The load test the front end asks for: at least a one-second run and a 100 ms
/// timeout, the body as given, the headers as pairs, the modes by name, certificates
/// checked unless allowed, no ramp-up unless given (durations beyond `u64::MAX`
/// nanoseconds are capped).
pub fn to_engine_config(config: &LoadTestRequest) -> (r: LoadTestConfig)
    ensures
        r.url == config.url,
        r.method == config.method,
        r.concurrency == config.concurrency,
        r.duration_nanos == capped_mul(if config.duration_secs == 0 { 1 } else { config.duration_secs }, 1_000_000_000),
        r.timeout_nanos == capped_mul(if config.timeout_ms < 100 { 100 } else { config.timeout_ms }, 1_000_000),
        r.body is Some == config.payload is Some,
        config.payload is Some ==> r.body->Some_0@ == vstd::utf8::encode_utf8(config.payload->Some_0@),
        r.headers@ == match config.headers {
            Some(h) => h@,
            None => Seq::empty(),
        },
        r.response_mode == (if opt_name(config.response_mode) == Some("discardBody"@) {
            ResponseMode::DiscardBody
        } else {
            ResponseMode::CountBytes
        }),
        r.metrics_mode == (if opt_name(config.metrics_mode) == Some("minimal"@) {
            MetricsMode::Minimal
        } else {
            MetricsMode::Full
        }),
        r.connection_mode == (if opt_name(config.connection_mode) == Some("newConnection"@) {
            ConnectionMode::NewConnection
        } else {
            ConnectionMode::KeepAlive
        }),
        r.pacing_interval_nanos == config.pacing_interval_nanos,
        r.rps_mode == (if opt_name(config.rps_mode) == Some("perWorker"@) {
            RpsMode::PerWorker
        } else {
            RpsMode::Global
        }),
        r.allow_insecure_certs == (config.allow_insecure_certs == Some(true)),
        r.ramp_up_nanos == capped_mul(
            match config.ramp_up_secs {
                Some(s) => s,
                None => 0,
            },
            1_000_000_000,
        ),
        r.iterations_per_worker == config.iterations_per_worker,
        r.total_requests_limit == config.total_requests_limit,
        r.report_interval_nanos == crate::load_test::DEFAULT_REPORT_INTERVAL_NANOS,
        r.max_latency_samples == crate::load_test::DEFAULT_MAX_LATENCY_SAMPLES,
{
    let duration = if config.duration_secs == 0 { 1 } else { config.duration_secs };
    let timeout = if config.timeout_ms < 100 { 100 } else { config.timeout_ms };
    let mut engine = LoadTestConfig::new(
        config.url.clone(),
        config.method.clone(),
        config.concurrency,
        mul_capped(duration, 1_000_000_000),
        mul_capped(timeout, 1_000_000),
    );
    engine.body = match &config.payload {
        Some(p) => Some(crate::text::utf8_bytes(p.as_str())),
        None => None,
    };
    engine.headers = match &config.headers {
        Some(h) => copy_pairs(h),
        None => Vec::new(),
    };
    engine.response_mode = map_response_mode(opt_str(&config.response_mode));
    engine.metrics_mode = map_metrics_mode(opt_str(&config.metrics_mode));
    engine.connection_mode = map_connection_mode(opt_str(&config.connection_mode));
    engine.pacing_interval_nanos = config.pacing_interval_nanos;
    engine.rps_mode = map_rps_mode(opt_str(&config.rps_mode));
    engine.allow_insecure_certs = match config.allow_insecure_certs {
        Some(b) => b,
        None => false,
    };
    engine.ramp_up_nanos = mul_capped(
        match config.ramp_up_secs {
            Some(s) => s,
            None => 0,
        },
        1_000_000_000,
    );
    engine.iterations_per_worker = config.iterations_per_worker;
    engine.total_requests_limit = config.total_requests_limit;
    engine
}

/// The settings a history record keeps besides its results and time.
#[derive(Clone, Debug)]
pub struct HistorySettings {
    pub url: String,
    pub method: String,
    pub concurrency: u64,
    pub ramp_up_secs: u64,
    pub iterations_per_worker: Option<u64>,
    pub total_requests_limit: Option<u64>,
    pub duration: u64,
    /// The timeout in whole seconds.
    pub timeout: u64,
    pub connection_mode: String,
    pub rps_mode: String,
}

/// The settings a finished load test is recorded with.
pub fn history_settings(config: &LoadTestRequest) -> (r: HistorySettings)
    ensures
        r.url == config.url,
        r.method == config.method,
        r.concurrency == config.concurrency as u64,
        r.ramp_up_secs == match config.ramp_up_secs {
            Some(s) => s,
            None => 0,
        },
        r.iterations_per_worker == config.iterations_per_worker,
        r.total_requests_limit == config.total_requests_limit,
        r.duration == config.duration_secs,
        r.timeout == config.timeout_ms / 1000,
        r.connection_mode@ == (if opt_name(config.connection_mode) == Some("newConnection"@) {
            ConnectionMode::NewConnection
        } else {
            ConnectionMode::KeepAlive
        }).spec_name(),
        r.rps_mode@ == (if opt_name(config.rps_mode) == Some("perWorker"@) {
            RpsMode::PerWorker
        } else {
            RpsMode::Global
        }).spec_name(),
{
    HistorySettings {
        url: config.url.clone(),
        method: config.method.clone(),
        concurrency: config.concurrency as u64,
        ramp_up_secs: match config.ramp_up_secs {
            Some(s) => s,
            None => 0,
        },
        iterations_per_worker: config.iterations_per_worker,
        total_requests_limit: config.total_requests_limit,
        duration: config.duration_secs,
        timeout: config.timeout_ms / 1000,
        connection_mode: map_connection_mode(opt_str(&config.connection_mode)).as_str().to_owned(),
        rps_mode: map_rps_mode(opt_str(&config.rps_mode)).as_str().to_owned(),
    }
}

/// A column added to the history table after its first version.
#[derive(Clone, Copy, Debug, PartialEq, Eq, Structural)]
pub enum HistoryColumn {
    RampUp,
    IterationsPerWorker,
    TotalRequestsLimit,
    ConnectionMode,
    RpsLimit,
    RpsMode,
    P50,
    P90,
}

impl HistoryColumn {
    pub open spec fn spec_name(self) -> Seq<char> {
        match self {
            HistoryColumn::RampUp => "ramp_up"@,
            HistoryColumn::IterationsPerWorker => "iterations_per_worker"@,
            HistoryColumn::TotalRequestsLimit => "total_requests_limit"@,
            HistoryColumn::ConnectionMode => "connection_mode"@,
            HistoryColumn::RpsLimit => "rps_limit"@,
            HistoryColumn::RpsMode => "rps_mode"@,
            HistoryColumn::P50 => "p50"@,
            HistoryColumn::P90 => "p90"@,
        }
    }

    /// The column's name.
    pub fn name(self) -> (r: &'static str)
        ensures
            r@ == self.spec_name(),
    {
        match self {
            HistoryColumn::RampUp => "ramp_up",
            HistoryColumn::IterationsPerWorker => "iterations_per_worker",
            HistoryColumn::TotalRequestsLimit => "total_requests_limit",
            HistoryColumn::ConnectionMode => "connection_mode",
            HistoryColumn::RpsLimit => "rps_limit",
            HistoryColumn::RpsMode => "rps_mode",
            HistoryColumn::P50 => "p50",
            HistoryColumn::P90 => "p90",
        }
    }

    pub open spec fn spec_add_statement(self) -> Seq<char> {
        match self {
            HistoryColumn::RampUp => "ALTER TABLE load_test_history ADD COLUMN ramp_up INTEGER NOT NULL DEFAULT 0"@,
            HistoryColumn::IterationsPerWorker => "ALTER TABLE load_test_history ADD COLUMN iterations_per_worker INTEGER"@,
            HistoryColumn::TotalRequestsLimit => "ALTER TABLE load_test_history ADD COLUMN total_requests_limit INTEGER"@,
            HistoryColumn::ConnectionMode => "ALTER TABLE load_test_history ADD COLUMN connection_mode TEXT NOT NULL DEFAULT 'keepAlive'"@,
            HistoryColumn::RpsLimit => "ALTER TABLE load_test_history ADD COLUMN rps_limit REAL"@,
            HistoryColumn::RpsMode => "ALTER TABLE load_test_history ADD COLUMN rps_mode TEXT NOT NULL DEFAULT 'global'"@,
            HistoryColumn::P50 => "ALTER TABLE load_test_history ADD COLUMN p50 REAL NOT NULL DEFAULT 0"@,
            HistoryColumn::P90 => "ALTER TABLE load_test_history ADD COLUMN p90 REAL NOT NULL DEFAULT 0"@,
        }
    }

    /// The statement that adds the column, with its type and default.
    pub fn add_statement(self) -> (r: &'static str)
        ensures
            r@ == self.spec_add_statement(),
    {
        match self {
            HistoryColumn::RampUp => "ALTER TABLE load_test_history ADD COLUMN ramp_up INTEGER NOT NULL DEFAULT 0",
            HistoryColumn::IterationsPerWorker => "ALTER TABLE load_test_history ADD COLUMN iterations_per_worker INTEGER",
            HistoryColumn::TotalRequestsLimit => "ALTER TABLE load_test_history ADD COLUMN total_requests_limit INTEGER",
            HistoryColumn::ConnectionMode => "ALTER TABLE load_test_history ADD COLUMN connection_mode TEXT NOT NULL DEFAULT 'keepAlive'",
            HistoryColumn::RpsLimit => "ALTER TABLE load_test_history ADD COLUMN rps_limit REAL",
            HistoryColumn::RpsMode => "ALTER TABLE load_test_history ADD COLUMN rps_mode TEXT NOT NULL DEFAULT 'global'",
            HistoryColumn::P50 => "ALTER TABLE load_test_history ADD COLUMN p50 REAL NOT NULL DEFAULT 0",
            HistoryColumn::P90 => "ALTER TABLE load_test_history ADD COLUMN p90 REAL NOT NULL DEFAULT 0",
        }
    }
}

/// The added columns, in the order they are added back when missing.
pub open spec fn upgrade_order() -> Seq<HistoryColumn> {
    seq![
        HistoryColumn::RampUp,
        HistoryColumn::IterationsPerWorker,
        HistoryColumn::TotalRequestsLimit,
        HistoryColumn::ConnectionMode,
        HistoryColumn::RpsLimit,
        HistoryColumn::RpsMode,
        HistoryColumn::P50,
        HistoryColumn::P90,
    ]
}

/// The added columns absent from a table with these column names, in upgrade order.
pub open spec fn spec_missing_columns(existing: Seq<Seq<char>>) -> Seq<HistoryColumn> {
    upgrade_order().filter(|c: HistoryColumn| !existing.contains(c.spec_name()))
}

/// Whether `name` is among the column names.
fn has_column(existing: &[String], name: &str) -> (r: bool)
    ensures
        r == existing@.map_values(|s: String| s@).contains(name@),
{
    let ghost names = existing@.map_values(|s: String| s@);
    let key = name.to_owned();
    let mut i: usize = 0;
    while i < existing.len()
        invariant
            i <= existing@.len(),
            key@ == name@,
            names == existing@.map_values(|s: String| s@),
            forall|j: int| 0 <= j < i ==> names[j] != name@,
        decreases existing.len() - i,
    {
        if existing[i] == key {
            assert(names[i as int] == name@);
            return true;
        }
        i = i + 1;
    }
    false
}

/// The columns a history table with these column names lacks, in the order they are
/// added.
pub fn missing_history_columns(existing: &[String]) -> (r: Vec<HistoryColumn>)
    ensures
        r@ == spec_missing_columns(existing@.map_values(|s: String| s@)),
{
    let ghost names = existing@.map_values(|s: String| s@);
    let order: [HistoryColumn; 8] = [
        HistoryColumn::RampUp,
        HistoryColumn::IterationsPerWorker,
        HistoryColumn::TotalRequestsLimit,
        HistoryColumn::ConnectionMode,
        HistoryColumn::RpsLimit,
        HistoryColumn::RpsMode,
        HistoryColumn::P50,
        HistoryColumn::P90,
    ];
    assert(order@ =~= upgrade_order());
    let ghost pred = |c: HistoryColumn| !names.contains(c.spec_name());
    let mut out: Vec<HistoryColumn> = Vec::new();
    let mut i: usize = 0;
    while i < 8
        invariant
            i <= 8,
            order@ == upgrade_order(),
            names == existing@.map_values(|s: String| s@),
            pred == (|c: HistoryColumn| !names.contains(c.spec_name())),
            out@ == upgrade_order().take(i as int).filter(pred),
        decreases 8 - i,
    {
        let c = order[i];
        let present = has_column(existing, c.name());
        proof {
            reveal(Seq::filter);
            assert(upgrade_order().take(i + 1).drop_last() =~= upgrade_order().take(i as int));
            assert(upgrade_order().take(i + 1).last() == c);
        }
        if !present {
            out.push(c);
        }
        i = i + 1;
    }
    proof {
        assert(upgrade_order().take(8) =~= upgrade_order());
    }
    out
}

/// The column names of a table after the missing added columns are added to it.
pub open spec fn upgraded_columns(existing: Seq<Seq<char>>) -> Seq<Seq<char>> {
    existing + spec_missing_columns(existing).map_values(|c: HistoryColumn| c.spec_name())
}

/// Upgrading a history table completes it and touches nothing else: only columns it
/// lacks are added, afterwards it has every added column, and upgrading it again adds
/// nothing.
pub proof fn lemma_upgrade_completes(existing: Seq<Seq<char>>)
    ensures
        forall|i: int|
            0 <= i < spec_missing_columns(existing).len() ==> !existing.contains(
                #[trigger] spec_missing_columns(existing)[i].spec_name(),
            ),
        forall|c: HistoryColumn| #[trigger] upgrade_order().contains(c) ==> upgraded_columns(existing).contains(c.spec_name()),
        spec_missing_columns(upgraded_columns(existing)).len() == 0,
{
    broadcast use vstd::seq_lib::group_filter_ensures;

    let pred = |c: HistoryColumn| !existing.contains(c.spec_name());
    let missing = spec_missing_columns(existing);
    let after = upgraded_columns(existing);
    let added = missing.map_values(|c: HistoryColumn| c.spec_name());
    assert forall|i: int| 0 <= i < missing.len() implies !existing.contains(#[trigger] missing[i].spec_name()) by {
        assert(pred(missing[i]));
    }
    assert forall|c: HistoryColumn| #[trigger] upgrade_order().contains(c) implies after.contains(c.spec_name()) by {
        if existing.contains(c.spec_name()) {
            let j = choose|j: int| 0 <= j < existing.len() && existing[j] == c.spec_name();
            assert(after[j] == existing[j]);
        } else {
            let k = choose|k: int| 0 <= k < upgrade_order().len() && upgrade_order()[k] == c;
            assert(pred(upgrade_order()[k]));
            assert(missing.contains(upgrade_order()[k]));
            let m = choose|m: int| 0 <= m < missing.len() && missing[m] == c;
            assert(added[m] == c.spec_name());
            assert(after[existing.len() + m] == added[m]);
        }
    }
    let again = spec_missing_columns(after);
    if again.len() > 0 {
        let c = again[0];
        assert(!after.contains(c.spec_name()));
        upgrade_order().lemma_filter_contains_rev(|x: HistoryColumn| !after.contains(x.spec_name()), c);
        assert(again.contains(c));
        assert(upgrade_order().contains(c));
    }
}

/// The `LIMIT` and `OFFSET` of a history page: pages and sizes count from one.
pub open spec fn spec_page_window(page: u32, page_size: u32) -> (u64, u64) {
    let limit: u64 = if page_size == 0 { 1 } else { page_size as u64 };
    let p: u64 = if page == 0 { 1 } else { page as u64 };
    (limit, ((p - 1) * limit) as u64)
}

/// The `LIMIT` and `OFFSET` of a history page.
pub fn history_page_window(page: u32, page_size: u32) -> (r: (u64, u64))
    ensures
        r == spec_page_window(page, page_size),
{
    let limit: u64 = if page_size == 0 { 1 } else { page_size as u64 };
    let p: u64 = if page == 0 { 1 } else { page as u64 };
    assert((p - 1) * limit <= 0xffff_ffffu64 * 0xffff_ffffu64) by (nonlinear_arith)
        requires
            1 <= p <= 0xffff_ffff,
            1 <= limit <= 0xffff_ffff,
    ;
    (limit, (p - 1) * limit)
}

/// One entry of the application log.
#[derive(Clone, Debug)]
pub struct AppLogEntry {
    pub id: u64,
    pub timestamp_ms: u128,
    pub scope: String,
    pub level: String,
    pub message: String,
    pub source: Option<String>,
}

/// The application log keeps its latest entries up to this many.
pub const MAX_LOG_ENTRIES: usize = 2000usize;

/// The application log: its latest entries and the next id.
pub struct AppLog {
    entries: Vec<AppLogEntry>,
    next_id: u64,
}

/// The abstract state of an [`AppLog`].
pub struct AppLogView {
    pub entries: Seq<AppLogEntry>,
    pub next_id: u64,
}

impl View for AppLog {
    type V = AppLogView;

    closed spec fn view(&self) -> AppLogView {
        AppLogView { entries: self.entries@, next_id: self.next_id }
    }
}

/// The last `max` entries (all of them when fewer).
pub open spec fn latest<T>(s: Seq<T>, max: nat) -> Seq<T> {
    if s.len() > max { s.skip(s.len() - max) } else { s }
}

fn copy_entry(e: &AppLogEntry) -> (r: AppLogEntry)
    ensures
        r == *e,
{
    AppLogEntry {
        id: e.id,
        timestamp_ms: e.timestamp_ms,
        scope: e.scope.clone(),
        level: e.level.clone(),
        message: e.message.clone(),
        source: match &e.source {
            Some(s) => Some(s.clone()),
            None => None,
        },
    }
}

impl AppLog {
    pub open spec fn wf(&self) -> bool {
        self@.entries.len() <= MAX_LOG_ENTRIES
    }

    /// An empty log.
    pub fn new() -> (r: Self)
        ensures
            r.wf(),
            r@.entries.len() == 0,
            r@.next_id == 0,
    {
        AppLog { entries: Vec::new(), next_id: 0 }
    }

    /// Records an entry at `timestamp_ms` with the next id (ids wrap) and returns it;
    /// only the latest 2000 entries are kept.
    pub fn push(
        &mut self,
        scope: &str,
        level: &str,
        message: String,
        source: Option<String>,
        timestamp_ms: u128,
    ) -> (r: AppLogEntry)
        requires
            old(self).wf(),
        ensures
            final(self).wf(),
            r.id == old(self)@.next_id,
            r.timestamp_ms == timestamp_ms,
            r.scope@ == scope@,
            r.level@ == level@,
            r.message == message,
            r.source == source,
            final(self)@.next_id == old(self)@.next_id.wrapping_add(1),
            final(self)@.entries == latest(old(self)@.entries.push(r), MAX_LOG_ENTRIES as nat),
    {
        let entry = AppLogEntry {
            id: self.next_id,
            timestamp_ms,
            scope: scope.to_owned(),
            level: level.to_owned(),
            message,
            source,
        };
        self.next_id = self.next_id.wrapping_add(1);
        let kept = copy_entry(&entry);
        self.entries.push(kept);
        if self.entries.len() > MAX_LOG_ENTRIES {
            let drain_count = self.entries.len() - MAX_LOG_ENTRIES;
            let rest = self.entries.split_off(drain_count);
            self.entries = rest;
        }
        entry
    }

    /// The entries, oldest first.
    pub fn list(&self) -> (r: &Vec<AppLogEntry>)
        ensures
            r@ == self@.entries,
    {
        &self.entries
    }

    /// Forgets all entries (ids go on).
    pub fn clear(&mut self)
        ensures
            final(self).wf(),
            final(self)@.entries.len() == 0,
            final(self)@.next_id == old(self)@.next_id,
    {
        self.entries.clear();
    }
}

/// Why the front end's debugger settings are refused.
pub open spec fn spec_debug_config_error(protocol: Seq<char>, role: Seq<char>) -> Option<Seq<char>> {
    if protocol != "tcp"@ && protocol != "udp"@ {
        Some("无效协议"@)
    } else if role != "client"@ && role != "server"@ {
        Some("无效角色"@)
    } else {
        None
    }
}

/// The debug session the front end asks for by names: `tcp` or `udp`, `client` or
/// `server`, IPv6 for `ipv6` and IPv4 otherwise, a 1024-byte buffer and no automatic
/// sending.
pub fn debug_config_from_names(
    protocol: &str,
    role: &str,
    ip_version: &str,
    host: String,
    local_port: u16,
    remote_host: String,
    remote_port: u16,
) -> (r: Result<DebugConfig, String>)
    ensures
        match spec_debug_config_error(protocol@, role@) {
            Some(e) => r is Err && r->Err_0@ == e,
            None => r is Ok && ({
                let c = r->Ok_0;
                &&& c.protocol == if protocol@ == "tcp"@ { Protocol::Tcp } else { Protocol::Udp }
                &&& c.role == if role@ == "client"@ { Role::Client } else { Role::Server }
                &&& c.ip_version == if ip_version@ == "ipv6"@ { IpVersion::Ipv6 } else { IpVersion::Ipv4 }
                &&& c.host == host
                &&& c.local_port == local_port
                &&& c.remote_host == remote_host
                &&& c.remote_port == remote_port
                &&& c.buffer_size == 1024
                &&& c.send_plan is None
            }),
        },
{
    let p = protocol.to_owned();
    let ro = role.to_owned();
    let ip = ip_version.to_owned();
    let protocol = if p == "tcp".to_owned() {
        Protocol::Tcp
    } else if p == "udp".to_owned() {
        Protocol::Udp
    } else {
        return Err("无效协议".to_owned());
    };
    let role = if ro == "client".to_owned() {
        Role::Client
    } else if ro == "server".to_owned() {
        Role::Server
    } else {
        return Err("无效角色".to_owned());
    };
    let ip_version = if ip == "ipv6".to_owned() { IpVersion::Ipv6 } else { IpVersion::Ipv4 };
    Ok(DebugConfig {
        protocol,
        role,
        ip_version,
        host,
        local_port,
        remote_host,
        remote_port,
        buffer_size: 1024,
        send_plan: None,
    })
}

/// The front end's request for automatic sending.
#[derive(Clone, Debug)]
pub struct AutoSendArgs {
    pub data: Vec<u8>,
    pub interval_ms: u64,
    pub batch_size: usize,
    pub repeat: bool,
    pub max_speed: bool,
    pub remote_host: String,
    pub remote_port: u16,
}

/// The plan of an automatic send: the one payload, at least a millisecond between
/// batches and one payload per batch; and the text of its target, `host:port`, when a
/// host and a port are given.
pub fn auto_send_plan(args: AutoSendArgs) -> (r: (SendPlan, Option<String>))
    ensures
        r.0.payloads@.len() == 1,
        r.0.payloads@[0] == args.data,
        r.0.interval_ms == if args.interval_ms == 0 { 1 } else { args.interval_ms },
        r.0.batch_size == if args.batch_size == 0 { 1 } else { args.batch_size },
        r.0.repeat == args.repeat,
        r.0.max_speed == args.max_speed,
        (args.remote_host@.len() == 0 || args.remote_port == 0) ==> r.1 is None,
        !(args.remote_host@.len() == 0 || args.remote_port == 0) ==> r.1 is Some && r.1->Some_0@
            == args.remote_host@ + ":"@ + decimal(args.remote_port as nat),
{
    let target = if args.remote_host.as_str().is_empty() || args.remote_port == 0 {
        None
    } else {
        let mut t = args.remote_host.clone();
        push_char(&mut t, ':');
        push_decimal(&mut t, args.remote_port as u64);
        proof {
            reveal_strlit(":");
        }
        Some(t)
    };
    let mut payloads: Vec<Vec<u8>> = Vec::new();
    payloads.push(args.data);
    let plan = SendPlan {
        payloads,
        interval_ms: if args.interval_ms == 0 { 1 } else { args.interval_ms },
        batch_size: if args.batch_size == 0 { 1 } else { args.batch_size },
        repeat: args.repeat,
        max_speed: args.max_speed,
    };
    (plan, target)
}

/// The proxy settings the front end sends.
#[derive(Clone, Debug)]
pub struct ProxyConfigPayload {
    pub listen_host: String,
    pub listen_port: u16,
    pub report_interval_ms: u64,
}

/// Idle clients are forgotten after five minutes in the desktop app.
pub const DESKTOP_CLIENT_IDLE_TTL_MS: u64 = 300_000u64;

/// The proxy run the front end asks for: reports at least every 100 ms, idle clients
/// kept five minutes.
pub fn proxy_config_from_payload(config: ProxyConfigPayload) -> (r: ProxyConfig)
    ensures
        r.listen_host == config.listen_host,
        r.listen_port == config.listen_port,
        r.report_interval_ms == if config.report_interval_ms < 100 { 100 } else { config.report_interval_ms },
        r.client_idle_ttl_ms == DESKTOP_CLIENT_IDLE_TTL_MS,
{
    ProxyConfig {
        listen_host: config.listen_host,
        listen_port: config.listen_port,
        report_interval_ms: if config.report_interval_ms < 100 { 100 } else { config.report_interval_ms },
        client_idle_ttl_ms: DESKTOP_CLIENT_IDLE_TTL_MS,
    }
}

/// A target with its count, as sent to the front end.
#[derive(Clone, Debug)]
pub struct TargetStatPayload {
    pub target: String,
    pub count: u64,
}

/// One client's line, as sent to the front end.
#[derive(Clone, Debug)]
pub struct ClientSnapshotPayload {
    pub ip: String,
    pub active_connections: u64,
    pub total_connections: u64,
    pub total_requests: u64,
    pub bytes_in: u64,
    pub bytes_out: u64,
    pub last_seen_ms: u64,
    pub top_targets: Vec<TargetStatPayload>,
}

/// A proxy report, as sent to the front end.
#[derive(Clone, Debug)]
pub struct ProxySnapshotPayload {
    pub uptime_ms: u64,
    pub active_connections: u64,
    pub total_connections: u64,
    pub total_requests: u64,
    pub bytes_in: u64,
    pub bytes_out: u64,
    pub clients: Vec<ClientSnapshotPayload>,
}

/// A payload line carries the client's figures and its targets unchanged.
pub open spec fn client_payload_of(p: ClientSnapshotPayload, c: ClientSnapshot) -> bool {
    &&& p.ip == c.ip
    &&& p.active_connections == c.active_connections
    &&& p.total_connections == c.total_connections
    &&& p.total_requests == c.total_requests
    &&& p.bytes_in == c.bytes_in
    &&& p.bytes_out == c.bytes_out
    &&& p.last_seen_ms == c.last_seen_ms
    &&& p.top_targets@.len() == c.top_targets@.len()
    &&& forall|k: int| 0 <= k < p.top_targets@.len() ==> (#[trigger] p.top_targets@[k]).target == c.top_targets@[k].target
        && p.top_targets@[k].count == c.top_targets@[k].count
}

fn client_payload(c: &ClientSnapshot) -> (r: ClientSnapshotPayload)
    ensures
        client_payload_of(r, *c),
{
    let mut targets: Vec<TargetStatPayload> = Vec::new();
    let mut k: usize = 0;
    while k < c.top_targets.len()
        invariant
            k <= c.top_targets@.len(),
            targets@.len() == k,
            forall|q: int| 0 <= q < k ==> (#[trigger] targets@[q]).target == c.top_targets@[q].target
                && targets@[q].count == c.top_targets@[q].count,
        decreases c.top_targets.len() - k,
    {
        targets.push(TargetStatPayload { target: c.top_targets[k].target.clone(), count: c.top_targets[k].count });
        k = k + 1;
    }
    ClientSnapshotPayload {
        ip: c.ip.clone(),
        active_connections: c.active_connections,
        total_connections: c.total_connections,
        total_requests: c.total_requests,
        bytes_in: c.bytes_in,
        bytes_out: c.bytes_out,
        last_seen_ms: c.last_seen_ms,
        top_targets: targets,
    }
}

/// A proxy report in the form the front end receives, figures and lines unchanged.
pub fn to_snapshot_payload(snapshot: &TrafficSnapshot) -> (r: ProxySnapshotPayload)
    ensures
        r.uptime_ms == snapshot.uptime_ms,
        r.active_connections == snapshot.active_connections,
        r.total_connections == snapshot.total_connections,
        r.total_requests == snapshot.total_requests,
        r.bytes_in == snapshot.bytes_in,
        r.bytes_out == snapshot.bytes_out,
        r.clients@.len() == snapshot.clients@.len(),
        forall|k: int| 0 <= k < r.clients@.len() ==> client_payload_of(#[trigger] r.clients@[k], snapshot.clients@[k]),
{
    let mut clients: Vec<ClientSnapshotPayload> = Vec::new();
    let mut k: usize = 0;
    while k < snapshot.clients.len()
        invariant
            k <= snapshot.clients@.len(),
            clients@.len() == k,
            forall|q: int| 0 <= q < k ==> client_payload_of(#[trigger] clients@[q], snapshot.clients@[q]),
        decreases snapshot.clients.len() - k,
    {
        clients.push(client_payload(&snapshot.clients[k]));
        k = k + 1;
    }
    ProxySnapshotPayload {
        uptime_ms: snapshot.uptime_ms,
        active_connections: snapshot.active_connections,
        total_connections: snapshot.total_connections,
        total_requests: snapshot.total_requests,
        bytes_in: snapshot.bytes_in,
        bytes_out: snapshot.bytes_out,
        clients,
    }
}

} // verus!
