//! The decisions of the terminal UI: bounded logs and status histories, keys and
//! paging through the client table, what each screen shows, and the settings built
//! from the command line.
use vstd::prelude::*;
use std::collections::VecDeque;
use ratatui::layout::{Constraint, Direction as LayoutDirection, Layout, Rect};
use crate::stats::{TargetStat, TrafficSnapshot};
use crate::net_debug::{DebugConfig, DebugEvent, IpVersion, Protocol, Role, SendPlan};
use crate::proxy::ProxyEvent;
use crate::socks5::Socks5Event;
use crate::text::{spec_host_port, format_host_port, utf8_bytes};
use crate::load_test::{LoadTestConfig, LoadTestEvent, MetricsMode, ResponseMode};
use crate::conn::ConnectionMode;
use crate::scheduler::RpsMode;
use crate::metrics::{MetricsSnapshot, StatusCodeStat};
use crate::ranking::{is_index_perm, rank_desc};
use crate::text::{chars_of, concat, push_char, push_chars, push_decimal, decimal};

verus! {

/// A key as the UI reads it.
#[derive(Clone, Copy, Debug, PartialEq, Eq, Structural)]
pub enum UiKey {
    /// `q`, Esc or Ctrl-C.
    Quit,
    Up,
    Down,
    PageUp,
    PageDown,
    Other,
}

/// `logs` after appending `message`, dropping the oldest line when `cap` are held.
pub open spec fn bounded_push(logs: Seq<String>, cap: nat, message: String) -> Seq<String> {
    if logs.len() >= cap { logs.drop_first().push(message) } else { logs.push(message) }
}

/// `history` after putting `message` first, dropping the last entry when `cap` are held.
pub open spec fn history_push(history: Seq<String>, cap: nat, message: String) -> Seq<String> {
    if history.len() >= cap {
        seq![message] + history.drop_last()
    } else {
        seq![message] + history
    }
}

/// Appends a log line, keeping at most `cap` lines (the oldest go first).
pub fn push_bounded(logs: &mut VecDeque<String>, cap: usize, message: String)
    requires
        cap > 0,
        old(logs)@.len() <= cap,
    ensures
        final(logs)@ == bounded_push(old(logs)@, cap as nat, message),
        final(logs)@.len() <= cap,
{
    if logs.len() >= cap {
        let _ = logs.pop_front();
        assert(logs@ =~= old(logs)@.drop_first());
    }
    logs.push_back(message);
}

/// Puts a status first in a history of at most `cap` entries (the oldest go first).
pub fn push_history(history: &mut VecDeque<String>, cap: usize, message: String)
    requires
        cap > 0,
        old(history)@.len() <= cap,
    ensures
        final(history)@ == history_push(old(history)@, cap as nat, message),
        final(history)@.len() <= cap,
{
    if history.len() >= cap {
        let _ = history.pop_back();
        assert(history@ =~= old(history)@.drop_last());
    }
    history.push_front(message);
}

/// Lines kept by the load-test screen.
pub const BENCH_LOG_CAP: usize = 8usize;

/// Lines kept by the debugger, proxy and SOCKS5 screens.
pub const SESSION_LOG_CAP: usize = 200usize;

/// Statuses kept in a server screen's history.
pub const STATUS_HISTORY_CAP: usize = 5usize;

/// What the load-test screen shows besides the metrics.
#[derive(Debug)]
pub struct AppState {
    pub snapshot: Option<MetricsSnapshot>,
    pub logs: VecDeque<String>,
    pub status: String,
    pub done: bool,
}

impl AppState {
    pub open spec fn wf(&self) -> bool {
        self.logs@.len() <= BENCH_LOG_CAP
    }
}

/// Appends a line to the load-test log (eight lines at most).
pub fn push_log(state: &mut AppState, message: String)
    requires
        old(state).wf(),
    ensures
        final(state).wf(),
        final(state).logs@ == bounded_push(old(state).logs@, BENCH_LOG_CAP as nat, message),
        final(state).status == old(state).status,
        final(state).done == old(state).done,
{
    push_bounded(&mut state.logs, BENCH_LOG_CAP, message);
}

/// A key on the load-test screen: quitting asks the test to stop (the status says
/// "Stopping"); `true` when the test should stop.
pub fn handle_key(state: &mut AppState, key: UiKey) -> (stop: bool)
    ensures
        stop == (key == UiKey::Quit),
        stop ==> final(state).status@ == "Stopping"@,
        !stop ==> final(state).status == old(state).status,
        final(state).logs@ == old(state).logs@,
        final(state).done == old(state).done,
{
    match key {
        UiKey::Quit => {
            state.status = "Stopping".to_owned();
            true
        },
        _ => false,
    }
}

/// What the debugger screen shows.
#[derive(Debug)]
pub struct NetDebugState {
    pub logs: VecDeque<String>,
    pub status: String,
    pub role: String,
    pub protocol: String,
    pub ip_version: String,
    pub local_addr: String,
    pub remote_addr: Option<String>,
    pub buffer_size: usize,
    pub interval_ms: u64,
    pub batch_size: usize,
    pub repeat: bool,
    pub max_speed: bool,
    pub quiet: bool,
}

impl NetDebugState {
    pub open spec fn wf(&self) -> bool {
        self.logs@.len() <= SESSION_LOG_CAP
    }
}

/// Appends a line to the debugger log (200 lines at most).
pub fn push_net_debug_log(state: &mut NetDebugState, message: String)
    requires
        old(state).wf(),
    ensures
        final(state).wf(),
        final(state).logs@ == bounded_push(old(state).logs@, SESSION_LOG_CAP as nat, message),
        final(state).status == old(state).status,
        final(state).quiet == old(state).quiet,
{
    push_bounded(&mut state.logs, SESSION_LOG_CAP, message);
}

/// A log text on one line: carriage returns and newlines written as `\r` and `\n`.
pub open spec fn spec_normalize_log(s: Seq<char>) -> Seq<char>
    decreases s.len(),
{
    if s.len() == 0 {
        Seq::empty()
    } else {
        let rest = spec_normalize_log(s.drop_last());
        let c = s.last();
        if c == '\r' {
            rest + seq!['\\', 'r']
        } else if c == '\n' {
            rest + seq!['\\', 'n']
        } else {
            rest.push(c)
        }
    }
}

/// A log text on one line.
pub fn normalize_log(text: &str) -> (r: String)
    ensures
        r@ == spec_normalize_log(text@),
{
    let cs = chars_of(text);
    let mut out = String::new();
    let mut i: usize = 0;
    while i < cs.len()
        invariant
            i <= cs@.len(),
            cs@ == text@,
            out@ == spec_normalize_log(text@.take(i as int)),
        decreases cs.len() - i,
    {
        let c = cs[i];
        proof {
            assert(text@.take(i + 1).drop_last() =~= text@.take(i as int));
            assert(text@.take(i + 1).last() == c);
        }
        if c == '\r' {
            push_char(&mut out, '\\');
            push_char(&mut out, 'r');
        } else if c == '\n' {
            push_char(&mut out, '\\');
            push_char(&mut out, 'n');
        } else {
            push_char(&mut out, c);
        }
        proof {
            assert(out@ =~= spec_normalize_log(text@.take(i + 1)));
        }
        i = i + 1;
    }
    proof {
        assert(text@.take(cs@.len() as int) =~= text@);
    }
    out
}

/// The log line of a debugger event, if it is logged: statuses and received data always,
/// sent data unless quiet.
pub open spec fn net_debug_log_line(quiet: bool, e: DebugEvent) -> Option<Seq<char>> {
    match e {
        DebugEvent::Status(m) => Some("[STATUS] "@ + spec_normalize_log(m@)),
        DebugEvent::Sent(m) => if quiet { None } else { Some("[SENT] "@ + spec_normalize_log(m@)) },
        DebugEvent::Received { content, source } => Some(
            match source {
                Some(a) => "[RECV] "@ + a@ + ": "@,
                None => "[RECV] "@,
            } + spec_normalize_log(content@),
        ),
    }
}

/// Shows a debugger event: a status becomes the current status; the event is logged
/// as [`net_debug_log_line`] says.
pub fn handle_net_debug_event(state: &mut NetDebugState, event: DebugEvent)
    requires
        old(state).wf(),
    ensures
        final(state).wf(),
        final(state).quiet == old(state).quiet,
        match event {
            DebugEvent::Status(m) => final(state).status == m,
            _ => final(state).status == old(state).status,
        },
        match net_debug_log_line(old(state).quiet, event) {
            Some(line) => final(state).logs@.len() == bounded_push(old(state).logs@, SESSION_LOG_CAP as nat, final(state).logs@.last()).len()
                && final(state).logs@ == bounded_push(old(state).logs@, SESSION_LOG_CAP as nat, final(state).logs@.last())
                && final(state).logs@.last()@ == line,
            None => final(state).logs@ == old(state).logs@,
        },
{
    match event {
        DebugEvent::Status(message) => {
            let line = concat("[STATUS] ", normalize_log(message.as_str()).as_str());
            state.status = message;
            push_net_debug_log(state, line);
        },
        DebugEvent::Sent(message) => {
            if !state.quiet {
                let line = concat("[SENT] ", normalize_log(message.as_str()).as_str());
                push_net_debug_log(state, line);
            }
        },
        DebugEvent::Received { content, source } => {
            let prefix = match &source {
                Some(addr) => {
                    let head = concat("[RECV] ", addr.as_str());
                    concat(head.as_str(), ": ")
                },
                None => "[RECV] ".to_owned(),
            };
            let line = concat(prefix.as_str(), normalize_log(content.as_str()).as_str());
            push_net_debug_log(state, line);
        },
    }
}

/// The last `max_lines` lines (all of them when fewer), none for zero.
pub open spec fn spec_tail(logs: Seq<String>, max_lines: nat) -> Seq<String> {
    if max_lines == 0 {
        Seq::empty()
    } else if logs.len() <= max_lines {
        logs
    } else {
        logs.skip(logs.len() - max_lines)
    }
}

/// The last `max_lines` log lines.
pub fn tail_lines(logs: &VecDeque<String>, max_lines: usize) -> (r: Vec<String>)
    ensures
        r@ == spec_tail(logs@, max_lines as nat),
{
    let mut out: Vec<String> = Vec::new();
    if max_lines == 0 {
        return out;
    }
    let len = logs.len();
    let start = if len > max_lines { len - max_lines } else { 0 };
    let mut i = start;
    while i < len
        invariant
            start <= i <= len,
            len == logs@.len(),
            out@ == logs@.subrange(start as int, i as int),
        decreases len - i,
    {
        let line = logs[i].clone();
        assert(line == logs@[i as int]);
        out.push(line);
        proof {
            assert(out@ =~= logs@.subrange(start as int, i + 1));
        }
        i = i + 1;
    }
    proof {
        assert(logs@.subrange(start as int, len as int) =~= spec_tail(logs@, max_lines as nat));
    }
    out
}

/// What a proxy or SOCKS5 screen shows: logs, the status and its history, the last
/// snapshot, and where the client table is scrolled to.
#[derive(Debug)]
pub struct ServerState {
    pub logs: VecDeque<String>,
    pub status: String,
    pub listen_addr: String,
    pub snapshot: Option<TrafficSnapshot>,
    pub status_history: VecDeque<String>,
    pub client_offset: usize,
    pub client_page_size: usize,
    pub peak_active: u64,
}

/// The proxy screen.
pub type ProxyState = ServerState;

/// The SOCKS5 screen.
pub type Socks5State = ServerState;

impl ServerState {
    pub open spec fn wf(&self) -> bool {
        &&& self.logs@.len() <= SESSION_LOG_CAP
        &&& self.status_history@.len() <= STATUS_HISTORY_CAP
    }

    /// Clients in the last snapshot.
    pub open spec fn client_count(&self) -> nat {
        match self.snapshot {
            Some(s) => s.clients@.len(),
            None => 0,
        }
    }

    /// The furthest the client table scrolls: the last page starts there.
    pub open spec fn spec_max_offset(&self) -> nat {
        let page: nat = if self.client_page_size == 0 { 1 } else { self.client_page_size as nat };
        if self.client_count() > page { (self.client_count() - page) as nat } else { 0 }
    }

    /// The furthest the client table scrolls.
    pub fn max_client_offset(&self) -> (r: usize)
        ensures
            r == self.spec_max_offset(),
    {
        let len = match &self.snapshot {
            Some(s) => s.clients.len(),
            None => 0,
        };
        let page = if self.client_page_size == 0 { 1 } else { self.client_page_size };
        if len > page {
            len - page
        } else {
            0
        }
    }
}

/// Appends a line to a server screen's log (200 lines at most).
pub fn push_server_log(state: &mut ServerState, message: String)
    requires
        old(state).wf(),
    ensures
        final(state).wf(),
        final(state).logs@ == bounded_push(old(state).logs@, SESSION_LOG_CAP as nat, message),
        final(state).status_history@ == old(state).status_history@,
        final(state).status == old(state).status,
        final(state).snapshot == old(state).snapshot,
        final(state).client_offset == old(state).client_offset,
        final(state).client_page_size == old(state).client_page_size,
        final(state).peak_active == old(state).peak_active,
{
    push_bounded(&mut state.logs, SESSION_LOG_CAP, message);
}

/// Puts a status first in a server screen's history (five at most).
pub fn push_server_status(state: &mut ServerState, message: String)
    requires
        old(state).wf(),
    ensures
        final(state).wf(),
        final(state).status_history@ == history_push(old(state).status_history@, STATUS_HISTORY_CAP as nat, message),
        final(state).logs@ == old(state).logs@,
        final(state).status == old(state).status,
        final(state).snapshot == old(state).snapshot,
        final(state).client_offset == old(state).client_offset,
        final(state).client_page_size == old(state).client_page_size,
        final(state).peak_active == old(state).peak_active,
{
    push_history(&mut state.status_history, STATUS_HISTORY_CAP, message);
}

/// Appends a line to the proxy log.
pub fn push_proxy_log(state: &mut ProxyState, message: String)
    requires
        old(state).wf(),
    ensures
        final(state).wf(),
        final(state).logs@ == bounded_push(old(state).logs@, SESSION_LOG_CAP as nat, message),
        final(state).status_history@ == old(state).status_history@,
{
    push_server_log(state, message);
}

/// Puts a status first in the proxy's history.
pub fn push_proxy_status(state: &mut ProxyState, message: String)
    requires
        old(state).wf(),
    ensures
        final(state).wf(),
        final(state).status_history@ == history_push(old(state).status_history@, STATUS_HISTORY_CAP as nat, message),
        final(state).logs@ == old(state).logs@,
{
    push_server_status(state, message);
}

/// Appends a line to the SOCKS5 log.
pub fn push_socks5_log(state: &mut Socks5State, message: String)
    requires
        old(state).wf(),
    ensures
        final(state).wf(),
        final(state).logs@ == bounded_push(old(state).logs@, SESSION_LOG_CAP as nat, message),
        final(state).status_history@ == old(state).status_history@,
{
    push_server_log(state, message);
}

/// Puts a status first in the SOCKS5 server's history.
pub fn push_socks5_status(state: &mut Socks5State, message: String)
    requires
        old(state).wf(),
    ensures
        final(state).wf(),
        final(state).status_history@ == history_push(old(state).status_history@, STATUS_HISTORY_CAP as nat, message),
        final(state).logs@ == old(state).logs@,
{
    push_server_status(state, message);
}

/// `after` is `before` showing a status message: it becomes the current status, is
/// logged with a `[STATUS] ` prefix and goes first in the history; nothing else changes.
pub open spec fn shows_status(before: ServerState, after: ServerState, message: String) -> bool {
    &&& after.status == message
    &&& after.logs@.len() > 0
    &&& after.logs@.last()@ == "[STATUS] "@ + message@
    &&& after.logs@ == bounded_push(before.logs@, SESSION_LOG_CAP as nat, after.logs@.last())
    &&& after.status_history@ == history_push(before.status_history@, STATUS_HISTORY_CAP as nat, message)
    &&& after.snapshot == before.snapshot
    &&& after.client_offset == before.client_offset
    &&& after.client_page_size == before.client_page_size
    &&& after.peak_active == before.peak_active
}

/// `after` is `before` showing a new snapshot: it is shown, the peak of active
/// connections is kept, and the client table is scrolled back if it went past the last
/// page; nothing else changes.
pub open spec fn shows_snapshot(before: ServerState, after: ServerState, snapshot: TrafficSnapshot) -> bool {
    &&& after.snapshot == Some(snapshot)
    &&& after.peak_active == if snapshot.active_connections > before.peak_active {
        snapshot.active_connections
    } else {
        before.peak_active
    }
    &&& after.client_offset == if before.client_offset > after.spec_max_offset() {
        after.spec_max_offset() as usize
    } else {
        before.client_offset
    }
    &&& after.logs@ == before.logs@
    &&& after.status_history@ == before.status_history@
    &&& after.status == before.status
    &&& after.client_page_size == before.client_page_size
}

/// A status message: it becomes the current status, is logged with a `[STATUS] `
/// prefix and goes first in the history.
pub fn show_server_status(state: &mut ServerState, message: String)
    requires
        old(state).wf(),
    ensures
        final(state).wf(),
        shows_status(*old(state), *final(state), message),
{
    let line = concat("[STATUS] ", message.as_str());
    state.status = message.clone();
    push_server_log(state, line);
    push_server_status(state, message);
}

/// A new snapshot: it is shown, the peak of active connections is kept, and the client
/// table is scrolled back if it went past the last page.
pub fn show_server_snapshot(state: &mut ServerState, snapshot: TrafficSnapshot)
    requires
        old(state).wf(),
    ensures
        final(state).wf(),
        shows_snapshot(*old(state), *final(state), snapshot),
{
    if snapshot.active_connections > state.peak_active {
        state.peak_active = snapshot.active_connections;
    }
    state.snapshot = Some(snapshot);
    let max_offset = state.max_client_offset();
    if state.client_offset > max_offset {
        state.client_offset = max_offset;
    }
}

/// Shows a proxy event.
pub fn handle_proxy_event(state: &mut ProxyState, event: ProxyEvent)
    requires
        old(state).wf(),
    ensures
        final(state).wf(),
        match event {
            ProxyEvent::Status(m) => shows_status(*old(state), *final(state), m),
            ProxyEvent::Snapshot(s) => shows_snapshot(*old(state), *final(state), s),
        },
{
    match event {
        ProxyEvent::Status(message) => show_server_status(state, message),
        ProxyEvent::Snapshot(snapshot) => show_server_snapshot(state, snapshot),
    }
}

/// Shows a SOCKS5 event.
pub fn handle_socks5_event(state: &mut Socks5State, event: Socks5Event)
    requires
        old(state).wf(),
    ensures
        final(state).wf(),
        match event {
            Socks5Event::Status(m) => shows_status(*old(state), *final(state), m),
            Socks5Event::Snapshot(s) => shows_snapshot(*old(state), *final(state), s),
        },
{
    match event {
        Socks5Event::Status(message) => show_server_status(state, message),
        Socks5Event::Snapshot(snapshot) => show_server_snapshot(state, snapshot),
    }
}

/// Where the client table is scrolled to after a key (saturating at `usize::MAX`).
pub open spec fn scrolled_offset(offset: usize, page_size: usize, max_offset: nat, key: UiKey) -> usize {
    let step: int = if page_size == 0 { 1 } else { page_size as int };
    let down = |n: int| if n > max_offset { max_offset as int } else { n };
    match key {
        UiKey::Up => if offset > 0 { (offset - 1) as usize } else { offset },
        UiKey::Down => down(if offset + 1 > usize::MAX { usize::MAX as int } else { offset + 1 }) as usize,
        UiKey::PageUp => if offset > step { (offset - step) as usize } else { 0 },
        UiKey::PageDown => down(if offset + step > usize::MAX { usize::MAX as int } else { offset + step }) as usize,
        _ => offset,
    }
}

/// A key on a server screen: quitting ends the screen (`true`); the arrows move the
/// client table one row and the page keys one page, never past the last page.
pub fn handle_server_key(state: &mut ServerState, key: UiKey) -> (quit: bool)
    ensures
        quit == (key == UiKey::Quit),
        final(state).client_offset == scrolled_offset(
            old(state).client_offset,
            old(state).client_page_size,
            old(state).spec_max_offset(),
            key,
        ),
        final(state).logs@ == old(state).logs@,
        final(state).status_history@ == old(state).status_history@,
        final(state).snapshot == old(state).snapshot,
        final(state).client_page_size == old(state).client_page_size,
        final(state).status == old(state).status,
        final(state).peak_active == old(state).peak_active,
{
    let step = if state.client_page_size == 0 { 1 } else { state.client_page_size };
    match key {
        UiKey::Quit => true,
        UiKey::Up => {
            if state.client_offset > 0 {
                state.client_offset = state.client_offset - 1;
            }
            false
        },
        UiKey::Down => {
            let max_offset = state.max_client_offset();
            let next = state.client_offset.saturating_add(1);
            state.client_offset = if next > max_offset { max_offset } else { next };
            false
        },
        UiKey::PageUp => {
            state.client_offset = state.client_offset.saturating_sub(step);
            false
        },
        UiKey::PageDown => {
            let max_offset = state.max_client_offset();
            let next = state.client_offset.saturating_add(step);
            state.client_offset = if next > max_offset { max_offset } else { next };
            false
        },
        UiKey::Other => false,
    }
}

/// A key on the proxy screen.
pub fn handle_proxy_key(state: &mut ProxyState, key: UiKey) -> (quit: bool)
    ensures
        quit == (key == UiKey::Quit),
        final(state).client_offset == scrolled_offset(
            old(state).client_offset,
            old(state).client_page_size,
            old(state).spec_max_offset(),
            key,
        ),
        final(state).snapshot == old(state).snapshot,
{
    handle_server_key(state, key)
}

/// A key on the SOCKS5 screen.
pub fn handle_socks5_key(state: &mut Socks5State, key: UiKey) -> (quit: bool)
    ensures
        quit == (key == UiKey::Quit),
        final(state).client_offset == scrolled_offset(
            old(state).client_offset,
            old(state).client_page_size,
            old(state).spec_max_offset(),
            key,
        ),
        final(state).snapshot == old(state).snapshot,
{
    handle_server_key(state, key)
}

/// A key on the debugger screen: `true` to quit.
pub fn handle_net_debug_key(key: UiKey) -> (quit: bool)
    ensures
        quit == (key == UiKey::Quit),
{
    match key {
        UiKey::Quit => true,
        _ => false,
    }
}

/// The clients shown in the table: from the scroll offset (never past the last page),
/// one page of at least one row.
pub fn visible_client_range(state: &ServerState) -> (r: (usize, usize))
    ensures
        ({
            let offset = if state.client_offset > state.spec_max_offset() {
                state.spec_max_offset()
            } else {
                state.client_offset as nat
            };
            let rows: nat = if state.client_page_size == 0 { 1 } else { state.client_page_size as nat };
            &&& r.0 == offset
            &&& r.1 == if offset + rows > state.client_count() { state.client_count() } else { offset + rows }
        }),
{
    let max_offset = state.max_client_offset();
    let offset = if state.client_offset > max_offset { max_offset } else { state.client_offset };
    let rows = if state.client_page_size == 0 { 1 } else { state.client_page_size };
    let len = match &state.snapshot {
        Some(s) => s.clients.len(),
        None => 0,
    };
    let end = if rows > len - offset { len } else { offset + rows };
    (offset, end)
}

/// `parts` joined with `sep` between them.
pub open spec fn join(parts: Seq<Seq<char>>, sep: Seq<char>) -> Seq<char>
    decreases parts.len(),
{
    if parts.len() == 0 {
        Seq::empty()
    } else if parts.len() == 1 {
        parts[0]
    } else {
        join(parts.drop_last(), sep) + sep + parts.last()
    }
}

/// The views of a list of strings.
pub open spec fn string_views(v: Seq<String>) -> Seq<Seq<char>> {
    v.map_values(|s: String| s@)
}

/// Joins lines with `sep`.
pub fn join_strings(parts: &Vec<String>, sep: &str) -> (r: String)
    ensures
        r@ == join(string_views(parts@), sep@),
{
    let ghost sv = string_views(parts@);
    let sep_chars = chars_of(sep);
    let mut out = String::new();
    let mut i: usize = 0;
    while i < parts.len()
        invariant
            i <= parts@.len(),
            sv == string_views(parts@),
            sep_chars@ == sep@,
            out@ == join(sv.take(i as int), sep@),
        decreases parts.len() - i,
    {
        proof {
            assert(sv.take(i + 1).drop_last() =~= sv.take(i as int));
            assert(sv.take(i + 1).last() == parts@[i as int]@);
        }
        if i > 0 {
            push_chars(&mut out, sep_chars.as_slice());
        } else {
            assert(sv.take(0) =~= Seq::<Seq<char>>::empty());
        }
        let piece = chars_of(parts[i].as_str());
        push_chars(&mut out, piece.as_slice());
        proof {
            if i == 0 {
                assert(out@ =~= sv.take(1)[0]);
            } else {
                assert(out@ =~= join(sv.take(i + 1), sep@));
            }
        }
        i = i + 1;
    }
    proof {
        assert(sv.take(parts@.len() as int) =~= sv);
    }
    out
}

/// A target with its count, as the client table shows it: `target` `x` `count`.
pub open spec fn target_entry(t: TargetStat) -> Seq<char> {
    t.target@ + "x"@ + decimal(t.count as nat)
}

/// The client table's "Top" cell: the first two targets, or `-` without any.
pub open spec fn spec_top_targets_text(ts: Seq<TargetStat>) -> Seq<char> {
    if ts.len() == 0 {
        "-"@
    } else {
        join(ts.take(if ts.len() < 2 { ts.len() as int } else { 2 }).map_values(|t: TargetStat| target_entry(t)), ", "@)
    }
}

/// The client table's "Top" cell.
pub fn format_top_targets(targets: &[TargetStat]) -> (r: String)
    ensures
        r@ == spec_top_targets_text(targets@),
{
    if targets.len() == 0 {
        return "-".to_owned();
    }
    let n: usize = if targets.len() < 2 { targets.len() } else { 2 };
    let mut parts: Vec<String> = Vec::new();
    let mut i: usize = 0;
    while i < n
        invariant
            i <= n,
            n <= targets@.len(),
            string_views(parts@) == targets@.take(i as int).map_values(|t: TargetStat| target_entry(t)),
        decreases n - i,
    {
        let mut entry = concat(targets[i].target.as_str(), "x");
        push_decimal(&mut entry, targets[i].count);
        let ghost before = string_views(parts@);
        parts.push(entry);
        proof {
            reveal_strlit("x");
            assert(string_views(parts@) =~= before.push(target_entry(targets@[i as int])));
            assert(targets@.take(i + 1).map_values(|t: TargetStat| target_entry(t)) =~= targets@.take(
                i as int,
            ).map_values(|t: TargetStat| target_entry(t)).push(target_entry(targets@[i as int])));
        }
        i = i + 1;
    }
    join_strings(&parts, ", ")
}

/// The status panel of a server screen: its history, or `No status yet`.
pub fn status_lines(state: &ServerState) -> (r: Vec<String>)
    ensures
        state.status_history@.len() == 0 ==> r@.len() == 1 && r@[0]@ == "No status yet"@,
        state.status_history@.len() > 0 ==> r@ == state.status_history@,
{
    let mut out: Vec<String> = Vec::new();
    if state.status_history.len() == 0 {
        out.push("No status yet".to_owned());
        return out;
    }
    let mut i: usize = 0;
    while i < state.status_history.len()
        invariant
            i <= state.status_history@.len(),
            out@ == state.status_history@.take(i as int),
        decreases state.status_history.len() - i,
    {
        let line = state.status_history[i].clone();
        out.push(line);
        proof {
            assert(out@ =~= state.status_history@.take(i + 1));
        }
        i = i + 1;
    }
    proof {
        assert(state.status_history@.take(state.status_history@.len() as int) =~= state.status_history@);
    }
    out
}

/// The log panel of a session screen `height` rows tall: the lines that fit inside its
/// border, or the exit hint before there are any.
pub fn session_log_text(logs: &VecDeque<String>, height: u16) -> (r: String)
    ensures
        logs@.len() == 0 ==> r@ == "Press q/Esc to exit"@,
        logs@.len() > 0 ==> r@ == join(
            string_views(spec_tail(logs@, if height >= 2 { (height - 2) as nat } else { 0 })),
            "\n"@,
        ),
{
    if logs.len() == 0 {
        return "Press q/Esc to exit".to_owned();
    }
    let max_lines: usize = if height >= 2 { (height - 2) as usize } else { 0 };
    let lines = tail_lines(logs, max_lines);
    join_strings(&lines, "\n")
}

/// The log panel of the load-test screen: all lines, or a hint before there are any.
pub fn bench_log_text(state: &AppState) -> (r: String)
    ensures
        state.logs@.len() == 0 && state.done ==> r@ == "Done. Press q/Esc to exit"@,
        state.logs@.len() == 0 && !state.done ==> r@ == "Press q/Esc to stop"@,
        state.logs@.len() > 0 ==> r@ == join(string_views(state.logs@), "\n"@),
{
    if state.logs.len() == 0 {
        if state.done {
            return "Done. Press q/Esc to exit".to_owned();
        } else {
            return "Press q/Esc to stop".to_owned();
        }
    }
    let lines = tail_lines(&state.logs, state.logs.len());
    proof {
        assert(spec_tail(state.logs@, state.logs@.len()) == state.logs@);
    }
    join_strings(&lines, "\n")
}

/// The target panel of the debugger screen.
pub fn net_debug_target_lines(state: &NetDebugState) -> (r: Vec<String>)
    ensures
        r@.len() == 3,
        r@[0]@ == "Status: "@ + state.status@,
        r@[1]@ == "Local: "@ + state.local_addr@,
        r@[2]@ == match state.remote_addr {
            Some(a) => "Remote: "@ + a@,
            None => "Remote: -"@,
        },
{
    let mut out: Vec<String> = Vec::new();
    out.push(concat("Status: ", state.status.as_str()));
    out.push(concat("Local: ", state.local_addr.as_str()));
    match &state.remote_addr {
        Some(a) => out.push(concat("Remote: ", a.as_str())),
        None => out.push("Remote: -".to_owned()),
    }
    out
}

/// A whitespace character in Unicode's sense (`char::is_whitespace`).
pub open spec fn is_unicode_space(c: char) -> bool {
    let u = c as u32;
    ||| (0x09 <= u && u <= 0x0D)
    ||| u == 0x20 || u == 0x85 || u == 0xA0 || u == 0x1680
    ||| (0x2000 <= u && u <= 0x200A)
    ||| u == 0x2028 || u == 0x2029 || u == 0x202F || u == 0x205F || u == 0x3000
}

/// `r` is `s` without leading and trailing whitespace (`str::trim`).
pub open spec fn is_trim_of(r: Seq<char>, s: Seq<char>) -> bool {
    exists|a: int, b: int|
        {
            &&& 0 <= a <= b <= s.len()
            &&& forall|i: int| 0 <= i < a ==> is_unicode_space(#[trigger] s[i])
            &&& forall|i: int| b <= i < s.len() ==> is_unicode_space(#[trigger] s[i])
            &&& a < b ==> !is_unicode_space(s[a]) && !is_unicode_space(s[b - 1])
            &&& r == s.subrange(a, b)
        }
}

fn is_space(c: char) -> (r: bool)
    ensures
        r == is_unicode_space(c),
{
    let u = c as u32;
    (0x09 <= u && u <= 0x0D) || u == 0x20 || u == 0x85 || u == 0xA0 || u == 0x1680 || (0x2000 <= u && u
        <= 0x200A) || u == 0x2028 || u == 0x2029 || u == 0x202F || u == 0x205F || u == 0x3000
}

/// The characters `cs[start..end]` without leading and trailing whitespace.
fn trim_range(cs: &Vec<char>, start: usize, end: usize) -> (r: String)
    requires
        start <= end <= cs@.len(),
    ensures
        is_trim_of(r@, cs@.subrange(start as int, end as int)),
{
    let ghost s = cs@.subrange(start as int, end as int);
    let mut a = start;
    while a < end && is_space(cs[a])
        invariant
            start <= a <= end,
            end <= cs@.len(),
            forall|i: int| start <= i < a ==> is_unicode_space(#[trigger] cs@[i]),
        decreases end - a,
    {
        a = a + 1;
    }
    let mut b = end;
    while b > a && is_space(cs[b - 1])
        invariant
            a <= b <= end,
            end <= cs@.len(),
            forall|i: int| b <= i < end ==> is_unicode_space(#[trigger] cs@[i]),
        decreases b - a,
    {
        b = b - 1;
    }
    let mut out = String::new();
    let mut k = a;
    while k < b
        invariant
            a <= k <= b,
            b <= cs@.len(),
            out@ == cs@.subrange(a as int, k as int),
        decreases b - k,
    {
        push_char(&mut out, cs[k]);
        proof {
            assert(out@ =~= cs@.subrange(a as int, k + 1));
        }
        k = k + 1;
    }
    proof {
        let a0 = a - start;
        let b0 = b - start;
        assert(forall|i: int| 0 <= i < a0 ==> s[i] == cs@[start + i]);
        assert(forall|i: int| b0 <= i < s.len() ==> s[i] == cs@[start + i]);
        assert(out@ =~= s.subrange(a0, b0));
        if a0 < b0 {
            assert(s[a0] == cs@[a as int]);
            assert(s[b0 - 1] == cs@[b - 1]);
        }
        assert(is_trim_of(out@, s));
    }
    out
}

/// `raw` split at its first `:`, each side trimmed; none without a colon.
pub open spec fn header_arg_ok(raw: Seq<char>, k: Seq<char>, v: Seq<char>) -> bool {
    exists|p: int|
        {
            &&& 0 <= p < raw.len()
            &&& #[trigger] raw[p] == ':'
            &&& forall|q: int| 0 <= q < p ==> raw[q] != ':'
            &&& is_trim_of(k, raw.subrange(0, p))
            &&& is_trim_of(v, raw.subrange(p + 1, raw.len() as int))
        }
}

/// Parses `Key:Value` header arguments: each splits at its first colon and both sides
/// are trimmed; an argument without a colon is refused.
pub fn parse_headers(headers: &[String]) -> (r: Result<Vec<(String, String)>, String>)
    ensures
        match r {
            Ok(v) => v@.len() == headers@.len() && forall|i: int| 0 <= i < v@.len() ==> header_arg_ok(
                headers@[i]@,
                #[trigger] v@[i].0@,
                v@[i].1@,
            ),
            Err(e) => exists|i: int|
                0 <= i < headers@.len() && !(#[trigger] headers@[i]@).contains(':') && (forall|j: int|
                    0 <= j < i ==> headers@[j]@.contains(':')) && e@ == "invalid header format: "@ + headers@[i]@,
        },
{
    let mut parsed: Vec<(String, String)> = Vec::new();
    let mut i: usize = 0;
    while i < headers.len()
        invariant
            i <= headers@.len(),
            parsed@.len() == i,
            forall|q: int| 0 <= q < i ==> headers@[q]@.contains(':'),
            forall|q: int| 0 <= q < i ==> header_arg_ok(headers@[q]@, #[trigger] parsed@[q].0@, parsed@[q].1@),
        decreases headers.len() - i,
    {
        let cs = chars_of(headers[i].as_str());
        let mut p: usize = 0;
        while p < cs.len() && cs[p] != ':'
            invariant
                p <= cs@.len(),
                forall|q: int| 0 <= q < p ==> cs@[q] != ':',
            decreases cs.len() - p,
        {
            p = p + 1;
        }
        if p == cs.len() {
            assert(!headers@[i as int]@.contains(':')) by {
                assert(cs@ == headers@[i as int]@);
            }
            return Err(concat("invalid header format: ", headers[i].as_str()));
        }
        let k = trim_range(&cs, 0, p);
        let v = trim_range(&cs, p + 1, cs.len());
        proof {
            assert(cs@ == headers@[i as int]@);
            assert(headers@[i as int]@[p as int] == ':');
            assert(header_arg_ok(headers@[i as int]@, k@, v@));
            assert(headers@[i as int]@.contains(':'));
        }
        parsed.push((k, v));
        i = i + 1;
    }
    Ok(parsed)
}

/// The debugger's command-line arguments.
#[derive(Clone, Debug)]
pub struct NetDebugArgs {
    pub destination: Option<String>,
    pub server: bool,
    pub tcp: bool,
    pub ipv6: bool,
    pub port: u16,
    pub buffer_size: usize,
    pub quiet: bool,
    pub repeat: bool,
    pub max_speed: bool,
    pub batch_size: usize,
    pub data: Option<String>,
    pub input: Option<String>,
    pub interval_ms: u64,
}

/// Whether the session sends on its own: clients always, servers when repeating or at
/// maximum speed.
pub open spec fn spec_needs_payloads(args: NetDebugArgs) -> bool {
    !args.server || args.repeat || args.max_speed
}

/// Whether payloads must be loaded for these arguments.
pub fn needs_payloads(args: &NetDebugArgs) -> (r: bool)
    ensures
        r == spec_needs_payloads(*args),
{
    !args.server || args.repeat || args.max_speed
}

/// `x`, at least one.
pub open spec fn at_least_one(x: usize) -> usize {
    if x == 0 { 1 } else { x }
}

/// The session a debugger run gets from its arguments: the protocol, role and family
/// they pick, the wildcard local host of the family, the server's port or an
/// ephemeral one, the destination of a client, and a send plan when it sends.
pub open spec fn net_debug_config_from(c: DebugConfig, args: NetDebugArgs, payloads: Seq<Vec<u8>>) -> bool {
    &&& c.protocol == if args.tcp { Protocol::Tcp } else { Protocol::Udp }
    &&& c.role == if args.server { Role::Server } else { Role::Client }
    &&& c.ip_version == if args.ipv6 { IpVersion::Ipv6 } else { IpVersion::Ipv4 }
    &&& c.host@ == if args.ipv6 { "::"@ } else { "0.0.0.0"@ }
    &&& c.local_port == if args.server { args.port } else { 0 }
    &&& c.remote_host@ == if args.server { Seq::<char>::empty() } else { args.destination->Some_0@ }
    &&& c.remote_port == if args.server { 0 } else { args.port }
    &&& c.buffer_size == at_least_one(args.buffer_size)
    &&& match c.send_plan {
        Some(p) => spec_needs_payloads(args) && p.payloads@ == payloads && p.interval_ms == (if args.interval_ms == 0 {
            1
        } else {
            args.interval_ms
        }) && p.batch_size == at_least_one(args.batch_size) && p.repeat == args.repeat && p.max_speed
            == args.max_speed,
        None => !spec_needs_payloads(args),
    }
}

/// What the debugger screen starts with for these arguments.
pub open spec fn net_debug_state_from(st: NetDebugState, c: DebugConfig, args: NetDebugArgs) -> bool {
    &&& st.logs@.len() == 0
    &&& st.status@ == "Ready"@
    &&& st.role@ == if args.server { "Server"@ } else { "Client"@ }
    &&& st.protocol@ == if args.tcp { "TCP"@ } else { "UDP"@ }
    &&& st.ip_version@ == if args.ipv6 { "IPv6"@ } else { "IPv4"@ }
    &&& st.local_addr@ == spec_host_port(c.host@, c.local_port)
    &&& st.remote_addr == if args.server { None } else { Some(st.remote_addr->Some_0) }
    &&& !args.server ==> st.remote_addr->Some_0@ == spec_host_port(c.remote_host@, c.remote_port)
    &&& st.buffer_size == at_least_one(args.buffer_size)
    &&& st.interval_ms == if args.interval_ms == 0 { 1 } else { args.interval_ms }
    &&& st.batch_size == at_least_one(args.batch_size)
    &&& st.repeat == args.repeat
    &&& st.max_speed == args.max_speed
    &&& st.quiet == args.quiet
}

/// The debugger session and screen for the arguments, with `payloads` loaded exactly
/// when the session sends: a client needs a destination, and payloads that failed to
/// load fail the setup.
pub fn build_net_debug_config(args: &NetDebugArgs, payloads: Option<Result<Vec<Vec<u8>>, String>>) -> (r: Result<
    (DebugConfig, NetDebugState),
    String,
>)
    requires
        payloads is Some <==> spec_needs_payloads(*args),
    ensures
        !args.server && args.destination is None ==> r is Err && r->Err_0@
            == "DESTINATION is required in client mode"@,
        !(!args.server && args.destination is None) ==> (payloads matches Some(Err(e)) ==> r == Err::<
            (DebugConfig, NetDebugState),
            String,
        >(e)),
        !(!args.server && args.destination is None) && !(payloads matches Some(Err(_))) ==> r is Ok && net_debug_config_from(
            r->Ok_0.0,
            *args,
            match payloads {
                Some(Ok(p)) => p@,
                _ => Seq::empty(),
            },
        ) && net_debug_state_from(r->Ok_0.1, r->Ok_0.0, *args),
{
    let protocol = if args.tcp { Protocol::Tcp } else { Protocol::Udp };
    let role = if args.server { Role::Server } else { Role::Client };
    let ip_version = if args.ipv6 { IpVersion::Ipv6 } else { IpVersion::Ipv4 };
    let local_host: &str = if args.ipv6 { "::" } else { "0.0.0.0" };
    let (remote_host, remote_port) = if !args.server {
        match &args.destination {
            Some(d) => (d.clone(), args.port),
            None => {
                return Err("DESTINATION is required in client mode".to_owned());
            },
        }
    } else {
        (String::new(), 0u16)
    };
    let local_port: u16 = if args.server { args.port } else { 0 };
    let interval_ms: u64 = if args.interval_ms == 0 { 1 } else { args.interval_ms };
    let batch_size: usize = if args.batch_size == 0 { 1 } else { args.batch_size };
    let buffer_size: usize = if args.buffer_size == 0 { 1 } else { args.buffer_size };
    let send_plan = match payloads {
        Some(Ok(p)) => Some(SendPlan { payloads: p, interval_ms, batch_size, repeat: args.repeat, max_speed: args.max_speed }),
        Some(Err(e)) => {
            return Err(e);
        },
        None => None,
    };
    let local_addr = format_host_port(local_host, local_port);
    let remote_addr = if !args.server {
        Some(format_host_port(remote_host.as_str(), remote_port))
    } else {
        None
    };
    let config = DebugConfig {
        protocol,
        role,
        ip_version,
        host: local_host.to_owned(),
        local_port,
        remote_host,
        remote_port,
        buffer_size,
        send_plan,
    };
    let state = NetDebugState {
        logs: VecDeque::new(),
        status: "Ready".to_owned(),
        role: if args.server { "Server".to_owned() } else { "Client".to_owned() },
        protocol: if args.tcp { "TCP".to_owned() } else { "UDP".to_owned() },
        ip_version: if args.ipv6 { "IPv6".to_owned() } else { "IPv4".to_owned() },
        local_addr,
        remote_addr,
        buffer_size,
        interval_ms,
        batch_size,
        repeat: args.repeat,
        max_speed: args.max_speed,
        quiet: args.quiet,
    };
    Ok((config, state))
}

/// The load tester's command-line arguments (the rate limit as the pacing interval it
/// gives).
#[derive(Clone, Debug)]
pub struct BenchArgs {
    pub url: String,
    pub method: String,
    pub concurrency: usize,
    pub ramp_up_secs: u64,
    pub iterations_per_worker: Option<u64>,
    pub total_requests_limit: Option<u64>,
    pub duration_secs: u64,
    pub timeout_ms: u64,
    pub body: Option<String>,
    pub headers: Vec<String>,
    pub response_mode: ResponseMode,
    pub metrics_mode: MetricsMode,
    pub connection_mode: ConnectionMode,
    pub pacing_interval_nanos: Option<u64>,
    pub rps_mode: RpsMode,
    pub allow_insecure_certs: bool,
    pub report_interval_ms: u64,
    pub max_latency_samples: usize,
}

/// `x * k`, capped at `u64::MAX`.
pub open spec fn scaled(x: u64, k: u64) -> u64 {
    if x * k > u64::MAX { u64::MAX } else { (x * k) as u64 }
}

fn scale(x: u64, k: u64) -> (r: u64)
    ensures
        r == scaled(x, k),
{
    match x.checked_mul(k) {
        Some(p) => p,
        None => u64::MAX,
    }
}

/// The load test the arguments describe: at least a one-second run and a 100 ms
/// timeout and report interval, at least one latency sample, the body as UTF-8 bytes
/// and the headers parsed (times beyond `u64::MAX` nanoseconds are capped).
pub fn build_config(args: &BenchArgs) -> (r: Result<LoadTestConfig, String>)
    ensures
        match r {
            Ok(c) => {
                &&& c.url == args.url
                &&& c.method == args.method
                &&& c.concurrency == args.concurrency
                &&& c.duration_nanos == scaled(if args.duration_secs == 0 { 1 } else { args.duration_secs }, 1_000_000_000)
                &&& c.timeout_nanos == scaled(if args.timeout_ms < 100 { 100 } else { args.timeout_ms }, 1_000_000)
                &&& c.body == match args.body {
                    Some(b) => Some(c.body->Some_0),
                    None => None::<Vec<u8>>,
                }
                &&& args.body is Some ==> c.body->Some_0@ == vstd::utf8::encode_utf8(args.body->Some_0@)
                &&& c.headers@.len() == args.headers@.len()
                &&& forall|i: int| 0 <= i < c.headers@.len() ==> header_arg_ok(args.headers@[i]@, #[trigger] c.headers@[i].0@, c.headers@[i].1@)
                &&& c.response_mode == args.response_mode
                &&& c.metrics_mode == args.metrics_mode
                &&& c.connection_mode == args.connection_mode
                &&& c.pacing_interval_nanos == args.pacing_interval_nanos
                &&& c.rps_mode == args.rps_mode
                &&& c.allow_insecure_certs == args.allow_insecure_certs
                &&& c.report_interval_nanos == scaled(if args.report_interval_ms < 100 { 100 } else { args.report_interval_ms }, 1_000_000)
                &&& c.max_latency_samples == at_least_one(args.max_latency_samples)
                &&& c.ramp_up_nanos == scaled(args.ramp_up_secs, 1_000_000_000)
                &&& c.iterations_per_worker == args.iterations_per_worker
                &&& c.total_requests_limit == args.total_requests_limit
            },
            Err(e) => exists|i: int|
                0 <= i < args.headers@.len() && !(#[trigger] args.headers@[i]@).contains(':') && e@
                    == "invalid header format: "@ + args.headers@[i]@,
        },
{
    let headers = match parse_headers(args.headers.as_slice()) {
        Ok(h) => h,
        Err(e) => {
            return Err(e);
        },
    };
    let duration_secs = if args.duration_secs == 0 { 1 } else { args.duration_secs };
    let timeout_ms = if args.timeout_ms < 100 { 100 } else { args.timeout_ms };
    let report_ms = if args.report_interval_ms < 100 { 100 } else { args.report_interval_ms };
    let mut config = LoadTestConfig::new(
        args.url.clone(),
        args.method.clone(),
        args.concurrency,
        scale(duration_secs, 1_000_000_000),
        scale(timeout_ms, 1_000_000),
    );
    config.body = match &args.body {
        Some(b) => Some(utf8_bytes(b.as_str())),
        None => None,
    };
    config.headers = headers;
    config.response_mode = args.response_mode;
    config.metrics_mode = args.metrics_mode;
    config.connection_mode = args.connection_mode;
    config.pacing_interval_nanos = args.pacing_interval_nanos;
    config.rps_mode = args.rps_mode;
    config.allow_insecure_certs = args.allow_insecure_certs;
    config.report_interval_nanos = scale(report_ms, 1_000_000);
    config.max_latency_samples = if args.max_latency_samples == 0 { 1 } else { args.max_latency_samples };
    config.ramp_up_nanos = scale(args.ramp_up_secs, 1_000_000_000);
    config.iterations_per_worker = args.iterations_per_worker;
    config.total_requests_limit = args.total_requests_limit;
    Ok(config)
}

/// The status panel of the load-test screen: each code with its count in code order,
/// then the responses without status and the others; `No data` before a snapshot.
pub open spec fn status_code_line(s: StatusCodeStat) -> Seq<char> {
    decimal(s.code as nat) + ": "@ + decimal(s.count as nat)
}

/// The lines of the load-test status panel.
pub fn status_code_lines(snapshot: Option<&MetricsSnapshot>) -> (r: Vec<String>)
    ensures
        snapshot is None ==> r@.len() == 1 && r@[0]@ == "No data"@,
        snapshot matches Some(s) ==> ({
            let n = s.status_codes@.len();
            &&& r@.len() == n + 2
            &&& exists|order: Seq<usize>|
                {
                    &&& is_index_perm(order, n)
                    &&& forall|a: int, b: int| 0 <= a < b < n ==> s.status_codes@[order[a] as int].code
                        <= s.status_codes@[order[b] as int].code
                    &&& forall|k: int| 0 <= k < n ==> (#[trigger] r@[k])@ == status_code_line(
                        s.status_codes@[order[k] as int],
                    )
                }
            &&& r@[n as int]@ == "No Response: "@ + decimal(s.status_no_response as nat)
            &&& r@[n + 1int]@ == "Other: "@ + decimal(s.status_other as nat)
        }),
{
    let mut lines: Vec<String> = Vec::new();
    match snapshot {
        None => {
            lines.push("No data".to_owned());
            lines
        },
        Some(s) => {
            let n = s.status_codes.len();
            let mut keys: Vec<u64> = Vec::new();
            let mut j: usize = 0;
            while j < n
                invariant
                    j <= n,
                    n == s.status_codes@.len(),
                    keys@.len() == j,
                    forall|q: int| 0 <= q < j ==> keys@[q] == 65535 - s.status_codes@[q].code,
                decreases n - j,
            {
                keys.push(65535 - s.status_codes[j].code as u64);
                j = j + 1;
            }
            let order = rank_desc(&keys);
            let mut k: usize = 0;
            while k < n
                invariant
                    k <= n,
                    n == s.status_codes@.len(),
                    keys@.len() == n,
                    is_index_perm(order@, n as nat),
                    lines@.len() == k,
                    forall|q: int| 0 <= q < k ==> (#[trigger] lines@[q])@ == status_code_line(
                        s.status_codes@[order@[q] as int],
                    ),
                decreases n - k,
            {
                let stat = s.status_codes[order[k]];
                let mut line = String::new();
                push_decimal(&mut line, stat.code as u64);
                push_char(&mut line, ':');
                push_char(&mut line, ' ');
                push_decimal(&mut line, stat.count);
                proof {
                    reveal_strlit(": ");
                    assert(line@ =~= status_code_line(stat));
                }
                lines.push(line);
                k = k + 1;
            }
            let mut no_response = "No Response: ".to_owned();
            push_decimal(&mut no_response, s.status_no_response);
            lines.push(no_response);
            let mut other = "Other: ".to_owned();
            push_decimal(&mut other, s.status_other);
            lines.push(other);
            proof {
                assert forall|a: int, b: int| 0 <= a < b < n implies s.status_codes@[order@[a] as int].code
                    <= s.status_codes@[order@[b] as int].code by {
                    assert(keys@[order@[a] as int] >= keys@[order@[b] as int]);
                }
                assert(forall|q: int| 0 <= q < n ==> (#[trigger] lines@[q])@ == status_code_line(
                    s.status_codes@[order@[q] as int],
                ));
            }
            lines
        },
    }
}

/// The height ratatui gives the clients panel of a server screen `width` by `height`
/// cells: the body row (between a 3-row header and an 8-row log, at least 10 rows)
/// split 45/55, right part.
pub uninterp spec fn clients_panel_height(width: u16, height: u16) -> u16;

/// Lays out a server screen with ratatui and returns the height of its clients panel.
#[verifier::external_body]
fn clients_area_height(width: u16, height: u16) -> (r: u16)
    ensures
        r == clients_panel_height(width, height),
{
    let chunks = Layout::default().direction(LayoutDirection::Vertical).constraints(
        [Constraint::Length(3), Constraint::Min(10), Constraint::Length(8)],
    ).split(Rect::new(0, 0, width, height));
    let body = Layout::default().direction(LayoutDirection::Horizontal).constraints(
        [Constraint::Percentage(45), Constraint::Percentage(55)],
    ).split(chunks[1]);
    body[1].height
}

/// Rows of the client table on a screen of that size: the panel less its border and
/// header row.
pub fn proxy_client_page_size(width: u16, height: u16) -> (r: usize)
    ensures
        r == if clients_panel_height(width, height) >= 3 { clients_panel_height(width, height) - 3 } else { 0 },
{
    let h = clients_area_height(width, height);
    if h >= 3 {
        (h - 3) as usize
    } else {
        0
    }
}

/// The last `n` elements of `s` (all of them when fewer).
pub open spec fn last_n<T>(s: Seq<T>, n: nat) -> Seq<T> {
    if s.len() > n { s.skip(s.len() - n) } else { s }
}

/// A bounded log holds the latest lines: pushing onto the latest `cap` lines of a
/// history gives the latest `cap` lines of the history with the new line.
pub proof fn lemma_bounded_log_keeps_latest(history: Seq<String>, cap: nat, message: String)
    requires
        cap > 0,
    ensures
        bounded_push(last_n(history, cap), cap, message) == last_n(history.push(message), cap),
{
    let kept = last_n(history, cap);
    if history.len() >= cap {
        assert(kept.len() == cap);
        assert(kept.drop_first().push(message) =~= history.push(message).skip(history.push(message).len() - cap));
    } else {
        assert(kept == history);
    }
}

/// Keys never scroll the client table past its last page.
pub proof fn lemma_scroll_within_pages(offset: usize, page_size: usize, max_offset: nat, key: UiKey)
    requires
        offset <= max_offset,
    ensures
        scrolled_offset(offset, page_size, max_offset, key) <= max_offset,
{
}

/// Shows what the load test reports, `None` once its events have ended: a snapshot is
/// shown (its end makes the status "Done"), a log line is logged, and the end of the
/// events makes the status "Done" or "Stopped".
pub fn handle_bench_event(state: &mut AppState, event: Option<LoadTestEvent>)
    requires
        old(state).wf(),
    ensures
        final(state).wf(),
        match event {
            Some(LoadTestEvent::Metrics(m)) => {
                &&& final(state).done == m.done
                &&& final(state).snapshot == Some(m)
                &&& m.done ==> final(state).status@ == "Done"@
                &&& !m.done ==> final(state).status == old(state).status
                &&& final(state).logs@ == old(state).logs@
            },
            Some(LoadTestEvent::Log(line)) => {
                &&& final(state).logs@ == bounded_push(old(state).logs@, BENCH_LOG_CAP as nat, line)
                &&& final(state).status == old(state).status
                &&& final(state).done == old(state).done
            },
            None => {
                &&& final(state).status@ == if old(state).done { "Done"@ } else { "Stopped"@ }
                &&& final(state).logs@ == old(state).logs@
                &&& final(state).done == old(state).done
            },
        },
{
    match event {
        Some(LoadTestEvent::Metrics(snapshot)) => {
            state.done = snapshot.done;
            if snapshot.done {
                state.status = "Done".to_owned();
            }
            state.snapshot = Some(snapshot);
        },
        Some(LoadTestEvent::Log(message)) => {
            push_log(state, message);
        },
        None => {
            if state.done {
                state.status = "Done".to_owned();
            } else {
                state.status = "Stopped".to_owned();
            }
        },
    }
}

} // verus!
