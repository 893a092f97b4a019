use std::collections::VecDeque;

use netlab::metrics::{Fraction, MetricsSnapshot, StatusCodeStat};
use netlab::net_debug::{DebugEvent, IpVersion, Protocol, Role};
use netlab::proxy::ProxyEvent;
use netlab::stats::{ClientSnapshot, TargetStat, TrafficSnapshot};
use netlab::load_test::LoadTestEvent;
use netlab::tui::{
    handle_bench_event, bench_log_text, build_config, build_net_debug_config, format_top_targets, handle_key,
    handle_net_debug_event, handle_proxy_event, handle_proxy_key, needs_payloads,
    normalize_log, parse_headers, push_bounded, push_log, push_net_debug_log, push_socks5_log,
    push_socks5_status, session_log_text, status_code_lines, status_lines, tail_lines,
    visible_client_range, AppState, BenchArgs, NetDebugArgs, NetDebugState, ServerState, UiKey,
};
use netlab::conn::ConnectionMode;
use netlab::load_test::{MetricsMode, ResponseMode};
use netlab::scheduler::RpsMode;

fn server_state(page: usize) -> ServerState {
    ServerState {
        logs: VecDeque::new(),
        status: String::new(),
        listen_addr: String::new(),
        snapshot: None,
        status_history: VecDeque::new(),
        client_offset: 0,
        client_page_size: page,
        peak_active: 0,
    }
}

fn client(ip: &str) -> ClientSnapshot {
    ClientSnapshot {
        ip: ip.to_string(),
        active_connections: 0,
        total_connections: 0,
        total_requests: 0,
        bytes_in: 0,
        bytes_out: 0,
        last_seen_ms: 0,
        top_targets: vec![],
    }
}

fn snapshot(n: usize, active: u64) -> TrafficSnapshot {
    TrafficSnapshot {
        uptime_ms: 0,
        active_connections: active,
        total_connections: 0,
        total_requests: 0,
        bytes_in: 0,
        bytes_out: 0,
        clients: (0..n).map(|i| client(&format!("10.0.0.{i}"))).collect(),
    }
}

fn net_state(quiet: bool) -> NetDebugState {
    NetDebugState {
        logs: VecDeque::new(),
        status: String::new(),
        role: String::new(),
        protocol: String::new(),
        ip_version: String::new(),
        local_addr: String::new(),
        remote_addr: None,
        buffer_size: 1,
        interval_ms: 1,
        batch_size: 1,
        repeat: false,
        max_speed: false,
        quiet,
    }
}

#[test]
fn bounded_logs_keep_the_latest() {
    let mut logs = VecDeque::new();
    for i in 0..5 {
        push_bounded(&mut logs, 3, format!("line {i}"));
    }
    assert_eq!(logs, VecDeque::from(vec!["line 2".to_string(), "line 3".to_string(), "line 4".to_string()]));
    let mut app = AppState { snapshot: None, logs: VecDeque::new(), status: String::new(), done: false };
    for i in 0..10 {
        push_log(&mut app, i.to_string());
    }
    assert_eq!(app.logs.len(), 8);
    assert_eq!(app.logs.front().unwrap(), "2");
}

#[test]
fn statuses_go_first_and_are_capped() {
    let mut s = server_state(5);
    for i in 0..7 {
        push_socks5_status(&mut s, format!("s{i}"));
    }
    let lines = status_lines(&s);
    assert_eq!(lines, vec!["s6", "s5", "s4", "s3", "s2"]);
    assert_eq!(status_lines(&server_state(5)), vec!["No status yet"]);
    push_socks5_log(&mut s, "x".to_string());
    assert_eq!(s.logs.len(), 1);
}

#[test]
fn quit_key_stops_the_bench() {
    let mut app = AppState { snapshot: None, logs: VecDeque::new(), status: "Running".to_string(), done: false };
    assert!(!handle_key(&mut app, UiKey::Up));
    assert_eq!(app.status, "Running");
    assert!(handle_key(&mut app, UiKey::Quit));
    assert_eq!(app.status, "Stopping");
}

#[test]
fn debugger_events_are_logged() {
    let mut st = net_state(true);
    handle_net_debug_event(&mut st, DebugEvent::Status("ok\r\ndone".to_string()));
    assert_eq!(st.status, "ok\r\ndone");
    handle_net_debug_event(&mut st, DebugEvent::Sent("hidden".to_string()));
    handle_net_debug_event(
        &mut st,
        DebugEvent::Received { content: "hi\n".to_string(), source: Some("1.2.3.4:5".to_string()) },
    );
    handle_net_debug_event(&mut st, DebugEvent::Received { content: "yo".to_string(), source: None });
    let logs: Vec<String> = st.logs.iter().cloned().collect();
    assert_eq!(logs, vec!["[STATUS] ok\\r\\ndone", "[RECV] 1.2.3.4:5: hi\\n", "[RECV] yo"]);
    let mut loud = net_state(false);
    handle_net_debug_event(&mut loud, DebugEvent::Sent("data".to_string()));
    assert_eq!(loud.logs.back().unwrap(), "[SENT] data");
    for i in 0..250 {
        push_net_debug_log(&mut loud, i.to_string());
    }
    assert_eq!(loud.logs.len(), 200);
    assert_eq!(normalize_log("a\rb"), "a\\rb");
}

#[test]
fn paging_through_clients() {
    let mut s = server_state(3);
    handle_proxy_event(&mut s, ProxyEvent::Snapshot(snapshot(10, 4)));
    assert_eq!(s.peak_active, 4);
    assert_eq!(s.max_client_offset(), 7);
    assert!(!handle_proxy_key(&mut s, UiKey::Down));
    assert_eq!(s.client_offset, 1);
    handle_proxy_key(&mut s, UiKey::PageDown);
    assert_eq!(s.client_offset, 4);
    handle_proxy_key(&mut s, UiKey::PageDown);
    handle_proxy_key(&mut s, UiKey::PageDown);
    assert_eq!(s.client_offset, 7);
    assert_eq!(visible_client_range(&s), (7, 10));
    handle_proxy_key(&mut s, UiKey::PageUp);
    assert_eq!(s.client_offset, 4);
    handle_proxy_key(&mut s, UiKey::Up);
    assert_eq!(s.client_offset, 3);
    // A smaller snapshot pulls the table back to its last page.
    handle_proxy_event(&mut s, ProxyEvent::Snapshot(snapshot(4, 1)));
    assert_eq!(s.client_offset, 1);
    assert_eq!(s.peak_active, 4);
    handle_proxy_event(&mut s, ProxyEvent::Status("up".to_string()));
    assert_eq!(s.status, "up");
    assert_eq!(s.logs.back().unwrap(), "[STATUS] up");
    assert!(handle_proxy_key(&mut s, UiKey::Quit));
}

#[test]
fn tails_and_log_panels() {
    let logs: VecDeque<String> = (0..5).map(|i| i.to_string()).collect();
    assert_eq!(tail_lines(&logs, 2), vec!["3", "4"]);
    assert_eq!(tail_lines(&logs, 9).len(), 5);
    assert!(tail_lines(&logs, 0).is_empty());
    assert_eq!(session_log_text(&logs, 4), "3\n4");
    assert_eq!(session_log_text(&VecDeque::new(), 4), "Press q/Esc to exit");
    let done = AppState { snapshot: None, logs: VecDeque::new(), status: String::new(), done: true };
    assert_eq!(bench_log_text(&done), "Done. Press q/Esc to exit");
    let running = AppState { snapshot: None, logs: logs.clone(), status: String::new(), done: false };
    assert_eq!(bench_log_text(&running), "0\n1\n2\n3\n4");
}

#[test]
fn top_target_cells() {
    let t = |n: &str, c: u64| TargetStat { target: n.to_string(), count: c };
    assert_eq!(format_top_targets(&[]), "-");
    assert_eq!(format_top_targets(&[t("a:80", 3)]), "a:80x3");
    assert_eq!(format_top_targets(&[t("a:80", 3), t("b:443", 2), t("c:1", 1)]), "a:80x3, b:443x2");
}

#[test]
fn header_arguments() {
    let parsed = parse_headers(&[" X-A : 1 ".to_string(), "B:c:d".to_string(), "Empty:".to_string()]).unwrap();
    assert_eq!(
        parsed,
        vec![
            ("X-A".to_string(), "1".to_string()),
            ("B".to_string(), "c:d".to_string()),
            ("Empty".to_string(), "".to_string()),
        ]
    );
    assert_eq!(
        parse_headers(&["ok:1".to_string(), "broken".to_string()]),
        Err("invalid header format: broken".to_string())
    );
    let wide = parse_headers(&["\u{3000}K\u{a0}:\tv\u{2029}".to_string()]).unwrap();
    assert_eq!(wide, vec![("K".to_string(), "v".to_string())]);
}

fn net_args(server: bool, destination: Option<&str>) -> NetDebugArgs {
    NetDebugArgs {
        destination: destination.map(|d| d.to_string()),
        server,
        tcp: false,
        ipv6: false,
        port: 8080,
        buffer_size: 0,
        quiet: false,
        repeat: false,
        max_speed: false,
        batch_size: 0,
        data: Some("hi".to_string()),
        input: None,
        interval_ms: 0,
    }
}

#[test]
fn debugger_settings_from_arguments() {
    let args = net_args(false, Some("10.1.1.1"));
    assert!(needs_payloads(&args));
    let (config, state) = build_net_debug_config(&args, Some(Ok(vec![b"hi".to_vec()]))).unwrap();
    assert_eq!(config.protocol, Protocol::Udp);
    assert_eq!(config.role, Role::Client);
    assert_eq!(config.ip_version, IpVersion::Ipv4);
    assert_eq!(config.host, "0.0.0.0");
    assert_eq!(config.local_port, 0);
    assert_eq!(config.remote_host, "10.1.1.1");
    assert_eq!(config.remote_port, 8080);
    assert_eq!(config.buffer_size, 1);
    let plan = config.send_plan.unwrap();
    assert_eq!(plan.interval_ms, 1);
    assert_eq!(plan.batch_size, 1);
    assert_eq!(state.status, "Ready");
    assert_eq!(state.role, "Client");
    assert_eq!(state.protocol, "UDP");
    assert_eq!(state.local_addr, "0.0.0.0:0");
    assert_eq!(state.remote_addr.as_deref(), Some("10.1.1.1:8080"));

    let mut server = net_args(true, None);
    server.ipv6 = true;
    server.tcp = true;
    assert!(!needs_payloads(&server));
    let (config, state) = build_net_debug_config(&server, None).unwrap();
    assert_eq!(config.host, "::");
    assert_eq!(config.local_port, 8080);
    assert!(config.send_plan.is_none());
    assert_eq!(state.local_addr, "[::]:8080");
    assert_eq!(state.remote_addr, None);

    let missing = net_args(false, None);
    assert_eq!(
        build_net_debug_config(&missing, Some(Ok(vec![]))).unwrap_err(),
        "DESTINATION is required in client mode"
    );
    let failed = net_args(false, Some("h"));
    assert_eq!(
        build_net_debug_config(&failed, Some(Err("missing data: use --data or --input".to_string()))).unwrap_err(),
        "missing data: use --data or --input"
    );
}

#[test]
fn bench_settings_from_arguments() {
    let args = BenchArgs {
        url: "http://h/".to_string(),
        method: "GET".to_string(),
        concurrency: 30,
        ramp_up_secs: 2,
        iterations_per_worker: None,
        total_requests_limit: Some(9),
        duration_secs: 0,
        timeout_ms: 50,
        body: Some("é".to_string()),
        headers: vec!["A: b".to_string()],
        response_mode: ResponseMode::DiscardBody,
        metrics_mode: MetricsMode::Minimal,
        connection_mode: ConnectionMode::NewConnection,
        pacing_interval_nanos: Some(1_000),
        rps_mode: RpsMode::PerWorker,
        allow_insecure_certs: true,
        report_interval_ms: 10,
        max_latency_samples: 0,
    };
    let c = build_config(&args).unwrap();
    assert_eq!(c.duration_nanos, 1_000_000_000);
    assert_eq!(c.timeout_nanos, 100_000_000);
    assert_eq!(c.report_interval_nanos, 100_000_000);
    assert_eq!(c.ramp_up_nanos, 2_000_000_000);
    assert_eq!(c.max_latency_samples, 1);
    assert_eq!(c.body, Some(vec![0xc3, 0xa9]));
    assert_eq!(c.headers, vec![("A".to_string(), "b".to_string())]);
    assert_eq!(c.total_requests_limit, Some(9));
    let mut bad = args.clone();
    bad.headers = vec!["nocolon".to_string()];
    assert_eq!(build_config(&bad).unwrap_err(), "invalid header format: nocolon");
}

fn zero() -> Fraction {
    Fraction { numerator: 0, denominator: 1 }
}

#[test]
fn status_code_panel() {
    assert_eq!(status_code_lines(None), vec!["No data"]);
    let snap = MetricsSnapshot {
        elapsed_nanos: 0,
        progress: zero(),
        total_requests: 0,
        success: 0,
        failures: 0,
        avg_latency_nanos: 0,
        p50_nanos: 0,
        p90_nanos: 0,
        p95_nanos: 0,
        p99_nanos: 0,
        rps: zero(),
        throughput_bps: zero(),
        throughput_bps_up: zero(),
        total_bytes: 0,
        total_bytes_up: 0,
        avg_bytes_per_request: zero(),
        avg_bytes_per_request_up: zero(),
        status_codes: vec![StatusCodeStat { code: 500, count: 2 }, StatusCodeStat { code: 200, count: 7 }],
        status_no_response: 1,
        status_other: 0,
        completion_buckets: vec![],
        done: false,
    };
    assert_eq!(
        status_code_lines(Some(&snap)),
        vec!["200: 7", "500: 2", "No Response: 1", "Other: 0"]
    );
}

#[test]
fn bench_events_update_the_screen() {
    let mut app = AppState { snapshot: None, logs: VecDeque::new(), status: "Running".to_string(), done: false };
    handle_bench_event(&mut app, Some(LoadTestEvent::Log("warn".to_string())));
    assert_eq!(app.logs.back().unwrap(), "warn");
    handle_bench_event(&mut app, None);
    assert_eq!(app.status, "Stopped");
    let mut m = netlab::metrics::LoadMetrics::new(1);
    m.record_counters(1, 0, 0, true, Some(200));
    let snap = netlab::load_test::metrics_report(netlab::load_test::MetricsMode::Minimal, &m, 1, 1, None, true);
    handle_bench_event(&mut app, Some(LoadTestEvent::Metrics(snap)));
    assert!(app.done);
    assert_eq!(app.status, "Done");
    assert_eq!(app.snapshot.as_ref().unwrap().total_requests, 1);
}
