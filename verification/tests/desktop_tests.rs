use netlab::conn::ConnectionMode;
use netlab::desktop::{
    auto_send_plan, debug_config_from_names, history_page_window, history_settings,
    map_connection_mode, map_metrics_mode, map_response_mode, map_rps_mode,
    missing_history_columns, proxy_config_from_payload, to_engine_config, to_snapshot_payload,
    AppLog, AutoSendArgs, HistoryColumn, LoadTestRequest, ProxyConfigPayload,
};
use netlab::load_test::{MetricsMode, ResponseMode};
use netlab::net_debug::{IpVersion, Protocol, Role};
use netlab::scheduler::RpsMode;
use netlab::stats::{ClientSnapshot, TargetStat, TrafficSnapshot};

#[test]
fn mode_names() {
    assert_eq!(map_connection_mode(Some("newConnection")), ConnectionMode::NewConnection);
    assert_eq!(map_connection_mode(Some("other")), ConnectionMode::KeepAlive);
    assert_eq!(map_connection_mode(None), ConnectionMode::KeepAlive);
    assert_eq!(map_rps_mode(Some("perWorker")), RpsMode::PerWorker);
    assert_eq!(map_rps_mode(Some("global")), RpsMode::Global);
    assert_eq!(map_response_mode(Some("discardBody")), ResponseMode::DiscardBody);
    assert_eq!(map_metrics_mode(Some("minimal")), MetricsMode::Minimal);
    assert_eq!(map_metrics_mode(Some("full")), MetricsMode::Full);
}

fn request() -> LoadTestRequest {
    LoadTestRequest {
        url: "https://h/".to_string(),
        method: "POST".to_string(),
        concurrency: 8,
        ramp_up_secs: None,
        iterations_per_worker: Some(5),
        total_requests_limit: None,
        duration_secs: 0,
        timeout_ms: 2500,
        payload: Some("{}".to_string()),
        headers: Some(vec![("a".to_string(), "b".to_string())]),
        response_mode: None,
        metrics_mode: Some("minimal".to_string()),
        connection_mode: Some("newConnection".to_string()),
        pacing_interval_nanos: None,
        rps_mode: None,
        allow_insecure_certs: None,
    }
}

#[test]
fn engine_settings_from_the_front_end() {
    let c = to_engine_config(&request());
    assert_eq!(c.duration_nanos, 1_000_000_000);
    assert_eq!(c.timeout_nanos, 2_500_000_000);
    assert_eq!(c.body, Some(b"{}".to_vec()));
    assert_eq!(c.headers, vec![("a".to_string(), "b".to_string())]);
    assert_eq!(c.metrics_mode, MetricsMode::Minimal);
    assert_eq!(c.connection_mode, ConnectionMode::NewConnection);
    assert_eq!(c.rps_mode, RpsMode::Global);
    assert!(!c.allow_insecure_certs);
    assert_eq!(c.ramp_up_nanos, 0);
    let h = history_settings(&request());
    assert_eq!(h.timeout, 2);
    assert_eq!(h.ramp_up_secs, 0);
    assert_eq!(h.connection_mode, "newConnection");
    assert_eq!(h.rps_mode, "global");
}

#[test]
fn history_upgrade_and_paging() {
    let existing = vec!["id".to_string(), "p50".to_string(), "ramp_up".to_string(), "rps_mode".to_string()];
    assert_eq!(
        missing_history_columns(&existing),
        vec![
            HistoryColumn::IterationsPerWorker,
            HistoryColumn::TotalRequestsLimit,
            HistoryColumn::ConnectionMode,
            HistoryColumn::RpsLimit,
            HistoryColumn::P90,
        ]
    );
    assert!(HistoryColumn::P90.add_statement().ends_with("p90 REAL NOT NULL DEFAULT 0"));
    assert_eq!(HistoryColumn::RpsLimit.name(), "rps_limit");
    assert_eq!(history_page_window(0, 0), (1, 0));
    assert_eq!(history_page_window(3, 20), (20, 40));
    assert_eq!(history_page_window(u32::MAX, u32::MAX), (u32::MAX as u64, (u32::MAX as u64 - 1) * u32::MAX as u64));
}

#[test]
fn app_log_is_bounded() {
    let mut log = AppLog::new();
    for i in 0..2005u64 {
        let e = log.push("scope", "info", format!("m{i}"), None, i as u128);
        assert_eq!(e.id, i);
    }
    assert_eq!(log.list().len(), 2000);
    assert_eq!(log.list()[0].message, "m5");
    log.clear();
    assert!(log.list().is_empty());
    assert_eq!(log.push("s", "l", "x".to_string(), Some("src".to_string()), 1).id, 2005);
}

#[test]
fn debugger_sessions_by_name() {
    let c = debug_config_from_names("udp", "client", "ipv6", "::".to_string(), 0, "h".to_string(), 9).unwrap();
    assert_eq!(c.protocol, Protocol::Udp);
    assert_eq!(c.role, Role::Client);
    assert_eq!(c.ip_version, IpVersion::Ipv6);
    assert_eq!(c.buffer_size, 1024);
    assert_eq!(
        debug_config_from_names("sctp", "client", "ipv4", String::new(), 0, String::new(), 0).unwrap_err(),
        "无效协议"
    );
    assert_eq!(
        debug_config_from_names("tcp", "peer", "ipv4", String::new(), 0, String::new(), 0).unwrap_err(),
        "无效角色"
    );
}

#[test]
fn auto_send_plans() {
    let args = AutoSendArgs {
        data: b"ping".to_vec(),
        interval_ms: 0,
        batch_size: 0,
        repeat: true,
        max_speed: false,
        remote_host: "10.0.0.1".to_string(),
        remote_port: 7,
    };
    let (plan, target) = auto_send_plan(args.clone());
    assert_eq!(plan.payloads, vec![b"ping".to_vec()]);
    assert_eq!(plan.interval_ms, 1);
    assert_eq!(plan.batch_size, 1);
    assert_eq!(target.as_deref(), Some("10.0.0.1:7"));
    let mut no_port = args;
    no_port.remote_port = 0;
    assert_eq!(auto_send_plan(no_port).1, None);
}

#[test]
fn proxy_payloads() {
    let config = proxy_config_from_payload(ProxyConfigPayload {
        listen_host: "127.0.0.1".to_string(),
        listen_port: 1,
        report_interval_ms: 5,
    });
    assert_eq!(config.report_interval_ms, 100);
    assert_eq!(config.client_idle_ttl_ms, 300_000);
    let snap = TrafficSnapshot {
        uptime_ms: 42,
        active_connections: 1,
        total_connections: 2,
        total_requests: 3,
        bytes_in: 4,
        bytes_out: 5,
        clients: vec![ClientSnapshot {
            ip: "1.1.1.1".to_string(),
            active_connections: 1,
            total_connections: 2,
            total_requests: 3,
            bytes_in: 4,
            bytes_out: 5,
            last_seen_ms: 6,
            top_targets: vec![TargetStat { target: "t:80".to_string(), count: 3 }],
        }],
    };
    let p = to_snapshot_payload(&snap);
    assert_eq!(p.uptime_ms, 42);
    assert_eq!(p.clients.len(), 1);
    assert_eq!(p.clients[0].ip, "1.1.1.1");
    assert_eq!(p.clients[0].top_targets[0].target, "t:80");
    assert_eq!(p.clients[0].top_targets[0].count, 3);
}

#[test]
fn connection_pool_settings() {
    let keep = ConnectionMode::KeepAlive.pool_config();
    let fresh = ConnectionMode::NewConnection.pool_config();
    assert!(!keep.close_header);
    assert!(fresh.close_header);
    assert_eq!(ConnectionMode::KeepAlive.as_str(), "keepAlive");
}

#[test]
fn an_upgraded_history_table_needs_no_more_columns() {
    let mut existing = vec!["id".to_string(), "p50".to_string()];
    for c in missing_history_columns(&existing) {
        existing.push(c.name().to_string());
    }
    assert!(missing_history_columns(&existing).is_empty());
}
