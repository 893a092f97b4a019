use netlab::stats::{Direction, TrafficStats};

#[test]
fn clients_are_registered_once() {
    let mut stats = TrafficStats::new(0);
    let a = stats.get_or_create_client("10.0.0.1", 100).unwrap();
    let b = stats.get_or_create_client("10.0.0.2", 100).unwrap();
    let again = stats.get_or_create_client("10.0.0.1", 200).unwrap();
    assert_eq!(a, again);
    assert_ne!(a, b);
    assert_eq!(stats.get_client_by_ip("10.0.0.2"), Some(b));
    assert_eq!(stats.get_client_by_ip("10.0.0.3"), None);
}

#[test]
fn counters_follow_events() {
    let mut stats = TrafficStats::new(0);
    let id = stats.get_or_create_client("1.2.3.4", 10).unwrap();
    stats.on_connect(id, 11);
    stats.on_request(id, 12);
    stats.on_request(id, 13);
    stats.add_bytes(Direction::In, 100, id, 14);
    stats.add_bytes(Direction::Out, 250, id, 15);
    stats.add_bytes(Direction::Out, 0, id, 99);
    let snap = stats.snapshot(20, 5_000);
    assert_eq!(snap.uptime_ms, 5_000);
    assert_eq!(snap.active_connections, 1);
    assert_eq!(snap.total_connections, 1);
    assert_eq!(snap.total_requests, 2);
    assert_eq!(snap.bytes_in, 100);
    assert_eq!(snap.bytes_out, 250);
    assert_eq!(snap.clients.len(), 1);
    let c = &snap.clients[0];
    assert_eq!(c.ip, "1.2.3.4");
    assert_eq!(c.total_requests, 2);
    assert_eq!(c.bytes_in, 100);
    assert_eq!(c.bytes_out, 250);
    // Zero bytes do not count as activity.
    assert_eq!(c.last_seen_ms, 15);
}

#[test]
fn disconnect_undoes_connect() {
    let mut stats = TrafficStats::new(0);
    let id = stats.get_or_create_client("5.6.7.8", 1).unwrap();
    stats.on_connect(id, 2);
    stats.on_connect(id, 3);
    stats.on_disconnect(id, 4);
    let snap = stats.snapshot(5, 0);
    assert_eq!(snap.active_connections, 1);
    assert_eq!(snap.total_connections, 2);
    assert_eq!(snap.clients[0].active_connections, 1);
    assert_eq!(snap.clients[0].last_seen_ms, 4);
}

#[test]
fn top_targets_are_the_five_busiest() {
    let mut stats = TrafficStats::new(0);
    let id = stats.get_or_create_client("9.9.9.9", 0).unwrap();
    let plan = [("a:80", 1), ("b:80", 4), ("c:443", 2), ("d:80", 6), ("e:80", 3), ("f:80", 5)];
    for (name, times) in plan {
        for t in 0..times {
            stats.record_target(id, name, t);
        }
    }
    let snap = stats.snapshot(10, 0);
    let top: Vec<(String, u64)> = snap.clients[0]
        .top_targets
        .iter()
        .map(|t| (t.target.clone(), t.count))
        .collect();
    assert_eq!(
        top,
        vec![
            ("d:80".to_string(), 6),
            ("f:80".to_string(), 5),
            ("b:80".to_string(), 4),
            ("e:80".to_string(), 3),
            ("c:443".to_string(), 2),
        ]
    );
}

#[test]
fn clients_listed_by_requests() {
    let mut stats = TrafficStats::new(0);
    let quiet = stats.get_or_create_client("10.0.0.1", 0).unwrap();
    let busy = stats.get_or_create_client("10.0.0.2", 0).unwrap();
    stats.on_request(quiet, 1);
    for t in 0..3 {
        stats.on_request(busy, t);
    }
    let snap = stats.snapshot(5, 0);
    let ips: Vec<&str> = snap.clients.iter().map(|c| c.ip.as_str()).collect();
    assert_eq!(ips, vec!["10.0.0.2", "10.0.0.1"]);
}

#[test]
fn idle_clients_are_evicted() {
    let mut stats = TrafficStats::new(1_000);
    let old = stats.get_or_create_client("10.0.0.1", 0).unwrap();
    let fresh = stats.get_or_create_client("10.0.0.2", 0).unwrap();
    stats.touch(fresh, 4_500);
    let snap = stats.snapshot(5_000, 0);
    assert_eq!(snap.clients.len(), 1);
    assert_eq!(snap.clients[0].ip, "10.0.0.2");
    assert_eq!(stats.get_client_by_ip("10.0.0.1"), None);
    // The evicted client's id no longer updates anything.
    stats.on_request(old, 5_001);
    let snap = stats.snapshot(5_002, 0);
    assert_eq!(snap.clients[0].total_requests, 0);
    assert_eq!(snap.total_requests, 1);
    // A new connection from the same IP is a new client.
    let back = stats.get_or_create_client("10.0.0.1", 5_003).unwrap();
    assert_ne!(back, old);
}

#[test]
fn zero_ttl_keeps_everyone() {
    let mut stats = TrafficStats::new(0);
    stats.get_or_create_client("10.0.0.1", 0).unwrap();
    let snap = stats.snapshot(u64::MAX, 0);
    assert_eq!(snap.clients.len(), 1);
}
