use anyn2n::discovery::{
    broadcast_address, discovery_response, listen_address, ping_targets, DiscoveryReply,
    DiscoverySchedule,
};
use anyn2n::management::parse_status;
use anyn2n::edge::EdgeState;
use anyn2n::logs::{all_logs, LogBuffer, GLOBAL_LOG_CAP};
use anyn2n::strmap::StringMap;

#[test]
fn discovery_answers_requests() {
    match discovery_response("N2N_DISCOVER\n", "10.88.45.7", "10.88.45.2") {
        DiscoveryReply::Reply(r) => assert_eq!(r, "N2N_HERE:10.88.45.7"),
        _ => panic!("expected a reply"),
    }
    assert!(matches!(discovery_response("N2N_DISCOVER", "10.88.45.7", "10.88.45.7"), DiscoveryReply::Ignore));
    assert!(matches!(discovery_response("N2N_DISCOVER", "", "10.88.45.2"), DiscoveryReply::Ignore));
}

#[test]
fn discovery_pings_answers() {
    match discovery_response("N2N_HERE: 10.88.45.9 \n", "x", "y") {
        DiscoveryReply::Ping(p) => assert_eq!(p, "10.88.45.9"),
        _ => panic!("expected a ping"),
    }
    assert!(matches!(discovery_response("N2N_HERE:   ", "x", "y"), DiscoveryReply::Ignore));
    assert!(matches!(discovery_response("hello", "x", "y"), DiscoveryReply::Ignore));
}

#[test]
fn discovery_addresses() {
    assert_eq!(broadcast_address("10.88.45"), "10.88.45.255:55555");
    assert_eq!(listen_address(), "0.0.0.0:55555");
}

#[test]
fn global_log_format_and_cap() {
    let mut b = LogBuffer::new();
    b.add_stamped("[2024-01-01][10:00:00]", "INFO", "anyn2n_lib::manager", "已断开连接");
    assert_eq!(b.entries(), vec!["[2024-01-01][10:00:00][anyn2n_lib::manager][INFO] 已断开连接"]);
    for _ in 0..GLOBAL_LOG_CAP {
        b.add("INFO", "m", "x");
    }
    assert_eq!(b.len(), GLOBAL_LOG_CAP);
    assert!(b.entries()[1].ends_with("[m][INFO] x"));
}

#[test]
fn logs_merge_global_then_edge() {
    let mut b = LogBuffer::new();
    b.add_stamped("T", "INFO", "m", "one");
    let mut e = EdgeState::new();
    e.observe_line_at("two", 1, "T");
    assert_eq!(all_logs(&b, &e), vec!["T[m][INFO] one", "T[tauri_native_lib::n2n::edge_process][INFO] [edge] two"]);
}

#[test]
fn string_map_insert_and_get() {
    let mut m = StringMap::new();
    m.insert("k".to_string(), "1".to_string());
    m.insert("j".to_string(), "2".to_string());
    m.insert("k".to_string(), "3".to_string());
    assert_eq!(m.len(), 2);
    assert_eq!(m.get(&"k".to_string()), Some("3".to_string()));
    assert_eq!(m.get(&"z".to_string()), None);
    assert_eq!(m.pair_at(0), ("k".to_string(), "3".to_string()));
    assert_eq!(m.to_pairs().len(), 2);
    let n = StringMap::from_pairs(vec![("a".to_string(), "b".to_string())]);
    assert_eq!(n.get(&"a".to_string()), Some("b".to_string()));
}

#[test]
fn discovery_schedule_times() {
    let mut s = DiscoverySchedule::starting_at(100);
    assert_eq!(s.wait_from(100), 5);
    let d = s.tick(104);
    assert!(!d.broadcast && !d.ping);
    let d = s.tick(105);
    assert!(d.broadcast && !d.ping);
    assert_eq!(s.next_broadcast, 135);
    assert_eq!(s.wait_from(105), 10);
    let d = s.tick(115);
    assert!(!d.broadcast && d.ping);
    assert_eq!(s.next_ping, 130);
    let d = s.tick(140);
    assert!(d.broadcast && d.ping);
    assert_eq!((s.next_broadcast, s.next_ping), (170, 155));
    let d = s.tick(140);
    assert!(!d.broadcast && !d.ping);
    let mut e = DiscoverySchedule::starting_at(u64::MAX - 1);
    assert_eq!(e.next_broadcast, u64::MAX);
    assert!(e.tick(u64::MAX).broadcast);
}

#[test]
fn ping_targets_are_peer_addresses_in_order() {
    assert!(ping_targets(&None).is_empty());
    let edges = "PEER TO PEER\n\
  1 | 10.1.1.3 | 02:00:00:00:00:03 | 5.6.7.8:1 |  | 3\n\
  2 | 10.1.1.1 | 02:00:00:00:00:01 | 5.6.7.8:2 |  | 1\n";
    let st = parse_status("", edges, &StringMap::new());
    assert_eq!(ping_targets(&Some(st)), vec!["10.1.1.3".to_string(), "10.1.1.1".to_string()]);
}

fn is_stamp(s: &str) -> bool {
    let c: Vec<char> = s.chars().collect();
    let d = |i: usize| c[i].is_ascii_digit();
    c.len() == 22
        && c[0] == '['
        && (1..5).all(d)
        && c[5] == '-'
        && d(6)
        && d(7)
        && c[8] == '-'
        && d(9)
        && d(10)
        && c[11] == ']'
        && c[12] == '['
        && d(13)
        && d(14)
        && c[15] == ':'
        && d(16)
        && d(17)
        && c[18] == ':'
        && d(19)
        && d(20)
        && c[21] == ']'
}

#[test]
fn global_log_entry_starts_with_date_and_time() {
    let mut b = LogBuffer::new();
    b.add("WARN", "anyn2n_lib::manager", "hello");
    let e = &b.entries()[0];
    let stamp: String = e.chars().take(22).collect();
    assert!(is_stamp(&stamp), "{}", e);
    assert_eq!(e.chars().skip(22).collect::<String>(), "[anyn2n_lib::manager][WARN] hello");
}
