use anyn2n::addr::Platform;
use anyn2n::edge::{edge_args, local_ips_from_output, EdgeState, EDGE_LOG_CAP, MANAGEMENT_PORT};

#[test]
fn args_without_options() {
    let a = edge_args("net".to_string(), "sn.example:7654".to_string(), MANAGEMENT_PORT, None, None);
    assert_eq!(a, vec!["-v", "-c", "net", "-l", "sn.example:7654", "-t", "5644"]);
}

#[test]
fn args_with_static_ip_and_key() {
    let a = edge_args(
        "net".to_string(),
        "sn:1".to_string(),
        5644,
        Some("10.0.0.5".to_string()),
        Some("secret".to_string()),
    );
    assert_eq!(a, vec!["-v", "-c", "net", "-l", "sn:1", "-t", "5644", "-a", "static:10.0.0.5", "-k", "secret"]);
}

#[test]
fn output_lines_update_state() {
    let mut st = EdgeState::new();
    st.mark_started(1000);
    assert!(st.is_running());
    assert!(st.running_at(1005));
    assert!(!st.running_at(1008));
    assert_eq!(st.conn_state(1010), (false, false, 999));
    st.observe_line_at("created local tap device IP: 10.88.45.7, Mask: 255.255.255.0", 1001, "[T]");
    assert_eq!(st.local_ip(), "10.88.45.7");
    assert!(st.running_at(2000));
    st.observe_line_at("Rx REGISTER_SUPER_ACK from sn", 1002, "[T]");
    assert_eq!(st.conn_state(1010), (true, true, 8));
    st.observe_line_at("WARNING: supernode not responding, now trying ...", 1003, "[T]");
    assert_eq!(st.conn_state(1010), (true, false, 8));
    st.observe_line_at("[p2p] peer registered", 1009, "[T]");
    assert_eq!(st.conn_state(1010), (true, false, 1));
    let logs = st.logs();
    assert_eq!(logs.len(), 4);
    assert_eq!(logs[1], "[T][tauri_native_lib::n2n::edge_process][INFO] [edge] Rx REGISTER_SUPER_ACK from sn");
    st.mark_stopped();
    assert!(!st.is_running());
    assert_eq!(st.local_ip(), "");
}

#[test]
fn packet_lines_are_dropped() {
    let mut st = EdgeState::new();
    st.observe_line_at("Tx PACKET to 10.0.0.2", 5, "[T]");
    st.observe_line_at("Rx PACKET REGISTER_SUPER_ACK", 5, "[T]");
    assert_eq!(st.log_len(), 0);
    assert_eq!(st.conn_state(9), (false, false, 999));
}

#[test]
fn edge_log_is_capped() {
    let mut st = EdgeState::new();
    for i in 0..(EDGE_LOG_CAP + 10) {
        st.observe_line_at(&format!("line {}", i), 1, "");
    }
    assert_eq!(st.log_len(), EDGE_LOG_CAP);
    assert_eq!(st.logs()[EDGE_LOG_CAP - 1], format!("[tauri_native_lib::n2n::edge_process][INFO] [edge] line {}", EDGE_LOG_CAP - 1));
}

#[test]
fn observe_line_with_clock() {
    let mut st = EdgeState::new();
    st.observe_line(">>> supernode registered");
    let (_, sn, _) = st.conn_state(u64::MAX);
    assert!(sn);
    assert_eq!(st.log_len(), 1);
}

#[test]
fn vpn_ip_is_the_new_address() {
    let mut st = EdgeState::new();
    st.set_pre_ips(vec!["192.168.1.5".to_string()]);
    let cur = vec![
        "192.168.1.5".to_string(),
        "127.0.0.2".to_string(),
        "169.254.3.4".to_string(),
        "10.88.45.7".to_string(),
        "10.88.45.8".to_string(),
    ];
    assert_eq!(st.detect_vpn_ip(&cur), Some("10.88.45.7".to_string()));
    assert_eq!(st.local_ip(), "10.88.45.7");
    let mut other = EdgeState::new();
    assert_eq!(other.detect_vpn_ip(&vec!["127.0.0.1".to_string()]), None);
}

#[test]
fn local_ip_listing() {
    let out = "127.0.0.1\n  192.168.1.5 \n\n10.88.45.7\n";
    assert_eq!(local_ips_from_output(out, Platform::Linux), vec!["192.168.1.5", "10.88.45.7"]);
    assert_eq!(local_ips_from_output(out, Platform::Windows), vec!["127.0.0.1", "192.168.1.5", "10.88.45.7"]);
}

fn is_edge_stamp(s: &str) -> bool {
    let c: Vec<char> = s.chars().collect();
    let d = |i: usize| c[i].is_ascii_digit();
    c.len() == 22
        && c[0] == '['
        && (1..5).all(d)
        && c[5] == '-'
        && d(6)
        && d(7)
        && c[8] == '-'
        && d(9)
        && d(10)
        && c[11] == ']'
        && c[12] == '['
        && d(13)
        && d(14)
        && c[15] == ':'
        && d(16)
        && d(17)
        && c[18] == ':'
        && d(19)
        && d(20)
        && c[21] == ']'
}

#[test]
fn edge_log_entry_starts_with_date_and_time() {
    let mut st = EdgeState::new();
    st.observe_line("hello edge");
    let e = &st.logs()[0];
    let stamp: String = e.chars().take(22).collect();
    assert!(is_edge_stamp(&stamp), "{}", e);
    assert_eq!(
        e.chars().skip(22).collect::<String>(),
        "[tauri_native_lib::n2n::edge_process][INFO] [edge] hello edge"
    );
}
