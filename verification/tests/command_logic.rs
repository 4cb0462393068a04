use anyn2n::commands::{
    classify_error, close_action, decode_icon, find_tap_adapter, find_tap_interface,
    firewall_status_linux, firewall_status_macos, firewall_status_windows, get_close_behavior,
    load_settings_map, navigation_decision, ping_time_ms, save_settings_map, set_close_behavior,
    settings_text_with_close_behavior,
    status_response, tap_stats_for, windows_rule_result, CloseAction, ConnectRequest,
    NavigationDecision, TapStats,
};
use anyn2n::management::parse_status;
use anyn2n::strmap::StringMap;

#[test]
fn virtual_ip_only_when_given() {
    let mut r = ConnectRequest {
        server_address: "sn:1".to_string(),
        custom_ip: Some("10.0.0.3".to_string()),
        community_name: "c".to_string(),
        encryption_key: None,
    };
    assert_eq!(r.virtual_ip(), Some("10.0.0.3".to_string()));
    r.custom_ip = Some(String::new());
    assert_eq!(r.virtual_ip(), None);
    r.custom_ip = None;
    assert_eq!(r.virtual_ip(), None);
}

#[test]
fn status_reply_caps_age() {
    let st = parse_status("last_super 3\n", "", &StringMap::new());
    let r = status_response(true, (true, false, 5000), Some(st));
    assert!(r.is_running && r.tun_ready && !r.sn_connected);
    let s = r.status.unwrap();
    assert_eq!(s.last_super, 999);
    assert!(!s.is_running);
    let st = parse_status("", "", &StringMap::new());
    let s = status_response(true, (false, false, 40), Some(st)).status.unwrap();
    assert_eq!(s.last_super, 40);
    assert!(s.is_running);
    assert!(status_response(false, (false, false, 999), None).status.is_none());
}

#[test]
fn error_kinds() {
    let e = classify_error("Access Denied (os error 5)");
    assert_eq!(e.error_type, "permission");
    assert_eq!(e.message, "缺少管理员权限");
    assert_eq!(e.detail, "Access Denied (os error 5)");
    assert_eq!(e.display_text(), "缺少管理员权限");
    assert_eq!(classify_error("connection TIMEOUT").error_type, "network");
    assert_eq!(classify_error("os error 10061").error_type, "network");
    assert_eq!(classify_error("invalid address").error_type, "config");
    assert_eq!(classify_error("No such file: sidecar").error_type, "process");
    assert_eq!(classify_error("something else").error_type, "unknown");
    assert_eq!(classify_error("something else").suggestion, "请查看运行日志获取详细信息");
}

#[test]
fn tap_stats_selection() {
    let s1 = TapStats { rx_bytes: 1, tx_bytes: 2, rx_packets: 3, tx_packets: 4 };
    let s2 = TapStats { rx_bytes: 5, tx_bytes: 6, rx_packets: 7, tx_packets: 8 };
    let nets = vec![("eth0".to_string(), s1), ("n2n0".to_string(), s2)];
    assert_eq!(tap_stats_for(&Some("n2n".to_string()), &nets).rx_bytes, 5);
    assert_eq!(tap_stats_for(&Some("wlan".to_string()), &nets).tx_packets, 0);
    assert_eq!(tap_stats_for(&None, &nets).rx_bytes, 0);
}

#[test]
fn tap_interface_names() {
    let adapters = vec![
        ("Intel Ethernet".to_string(), "Ethernet".to_string()),
        ("TAP-Windows Adapter V9".to_string(), "以太网 2".to_string()),
    ];
    assert_eq!(find_tap_adapter(&adapters), Some("以太网 2".to_string()));
    assert_eq!(find_tap_adapter(&vec![]), None);
    let names = vec!["eth0".to_string(), "UTUN3".to_string(), "n2n0".to_string()];
    assert_eq!(find_tap_interface(&names), Some("UTUN3".to_string()));
    assert_eq!(find_tap_interface(&vec!["lo".to_string()]), None);
}

#[test]
fn firewall_reports() {
    let w = firewall_status_windows(Some("State ON\nState OFF"), Some("Rule Name: AnyN2N Edge"));
    assert!(w.enabled && w.rule_exists);
    assert_eq!(w.platform, "windows");
    let w = firewall_status_windows(None, Some("No rules match"));
    assert!(!w.enabled && !w.rule_exists);
    let m = firewall_status_macos(Some("Firewall is enabled. (State = 1) on"), Some("/apps/edge : ok"), "edge");
    assert!(m.enabled && m.rule_exists);
    assert_eq!(m.platform, "macos");
    let l = firewall_status_linux(false, Some("Status: active"));
    assert!(l.enabled && !l.rule_exists);
    // "inactive" holds "active": the check is by substring
    assert!(firewall_status_linux(false, Some("Status: inactive")).enabled);
    assert!(!firewall_status_linux(false, None).enabled);
    assert!(firewall_status_linux(true, None).enabled);
    assert_eq!(windows_rule_result(true, "x"), Ok("已添加防火墙规则，放行 AnyN2N Edge 程序".to_string()));
    assert_eq!(windows_rule_result(false, "denied"), Err("denied".to_string()));
}

#[test]
fn ping_times() {
    let linux = "64 bytes from 10.0.0.2: icmp_seq=1 ttl=64 time=12.3 ms";
    assert_eq!(ping_time_ms(linux), Some(123));
    let windows = "Reply from 10.0.0.2: bytes=32 time<1ms TTL=128";
    assert_eq!(ping_time_ms(windows), Some(1));
    assert_eq!(ping_time_ms("Request timed out."), None);
    assert_eq!(ping_time_ms("timeout time=7ms"), Some(7));
}

#[test]
fn close_behavior_setting() {
    let mut m = load_settings_map(None);
    assert_eq!(get_close_behavior(&m), "minimize");
    set_close_behavior(&mut m, "close".to_string());
    assert_eq!(get_close_behavior(&m), "close");
    let json = save_settings_map(&m).unwrap();
    assert_eq!(json, "{\"close_behavior\":\"close\"}");
    let back = load_settings_map(Some(&json));
    assert_eq!(get_close_behavior(&back), "close");
    assert_eq!(get_close_behavior(&load_settings_map(Some("not json"))), "minimize");
    assert_eq!(get_close_behavior(&load_settings_map(Some("{\"close_behavior\":1}"))), "minimize");
    let two = load_settings_map(Some("{\"a\":\"1\",\"close_behavior\":\"minimize\"}"));
    assert_eq!(two.len(), 2);
}

#[test]
fn window_rules() {
    assert!(close_action("close") == CloseAction::ConfirmQuit);
    assert!(close_action("minimize") == CloseAction::HideToTray);
    assert!(navigation_decision("tauri", None) == NavigationDecision::Allow);
    assert!(navigation_decision("http", Some("localhost")) == NavigationDecision::Allow);
    assert!(navigation_decision("https", Some("github.com")) == NavigationDecision::OpenExternally);
    assert!(navigation_decision("mailto", None) == NavigationDecision::OpenExternally);
    assert!(navigation_decision("file", None) == NavigationDecision::Allow);
}

#[test]
fn icon_decoding() {
    assert!(decode_icon(b"not an image").is_none());
    let png: Vec<u8> = vec![
        0x89, 0x50, 0x4E, 0x47, 0x0D, 0x0A, 0x1A, 0x0A, 0x00, 0x00, 0x00, 0x0D, 0x49, 0x48, 0x44,
        0x52, 0x00, 0x00, 0x00, 0x01, 0x00, 0x00, 0x00, 0x01, 0x08, 0x06, 0x00, 0x00, 0x00, 0x1F,
        0x15, 0xC4, 0x89, 0x00, 0x00, 0x00, 0x0D, 0x49, 0x44, 0x41, 0x54, 0x78, 0x9C, 0x63, 0xF8,
        0xCF, 0xC0, 0xF0, 0x1F, 0x00, 0x05, 0x00, 0x01, 0xFF, 0x89, 0x99, 0x3D, 0x1D, 0x00, 0x00,
        0x00, 0x00, 0x49, 0x45, 0x4E, 0x44, 0xAE, 0x42, 0x60, 0x82,
    ];
    let img = decode_icon(&png).unwrap();
    assert_eq!((img.width, img.height), (1, 1));
    assert_eq!(img.rgba.len(), 4);
}

#[test]
fn close_behavior_read_back_through_settings_text() {
    let text = settings_text_with_close_behavior(None, "close".to_string());
    assert_eq!(get_close_behavior(&load_settings_map(Some(&text))), "close");
    let other = "{\"theme\":\"dark \\\"x\\\" \\n\",\"close_behavior\":\"close\"}";
    let text = settings_text_with_close_behavior(Some(other), "minimize".to_string());
    let back = load_settings_map(Some(&text));
    assert_eq!(get_close_behavior(&back), "minimize");
    assert_eq!(back.get(&"theme".to_string()), Some("dark \"x\" \n".to_string()));
    assert_eq!(back.len(), 2);
}
