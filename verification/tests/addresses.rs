use anyn2n::addr::{
    extract_ip_after_colon, extract_subnet_prefix, is_valid_ip, is_valid_mac, is_vpn_ip,
    parse_arp_line, Platform,
};

#[test]
fn valid_ip_addresses() {
    assert!(is_valid_ip("10.207.146.48"));
    assert!(is_valid_ip("0.0.0.0"));
    assert!(!is_valid_ip("256.1.1.1"));
    assert!(!is_valid_ip("1.2.3"));
    assert!(!is_valid_ip("1.2.3.4.5"));
    assert!(!is_valid_ip("a.b.c.d"));
    assert!(!is_valid_ip(""));
}

#[test]
fn valid_mac_addresses() {
    assert!(is_valid_mac("00:ff:2a:12:ad:f5"));
    assert!(is_valid_mac("00:FF:2A:12:AD:F5"));
    assert!(!is_valid_mac("00-ff-2a-12-ad-f5"));
    assert!(!is_valid_mac("0:ff:2a:12:ad:f5"));
    assert!(!is_valid_mac("00:ff:2a:12:ad"));
}

#[test]
fn vpn_ranges() {
    assert!(is_vpn_ip("10.88.45.7"));
    assert!(is_vpn_ip("172.16.0.1"));
    assert!(is_vpn_ip("172.31.255.1"));
    assert!(!is_vpn_ip("172.32.0.1"));
    assert!(!is_vpn_ip("172.15.0.1"));
    assert!(is_vpn_ip("192.168.1.1"));
    assert!(!is_vpn_ip("192.169.1.1"));
    assert!(!is_vpn_ip("8.8.8.8"));
    assert!(!is_vpn_ip("10.1.1"));
}

#[test]
fn subnet_prefix_of_address() {
    assert_eq!(extract_subnet_prefix("10.88.45.7"), "10.88.45");
    assert_eq!(extract_subnet_prefix("10.88"), "10.88");
}

#[test]
fn ip_after_colon_example() {
    assert_eq!(
        extract_ip_after_colon("created local tap device IP: 10.207.146.48, Mask: 255.255.255.0", "IP:"),
        Some("10.207.146.48".to_string())
    );
    assert_eq!(extract_ip_after_colon("IP: 10.207.146.48", "IP:"), Some("10.207.146.48".to_string()));
    assert_eq!(extract_ip_after_colon("no address here", "IP:"), None);
    assert_eq!(extract_ip_after_colon("IP: 10.1.2", "IP:"), None);
}

#[test]
fn arp_line_windows() {
    assert_eq!(
        parse_arp_line("  10.207.146.1          00-FF-2A-12-AD-F5     dynamic", Platform::Windows),
        Some(("10.207.146.1".to_string(), "00:ff:2a:12:ad:f5".to_string()))
    );
    assert_eq!(parse_arp_line("Interface: 10.0.0.2 --- 0x5", Platform::Windows), None);
    assert_eq!(parse_arp_line("   ", Platform::Windows), None);
}

#[test]
fn arp_line_linux() {
    assert_eq!(
        parse_arp_line("10.207.146.1 dev n2n0 lladdr 00:FF:2a:12:ad:f5 REACHABLE", Platform::Linux),
        Some(("10.207.146.1".to_string(), "00:ff:2a:12:ad:f5".to_string()))
    );
    assert_eq!(parse_arp_line("10.207.146.1 dev n2n0 FAILED", Platform::Linux), None);
    assert_eq!(parse_arp_line("10.207.146.1 dev n2n0 lladdr", Platform::Linux), None);
}

#[test]
fn arp_line_macos() {
    assert_eq!(
        parse_arp_line("? (10.207.146.1) at 0:ff:2a:12:ad:f5 on utun2 [ethernet]", Platform::MacOs),
        Some(("10.207.146.1".to_string(), "00:ff:2a:12:ad:f5".to_string()))
    );
    assert_eq!(
        parse_arp_line("? (10.0.0.7) at a:b:c:d:e:F on en0 [ethernet]", Platform::MacOs),
        Some(("10.0.0.7".to_string(), "0a:0b:0c:0d:0e:0f".to_string()))
    );
    assert_eq!(
        parse_arp_line("? (10.0.0.7) at 0::2a:12:ad:f5 on en0 [ethernet]", Platform::MacOs),
        None
    );
    assert_eq!(
        parse_arp_line("? (10.207.146.1) at 00:ff:2a:12:ad:f5 on utun2 [ethernet]", Platform::MacOs),
        Some(("10.207.146.1".to_string(), "00:ff:2a:12:ad:f5".to_string()))
    );
    assert_eq!(
        parse_arp_line("? (10.0.0.9) at 00-FF-2A-12-AD-F5 on en0", Platform::MacOs),
        Some(("10.0.0.9".to_string(), "00:ff:2a:12:ad:f5".to_string()))
    );
}

#[test]
fn arp_line_macos_reversed_parentheses() {
    assert_eq!(parse_arp_line("a ) b ( c", Platform::MacOs), None);
    assert_eq!(parse_arp_line(") (10.0.0.1) at 00:11:22:33:44:55 on en0", Platform::MacOs), None);
}

#[test]
fn arp_mac_is_lower_case_on_non_ascii_lines() {
    assert_eq!(
        parse_arp_line("  10.207.146.1          00-FF-2A-12-AD-F5     动态", Platform::Windows),
        Some(("10.207.146.1".to_string(), "00:ff:2a:12:ad:f5".to_string()))
    );
    assert_eq!(
        parse_arp_line("? (10.0.0.9) at A:B:C:D:E:F on 网卡 [ethernet]", Platform::MacOs),
        Some(("10.0.0.9".to_string(), "0a:0b:0c:0d:0e:0f".to_string()))
    );
}
