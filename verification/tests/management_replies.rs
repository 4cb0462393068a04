use anyn2n::addr::Platform;
use anyn2n::management::{arp_table_from_output, detect_vpn_subnet, parse_status};
use anyn2n::strmap::StringMap;

const SUMMARY: &str = "uptime 120 | pend_peers 0 | known_peers 2 | transop 345,678\n\
super 12,3\n\
last_super 7\n\
last_p2p 4\n\
COMMUNITY 'gamers'\n";

const EDGES: &str = " id  tun_tap          MAC                edge                  hint  last_seen\n\
=====================================================================\n\
SUPERNODE FORWARD\n\
  1 |                | 02:AB:CD:EF:01:02 | 1.2.3.4:5678 |  | 1700000001\n\
  2 | 10.88.45.9     | 01:00:5e:00:00:01 | 1.2.3.4:5679 |  | 1700000002\n\
PEER TO PEER\n\
  3 | 10.88.45.7     | 02:00:00:00:00:07 | 5.6.7.8:1000 |  | 1700000003\n\
  4 | 10.88.45.8     | 02:00:00:00:00:08 | 0.0.0.0:0    |  | 1700000004\n\
SUPERNODES\n\
 l  | sn             | aa:bb:cc:dd:ee:ff | 9.9.9.9:7654 |\n";

#[test]
fn dashed_section_titles_are_rules() {
    let edges = "    ---- PEER TO PEER ----\n  3 | 10.88.45.7 | 02:00:00:00:00:07 | 5.6.7.8:1000 |  | 9\n";
    let st = parse_status("", edges, &StringMap::new());
    assert_eq!(st.peers.len(), 1);
    assert_eq!(st.peers[0].connection_type, "relay");
}

#[test]
fn subnet_from_edges_table() {
    assert_eq!(detect_vpn_subnet(EDGES), Some("10.88.45".to_string()));
    assert_eq!(detect_vpn_subnet("no table"), None);
}

#[test]
fn summary_and_edges_parse() {
    let mut arp = StringMap::new();
    arp.insert("02:ab:cd:ef:01:02".to_string(), "10.88.45.2".to_string());
    let st = parse_status(SUMMARY, EDGES, &arp);
    assert!(st.is_running);
    assert_eq!(st.uptime, 120);
    assert_eq!(st.peer_count, 2);
    assert_eq!(st.tx_packets, 345);
    assert_eq!(st.rx_packets, 678);
    assert_eq!(st.forward_count, 12);
    assert_eq!(st.last_super, 7);
    assert_eq!(st.last_p2p, 4);
    assert_eq!(st.community, "gamers");
    assert_eq!(st.supernode_addr, "9.9.9.9:7654");
    assert_eq!(st.supernode_mac, "aa:bb:cc:dd:ee:ff");
    assert_eq!(st.local_ip, "");
    assert_eq!(st.peers.len(), 2);
    assert_eq!(st.peers[0].ip_addr, "10.88.45.2");
    assert_eq!(st.peers[0].mac_addr, "02:AB:CD:EF:01:02");
    assert_eq!(st.peers[0].connection_type, "relay");
    assert_eq!(st.peers[0].last_seen, 1700000001);
    assert_eq!(st.peers[1].ip_addr, "10.88.45.7");
    assert_eq!(st.peers[1].connection_type, "p2p");
    assert_eq!(st.peers[1].last_seen, 1700000003);
}

#[test]
fn peer_without_address_is_skipped() {
    let st = parse_status("", EDGES, &StringMap::new());
    assert_eq!(st.peers.len(), 1);
    assert_eq!(st.peers[0].ip_addr, "10.88.45.7");
    assert_eq!(st.uptime, 0);
    assert_eq!(st.community, "");
}

#[test]
fn arp_table_keeps_subnet_entries() {
    let out = "10.88.45.2 dev n2n0 lladdr 02:AB:CD:EF:01:02 REACHABLE\n\
192.168.1.1 dev eth0 lladdr 00:11:22:33:44:55 STALE\n\
10.88.45.3 dev n2n0 lladdr 02:ab:cd:ef:01:02 REACHABLE\n";
    let t = arp_table_from_output(out, "10.88.45", Platform::Linux);
    assert_eq!(t.len(), 1);
    assert_eq!(t.get(&"02:ab:cd:ef:01:02".to_string()), Some("10.88.45.3".to_string()));
    assert_eq!(t.get(&"00:11:22:33:44:55".to_string()), None);
}

#[test]
fn arp_table_subnet_is_a_whole_field() {
    let out = "10.9.1.4 dev n2n0 lladdr 02:00:00:00:00:01 REACHABLE\n\
10.9.100.3 dev n2n0 lladdr 02:00:00:00:00:02 REACHABLE\n\
10.9.10.5 dev n2n0 lladdr 02:00:00:00:00:03 REACHABLE\n";
    let t = arp_table_from_output(out, "10.9.1", Platform::Linux);
    assert_eq!(t.len(), 1);
    assert_eq!(t.get(&"02:00:00:00:00:01".to_string()), Some("10.9.1.4".to_string()));
    assert_eq!(t.get(&"02:00:00:00:00:02".to_string()), None);
    assert_eq!(t.get(&"02:00:00:00:00:03".to_string()), None);
}

#[test]
fn macos_listing_with_reversed_parentheses_is_skipped() {
    let out = "a ) b ( c\n? (10.0.0.1) at 0:11:22:33:44:55 on en0 [ethernet]\n";
    let t = arp_table_from_output(out, "10.0.0", Platform::MacOs);
    assert_eq!(t.len(), 1);
    assert_eq!(t.get(&"00:11:22:33:44:55".to_string()), Some("10.0.0.1".to_string()));
}

#[test]
fn peers_follow_row_order_and_section() {
    let edges = "PEER TO PEER\n\
  1 | 10.1.1.3 | 02:00:00:00:00:03 | 5.6.7.8:1 |  | 3\n\
  2 | 10.1.1.1 | 02:00:00:00:00:01 | 5.6.7.8:2 |  | 1\n\
SUPERNODE FORWARD\n\
  3 | 10.1.1.2 | 02:00:00:00:00:02 | 5.6.7.8:3 |  | 2\n\
SUPERNODES\n\
  4 | 10.1.1.4 | 02:00:00:00:00:04 | 5.6.7.8:4 |  | 4\n\
PEER TO PEER\n\
  5 | 10.1.1.5 | 02:00:00:00:00:05 | 5.6.7.8:5 |  | 5\n";
    let st = parse_status("", edges, &StringMap::new());
    let ips: Vec<&str> = st.peers.iter().map(|p| p.ip_addr.as_str()).collect();
    assert_eq!(ips, vec!["10.1.1.3", "10.1.1.1", "10.1.1.2", "10.1.1.5"]);
    let types: Vec<&str> = st.peers.iter().map(|p| p.connection_type.as_str()).collect();
    assert_eq!(types, vec!["p2p", "p2p", "relay", "p2p"]);
}

#[test]
fn rows_before_any_section_are_relay() {
    let edges = "  1 | 10.1.1.9 | 02:00:00:00:00:09 | 5.6.7.8:9 |  | 9\n";
    let st = parse_status("", edges, &StringMap::new());
    assert_eq!(st.peers.len(), 1);
    assert_eq!(st.peers[0].connection_type, "relay");
}
