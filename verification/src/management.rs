//! The edge's management replies: the `r` summary and the `edges` table,
//! read into an [`EdgeStatus`]; and the ARP table that names peers whose
//! row lacks a VPN address.

use vstd::prelude::*;
use crate::addr::{
    arp_line, arp_line_chars, ip_chars_valid, subnet_prefix, subnet_prefix_chars, valid_ip, vpn_chars, vpn_ip, Platform,
};
use crate::strmap::StringMap;
use crate::text::{
    chars_of, contains, contains_lit, copy_at, eq_lit, lines, lines_of, num_at, num_at_of,
    parse_u64, parse_u64_spec, replace_char, replace_chars, split, split_chars, starts_with,
    starts_with_lit, string_of, trim, trim_chars, trim_matches, trim_matches_chars, views, words,
    words_of,
};
use crate::trusted::{lowercase, to_lowercase};

verus! {

/// A peer seen in the `edges` table.
#[derive(Clone, Debug)]
pub struct PeerInfo {
    pub mac_addr: String,
    pub ip_addr: String,
    /// `p2p` or `relay`.
    pub connection_type: String,
    pub last_seen: u64,
}

pub struct PeerInfoView {
    pub mac_addr: Seq<char>,
    pub ip_addr: Seq<char>,
    pub connection_type: Seq<char>,
    pub last_seen: u64,
}

impl View for PeerInfo {
    type V = PeerInfoView;

    open spec fn view(&self) -> PeerInfoView {
        PeerInfoView {
            mac_addr: self.mac_addr@,
            ip_addr: self.ip_addr@,
            connection_type: self.connection_type@,
            last_seen: self.last_seen,
        }
    }
}

/// What the edge reports about itself and its peers.
#[derive(Clone, Debug)]
pub struct EdgeStatus {
    pub is_running: bool,
    pub uptime: u64,
    pub tx_packets: u64,
    pub rx_packets: u64,
    pub peers: Vec<PeerInfo>,
    pub supernode_addr: String,
    pub peer_count: u64,
    pub forward_count: u64,
    pub last_super: u64,
    pub last_p2p: u64,
    pub community: String,
    pub local_ip: String,
    pub local_mac: String,
    pub supernode_mac: String,
}

pub struct EdgeStatusView {
    pub is_running: bool,
    pub uptime: u64,
    pub tx_packets: u64,
    pub rx_packets: u64,
    pub peers: Seq<PeerInfoView>,
    pub supernode_addr: Seq<char>,
    pub peer_count: u64,
    pub forward_count: u64,
    pub last_super: u64,
    pub last_p2p: u64,
    pub community: Seq<char>,
    pub local_ip: Seq<char>,
    pub local_mac: Seq<char>,
    pub supernode_mac: Seq<char>,
}

pub open spec fn peer_views(p: Seq<PeerInfo>) -> Seq<PeerInfoView> {
    p.map_values(|x: PeerInfo| x@)
}

impl View for EdgeStatus {
    type V = EdgeStatusView;

    open spec fn view(&self) -> EdgeStatusView {
        EdgeStatusView {
            is_running: self.is_running,
            uptime: self.uptime,
            tx_packets: self.tx_packets,
            rx_packets: self.rx_packets,
            peers: peer_views(self.peers@),
            supernode_addr: self.supernode_addr@,
            peer_count: self.peer_count,
            forward_count: self.forward_count,
            last_super: self.last_super,
            last_p2p: self.last_p2p,
            community: self.community@,
            local_ip: self.local_ip@,
            local_mac: self.local_mac@,
            supernode_mac: self.supernode_mac@,
        }
    }
}

/// Which block of the `edges` table a row belongs to.
#[derive(Clone, Copy, PartialEq, Eq, Structural)]
pub enum Section {
    Start,
    Forward,
    P2p,
    Supernodes,
}

// ---------------------------------------------------------------------------
// Spec model
// ---------------------------------------------------------------------------

/// The status before anything is read: running, all counts 0, all text empty.
pub open spec fn initial_status() -> EdgeStatusView {
    EdgeStatusView {
        is_running: true,
        uptime: 0,
        tx_packets: 0,
        rx_packets: 0,
        peers: Seq::empty(),
        supernode_addr: Seq::empty(),
        peer_count: 0,
        forward_count: 0,
        last_super: 0,
        last_p2p: 0,
        community: Seq::empty(),
        local_ip: Seq::empty(),
        local_mac: Seq::empty(),
        supernode_mac: Seq::empty(),
    }
}

/// One `key value` part of the `uptime ... | ... | ...` summary line.
pub open spec fn apply_summary_part(st: EdgeStatusView, part: Seq<char>) -> EdgeStatusView {
    let kv = words(trim(part));
    if kv.len() == 0 {
        st
    } else if kv[0] == "uptime"@ {
        EdgeStatusView { uptime: num_at(kv, 1), ..st }
    } else if kv[0] == "known_peers"@ {
        EdgeStatusView { peer_count: num_at(kv, 1), ..st }
    } else if kv[0] == "transop"@ && kv.len() > 1 {
        let p = split(kv[1], ',');
        EdgeStatusView { tx_packets: num_at(p, 0), rx_packets: num_at(p, 1), ..st }
    } else {
        st
    }
}

pub open spec fn apply_summary_parts(st: EdgeStatusView, parts: Seq<Seq<char>>) -> EdgeStatusView
    decreases parts.len(),
{
    if parts.len() == 0 {
        st
    } else {
        apply_summary_part(apply_summary_parts(st, parts.drop_last()), parts.last())
    }
}

/// One line of the summary reply.
pub open spec fn apply_summary_line(st: EdgeStatusView, raw: Seq<char>) -> EdgeStatusView {
    let line = trim(raw);
    let w = words(line);
    let s1 = if starts_with(line, "uptime "@) {
        apply_summary_parts(st, split(line, '|'))
    } else {
        st
    };
    let s2 = if starts_with(line, "super "@) && w.len() > 1 {
        EdgeStatusView { forward_count: num_at(split(w[1], ','), 0), ..s1 }
    } else {
        s1
    };
    let s3 = if starts_with(line, "last_super "@) {
        EdgeStatusView { last_super: num_at(w, 1), ..s2 }
    } else {
        s2
    };
    let s4 = if starts_with(line, "last_p2p "@) {
        EdgeStatusView { last_p2p: num_at(w, 1), ..s3 }
    } else {
        s3
    };
    if starts_with(line, "COMMUNITY "@) || starts_with(line, "community "@) {
        let name = if w.len() > 1 {
            w[1]
        } else {
            Seq::empty()
        };
        EdgeStatusView { community: trim_matches(name, '\''), ..s4 }
    } else {
        s4
    }
}

pub open spec fn apply_summary(st: EdgeStatusView, ls: Seq<Seq<char>>) -> EdgeStatusView
    decreases ls.len(),
{
    if ls.len() == 0 {
        st
    } else {
        apply_summary_line(apply_summary(st, ls.drop_last()), ls.last())
    }
}

/// A row of the `SUPERNODES` block: the supernode in use (label with `l` or
/// `*`) gives its address and MAC.
pub open spec fn supernode_row(st: EdgeStatusView, parts: Seq<Seq<char>>) -> EdgeStatusView {
    let label = trim(parts[0]);
    let mac = trim(parts[2]);
    let addr = if parts.len() > 3 {
        trim(parts[3])
    } else {
        Seq::empty()
    };
    if contains(label, "l"@) || contains(label, "*"@) {
        let s1 = if addr.len() > 0 && addr != "0.0.0.0:0"@ {
            EdgeStatusView { supernode_addr: addr, ..st }
        } else {
            st
        };
        if mac.len() > 0 {
            EdgeStatusView { supernode_mac: mac, ..s1 }
        } else {
            s1
        }
    } else {
        st
    }
}

/// The ARP table key of a MAC: lower case, colon-separated.
pub open spec fn arp_key(mac: Seq<char>) -> Seq<char> {
    replace_char(lowercase(mac), '-', ':')
}

pub open spec fn lookup(m: Map<Seq<char>, Seq<char>>, k: Seq<char>) -> Seq<char> {
    if m.dom().contains(k) {
        m[k]
    } else {
        Seq::empty()
    }
}

/// Rows for internal entries (empty, header, multicast MACs) and rows
/// without a real edge address are skipped.
pub open spec fn skipped_peer(mac: Seq<char>, edge: Seq<char>) -> bool {
    mac.len() == 0 || mac == "MAC"@ || starts_with(mac, "01:80"@) || starts_with(mac, "01:00"@)
        || edge.len() == 0 || edge == "0.0.0.0:0"@
}

pub open spec fn connection_type(sec: Section) -> Seq<char> {
    if sec == Section::P2p {
        "p2p"@
    } else {
        "relay"@
    }
}

/// The peer that a row `| TAP | MAC | EDGE | ... | LAST SEEN` names, read in
/// section `sec`; a row without a TAP address takes it from the ARP table.
pub open spec fn parts_peer(
    sec: Section,
    parts: Seq<Seq<char>>,
    arp: Map<Seq<char>, Seq<char>>,
) -> Option<PeerInfoView> {
    let vpn = trim(parts[1]);
    let mac = trim(parts[2]);
    let edge = trim(parts[3]);
    if skipped_peer(mac, edge) {
        None
    } else {
        let ip = if vpn.len() == 0 {
            lookup(arp, arp_key(mac))
        } else {
            vpn
        };
        if ip.len() == 0 {
            None
        } else {
            let last_seen = if parts.len() >= 6 {
                match parse_u64_spec(trim(parts[5])) {
                    Some(v) => v,
                    None => 0,
                }
            } else {
                0
            };
            Some(
                PeerInfoView {
                    mac_addr: mac,
                    ip_addr: ip,
                    connection_type: connection_type(sec),
                    last_seen,
                },
            )
        }
    }
}

/// A peer row adds the peer it names, if any.
pub open spec fn peer_row(
    sec: Section,
    st: EdgeStatusView,
    parts: Seq<Seq<char>>,
    arp: Map<Seq<char>, Seq<char>>,
) -> EdgeStatusView {
    match parts_peer(sec, parts, arp) {
        Some(peer) => EdgeStatusView { peers: st.peers.push(peer), ..st },
        None => st,
    }
}

pub open spec fn is_rule_line(line: Seq<char>) -> bool {
    starts_with(line, "="@) || starts_with(line, "-"@) || starts_with(line, "#"@)
}

pub open spec fn is_header_line(line: Seq<char>) -> bool {
    contains(line, "TAP"@) && contains(line, "MAC"@) && contains(line, "EDGE"@)
}

/// One line of the `edges` reply.
pub open spec fn apply_edge_line(
    sec: Section,
    st: EdgeStatusView,
    raw: Seq<char>,
    arp: Map<Seq<char>, Seq<char>>,
) -> (Section, EdgeStatusView) {
    let line = trim(raw);
    if line.len() == 0 {
        (sec, st)
    } else if starts_with(line, "SUPERNODE FORWARD"@) {
        (Section::Forward, st)
    } else if starts_with(line, "PEER TO PEER"@) {
        (Section::P2p, st)
    } else if starts_with(line, "SUPERNODES"@) {
        (Section::Supernodes, st)
    } else if is_rule_line(line) || is_header_line(line) {
        (sec, st)
    } else {
        let parts = split(line, '|');
        if sec == Section::Supernodes && parts.len() >= 3 {
            (sec, supernode_row(st, parts))
        } else if parts.len() < 5 {
            (sec, st)
        } else {
            (sec, peer_row(sec, st, parts, arp))
        }
    }
}

pub open spec fn apply_edges(
    sec: Section,
    st: EdgeStatusView,
    ls: Seq<Seq<char>>,
    arp: Map<Seq<char>, Seq<char>>,
) -> (Section, EdgeStatusView)
    decreases ls.len(),
{
    if ls.len() == 0 {
        (sec, st)
    } else {
        let r = apply_edges(sec, st, ls.drop_last(), arp);
        apply_edge_line(r.0, r.1, ls.last(), arp)
    }
}

/// The status that the two replies describe, given the ARP table.
pub open spec fn parsed_status(
    summary: Seq<char>,
    edges: Seq<char>,
    arp: Map<Seq<char>, Seq<char>>,
) -> EdgeStatusView {
    let st = apply_summary(initial_status(), lines(summary));
    apply_edges(Section::Start, st, lines(edges), arp).1
}

/// The section in force after line `raw`, read in section `sec`.
pub open spec fn next_section(sec: Section, raw: Seq<char>) -> Section {
    let line = trim(raw);
    if line.len() == 0 {
        sec
    } else if starts_with(line, "SUPERNODE FORWARD"@) {
        Section::Forward
    } else if starts_with(line, "PEER TO PEER"@) {
        Section::P2p
    } else if starts_with(line, "SUPERNODES"@) {
        Section::Supernodes
    } else {
        sec
    }
}

/// The section in force after the lines `ls`: the last section header among
/// them, or `Start` when there is none.
pub open spec fn section_after(ls: Seq<Seq<char>>) -> Section
    decreases ls.len(),
{
    if ls.len() == 0 {
        Section::Start
    } else {
        next_section(section_after(ls.drop_last()), ls.last())
    }
}

/// The peer that line `raw` of the `edges` table yields, read in section
/// `sec`: none for an empty, header, rule or section line, for a row of the
/// `SUPERNODES` block, and for a row of fewer than five fields.
pub open spec fn row_peer(sec: Section, raw: Seq<char>, arp: Map<Seq<char>, Seq<char>>) -> Option<
    PeerInfoView,
> {
    let line = trim(raw);
    if line.len() == 0 || starts_with(line, "SUPERNODE FORWARD"@) || starts_with(
        line,
        "PEER TO PEER"@,
    ) || starts_with(line, "SUPERNODES"@) || is_rule_line(line) || is_header_line(line) {
        None
    } else {
        let parts = split(line, '|');
        if sec == Section::Supernodes || parts.len() < 5 {
            None
        } else {
            parts_peer(sec, parts, arp)
        }
    }
}

/// The peers that the lines `ls` yield, line by line in order, each read in
/// the section that the lines before it leave in force.
pub open spec fn row_peers(ls: Seq<Seq<char>>, arp: Map<Seq<char>, Seq<char>>) -> Seq<PeerInfoView>
    decreases ls.len(),
{
    if ls.len() == 0 {
        Seq::empty()
    } else {
        let prev = row_peers(ls.drop_last(), arp);
        match row_peer(section_after(ls.drop_last()), ls.last(), arp) {
            Some(p) => prev.push(p),
            None => prev,
        }
    }
}

/// The subnet that a row's TAP address lies in, when it is a VPN address.
pub open spec fn row_subnet(raw: Seq<char>) -> Option<Seq<char>> {
    let line = trim(raw);
    let p = split(line, '|');
    if line.len() > 0 && p.len() >= 2 {
        let ip = trim(p[1]);
        if ip.len() > 0 && valid_ip(ip) && vpn_ip(ip) {
            Some(subnet_prefix(ip))
        } else {
            None
        }
    } else {
        None
    }
}

pub open spec fn first_subnet(ls: Seq<Seq<char>>, i: int) -> Option<Seq<char>>
    decreases ls.len() - i,
{
    if i < 0 || i >= ls.len() {
        None
    } else {
        match row_subnet(ls[i]) {
            Some(s) => Some(s),
            None => first_subnet(ls, i + 1),
        }
    }
}

/// The local VPN subnet: the first VPN address in the `edges` table, cut to
/// three fields.
pub open spec fn vpn_subnet(edges: Seq<char>) -> Option<Seq<char>> {
    first_subnet(lines(edges), 0)
}

/// `ip` lies in the three-field subnet `subnet`: it starts with the subnet
/// followed by a dot.
pub open spec fn in_subnet(ip: Seq<char>, subnet: Seq<char>) -> bool {
    starts_with(ip, subnet + seq!['.'])
}

/// The ARP entries (MAC to address) whose address lies in `subnet`; a later
/// line wins.
pub open spec fn arp_entries(ls: Seq<Seq<char>>, subnet: Seq<char>, platform: Platform) -> Map<
    Seq<char>,
    Seq<char>,
>
    decreases ls.len(),
{
    if ls.len() == 0 {
        Map::empty()
    } else {
        let m = arp_entries(ls.drop_last(), subnet, platform);
        match arp_line(platform, ls.last()) {
            Some((ip, mac)) => if in_subnet(ip, subnet) {
                m.insert(mac, ip)
            } else {
                m
            },
            None => m,
        }
    }
}

pub open spec fn arp_table(text: Seq<char>, subnet: Seq<char>, platform: Platform) -> Map<
    Seq<char>,
    Seq<char>,
> {
    arp_entries(lines(text), subnet, platform)
}

// ---------------------------------------------------------------------------
// Executable parsing
// ---------------------------------------------------------------------------

fn initial_status_exec() -> (st: EdgeStatus)
    ensures
        st@ == initial_status(),
{
    let st = EdgeStatus {
        is_running: true,
        uptime: 0,
        tx_packets: 0,
        rx_packets: 0,
        peers: Vec::new(),
        supernode_addr: String::new(),
        peer_count: 0,
        forward_count: 0,
        last_super: 0,
        last_p2p: 0,
        community: String::new(),
        local_ip: String::new(),
        local_mac: String::new(),
        supernode_mac: String::new(),
    };
    assert(st@.peers =~= Seq::<PeerInfoView>::empty());
    st
}

fn apply_summary_part_exec(st: EdgeStatus, part: &[char]) -> (r: EdgeStatus)
    ensures
        r@ == apply_summary_part(st@, part@),
{
    let t = trim_chars(part);
    let kv = words_of(t.as_slice());
    if kv.len() == 0 {
        return st;
    }
    assert(views(kv@)[0] == kv@[0]@);
    if eq_lit(kv[0].as_slice(), "uptime") {
        EdgeStatus { uptime: num_at_of(&kv, 1), ..st }
    } else if eq_lit(kv[0].as_slice(), "known_peers") {
        EdgeStatus { peer_count: num_at_of(&kv, 1), ..st }
    } else if eq_lit(kv[0].as_slice(), "transop") && kv.len() > 1 {
        assert(views(kv@)[1] == kv@[1]@);
        let p = split_chars(kv[1].as_slice(), ',');
        let tx = num_at_of(&p, 0);
        let rx = num_at_of(&p, 1);
        EdgeStatus { tx_packets: tx, rx_packets: rx, ..st }
    } else {
        st
    }
}

fn apply_summary_parts_exec(st: EdgeStatus, parts: &Vec<Vec<char>>) -> (r: EdgeStatus)
    ensures
        r@ == apply_summary_parts(st@, views(parts@)),
{
    let mut st = st;
    let ghost st0 = st@;
    let n = parts.len();
    for i in 0..n
        invariant
            n == parts@.len(),
            st@ == apply_summary_parts(st0, views(parts@).take(i as int)),
    {
        assert(views(parts@).take(i + 1).drop_last() =~= views(parts@).take(i as int));
        assert(views(parts@).take(i + 1).last() == parts@[i as int]@);
        st = apply_summary_part_exec(st, parts[i].as_slice());
    }
    assert(views(parts@).take(n as int) =~= views(parts@));
    st
}

fn apply_summary_line_exec(st: EdgeStatus, raw: &[char]) -> (r: EdgeStatus)
    ensures
        r@ == apply_summary_line(st@, raw@),
{
    let line = trim_chars(raw);
    let w = words_of(line.as_slice());
    let s1 = if starts_with_lit(line.as_slice(), "uptime ") {
        let parts = split_chars(line.as_slice(), '|');
        apply_summary_parts_exec(st, &parts)
    } else {
        st
    };
    let s2 = if starts_with_lit(line.as_slice(), "super ") && w.len() > 1 {
        assert(views(w@)[1] == w@[1]@);
        let p = split_chars(w[1].as_slice(), ',');
        EdgeStatus { forward_count: num_at_of(&p, 0), ..s1 }
    } else {
        s1
    };
    let s3 = if starts_with_lit(line.as_slice(), "last_super ") {
        EdgeStatus { last_super: num_at_of(&w, 1), ..s2 }
    } else {
        s2
    };
    let s4 = if starts_with_lit(line.as_slice(), "last_p2p ") {
        EdgeStatus { last_p2p: num_at_of(&w, 1), ..s3 }
    } else {
        s3
    };
    if starts_with_lit(line.as_slice(), "COMMUNITY ") || starts_with_lit(
        line.as_slice(),
        "community ",
    ) {
        let name: Vec<char> = if w.len() > 1 {
            copy_at(&w, 1)
        } else {
            Vec::new()
        };
        let c = trim_matches_chars(name.as_slice(), '\'');
        EdgeStatus { community: string_of(c.as_slice()), ..s4 }
    } else {
        s4
    }
}

fn supernode_row_exec(st: EdgeStatus, parts: &Vec<Vec<char>>) -> (r: EdgeStatus)
    requires
        parts@.len() >= 3,
    ensures
        r@ == supernode_row(st@, views(parts@)),
{
    assert(views(parts@)[0] == parts@[0]@);
    assert(views(parts@)[2] == parts@[2]@);
    let label = trim_chars(parts[0].as_slice());
    let mac = trim_chars(parts[2].as_slice());
    let addr: Vec<char> = if parts.len() > 3 {
        assert(views(parts@)[3] == parts@[3]@);
        trim_chars(parts[3].as_slice())
    } else {
        Vec::new()
    };
    if contains_lit(label.as_slice(), "l") || contains_lit(label.as_slice(), "*") {
        let s1 = if addr.len() > 0 && !eq_lit(addr.as_slice(), "0.0.0.0:0") {
            EdgeStatus { supernode_addr: string_of(addr.as_slice()), ..st }
        } else {
            st
        };
        if mac.len() > 0 {
            EdgeStatus { supernode_mac: string_of(mac.as_slice()), ..s1 }
        } else {
            s1
        }
    } else {
        st
    }
}

fn lookup_exec(arp: &StringMap, key: &[char]) -> (res: Vec<char>)
    ensures
        res@ == lookup(arp@, key@),
{
    let k = string_of(key);
    match arp.get(&k) {
        Some(v) => chars_of(v.as_str()),
        None => Vec::new(),
    }
}

fn skipped_peer_exec(mac: &[char], edge: &[char]) -> (b: bool)
    ensures
        b == skipped_peer(mac@, edge@),
{
    mac.len() == 0 || eq_lit(mac, "MAC") || starts_with_lit(mac, "01:80") || starts_with_lit(
        mac,
        "01:00",
    ) || edge.len() == 0 || eq_lit(edge, "0.0.0.0:0")
}

fn peer_row_exec(sec: Section, st: EdgeStatus, parts: &Vec<Vec<char>>, arp: &StringMap) -> (r:
    EdgeStatus)
    requires
        parts@.len() >= 5,
    ensures
        r@ == peer_row(sec, st@, views(parts@), arp@),
{
    assert(views(parts@)[1] == parts@[1]@);
    assert(views(parts@)[2] == parts@[2]@);
    assert(views(parts@)[3] == parts@[3]@);
    let vpn = trim_chars(parts[1].as_slice());
    let mac = trim_chars(parts[2].as_slice());
    let edge = trim_chars(parts[3].as_slice());
    if skipped_peer_exec(mac.as_slice(), edge.as_slice()) {
        return st;
    }
    let ip: Vec<char> = if vpn.len() == 0 {
        let low = to_lowercase(mac.as_slice());
        let key = replace_chars(low.as_slice(), '-', ':');
        lookup_exec(arp, key.as_slice())
    } else {
        vpn
    };
    if ip.len() == 0 {
        return st;
    }
    let last_seen: u64 = if parts.len() >= 6 {
        assert(views(parts@)[5] == parts@[5]@);
        let f = trim_chars(parts[5].as_slice());
        match parse_u64(f.as_slice()) {
            Some(v) => v,
            None => 0,
        }
    } else {
        0
    };
    let ct = if sec == Section::P2p {
        "p2p".to_string()
    } else {
        "relay".to_string()
    };
    let peer = PeerInfo {
        mac_addr: string_of(mac.as_slice()),
        ip_addr: string_of(ip.as_slice()),
        connection_type: ct,
        last_seen,
    };
    let mut st = st;
    let ghost before = st@;
    st.peers.push(peer);
    assert(st@.peers =~= before.peers.push(peer@));
    st
}

fn apply_edge_line_exec(sec: Section, st: EdgeStatus, raw: &[char], arp: &StringMap) -> (r: (
    Section,
    EdgeStatus,
))
    ensures
        (r.0, r.1@) == apply_edge_line(sec, st@, raw@, arp@),
{
    let line = trim_chars(raw);
    let l = line.as_slice();
    if line.len() == 0 {
        (sec, st)
    } else if starts_with_lit(l, "SUPERNODE FORWARD") {
        (Section::Forward, st)
    } else if starts_with_lit(l, "PEER TO PEER") {
        (Section::P2p, st)
    } else if starts_with_lit(l, "SUPERNODES") {
        (Section::Supernodes, st)
    } else if starts_with_lit(l, "=") || starts_with_lit(l, "-") || starts_with_lit(l, "#") || (
    contains_lit(l, "TAP") && contains_lit(l, "MAC") && contains_lit(l, "EDGE")) {
        (sec, st)
    } else {
        let parts = split_chars(l, '|');
        if sec == Section::Supernodes && parts.len() >= 3 {
            (sec, supernode_row_exec(st, &parts))
        } else if parts.len() < 5 {
            (sec, st)
        } else {
            (sec, peer_row_exec(sec, st, &parts, arp))
        }
    }
}

/// Reads the `r` summary reply and the `edges` reply into a status;
/// `arp_table` names peers whose row has no TAP address.
pub fn parse_status(summary: &str, edges_raw: &str, arp_table: &StringMap) -> (res: EdgeStatus)
    ensures
        res@ == parsed_status(summary@, edges_raw@, arp_table@),
{
    let sc = chars_of(summary);
    let sl = lines_of(sc.as_slice());
    let mut st = initial_status_exec();
    let n = sl.len();
    for i in 0..n
        invariant
            n == sl@.len(),
            views(sl@) == lines(summary@),
            st@ == apply_summary(initial_status(), views(sl@).take(i as int)),
    {
        assert(views(sl@).take(i + 1).drop_last() =~= views(sl@).take(i as int));
        assert(views(sl@).take(i + 1).last() == sl@[i as int]@);
        st = apply_summary_line_exec(st, sl[i].as_slice());
    }
    assert(views(sl@).take(n as int) =~= views(sl@));
    let ghost st1 = st@;
    let ec = chars_of(edges_raw);
    let el = lines_of(ec.as_slice());
    let mut sec = Section::Start;
    let m = el.len();
    for i in 0..m
        invariant
            m == el@.len(),
            views(el@) == lines(edges_raw@),
            (sec, st@) == apply_edges(Section::Start, st1, views(el@).take(i as int), arp_table@),
    {
        assert(views(el@).take(i + 1).drop_last() =~= views(el@).take(i as int));
        assert(views(el@).take(i + 1).last() == el@[i as int]@);
        let r = apply_edge_line_exec(sec, st, el[i].as_slice(), arp_table);
        sec = r.0;
        st = r.1;
    }
    assert(views(el@).take(m as int) =~= views(el@));
    st
}

fn row_subnet_exec(raw: &[char]) -> (res: Option<Vec<char>>)
    ensures
        match res {
            Some(s) => row_subnet(raw@) == Some(s@),
            None => row_subnet(raw@) is None,
        },
{
    let line = trim_chars(raw);
    let p = split_chars(line.as_slice(), '|');
    if line.len() > 0 && p.len() >= 2 {
        assert(views(p@)[1] == p@[1]@);
        let ip = trim_chars(p[1].as_slice());
        if ip.len() > 0 && ip_chars_valid(ip.as_slice()) && vpn_chars(ip.as_slice()) {
            Some(subnet_prefix_chars(ip.as_slice()))
        } else {
            None
        }
    } else {
        None
    }
}

/// The local VPN subnet that the `edges` reply shows: the first TAP address
/// in a private range, cut to three fields (`10.88.45.7` gives `10.88.45`).
pub fn detect_vpn_subnet(edges_raw: &str) -> (res: Option<String>)
    ensures
        match res {
            Some(s) => vpn_subnet(edges_raw@) == Some(s@),
            None => vpn_subnet(edges_raw@) is None,
        },
{
    let ec = chars_of(edges_raw);
    let el = lines_of(ec.as_slice());
    let n = el.len();
    for i in 0..n
        invariant
            n == el@.len(),
            views(el@) == lines(edges_raw@),
            vpn_subnet(edges_raw@) == first_subnet(views(el@), i as int),
    {
        assert(views(el@)[i as int] == el@[i as int]@);
        match row_subnet_exec(el[i].as_slice()) {
            Some(s) => {
                return Some(string_of(s.as_slice()));
            },
            None => {},
        }
    }
    None
}

/// The MAC-to-address entries of an ARP listing whose address lies in
/// `subnet`; a later line wins.
pub fn arp_table_from_output(text: &str, subnet: &str, platform: Platform) -> (res: StringMap)
    ensures
        res@ == arp_table(text@, subnet@, platform),
{
    let tc = chars_of(text);
    let tl = lines_of(tc.as_slice());
    let mut sub = chars_of(subnet);
    sub.push('.');
    let mut m = StringMap::new();
    let n = tl.len();
    for i in 0..n
        invariant
            n == tl@.len(),
            views(tl@) == lines(text@),
            sub@ == subnet@ + seq!['.'],
            m@ == arp_entries(views(tl@).take(i as int), subnet@, platform),
    {
        assert(views(tl@).take(i + 1).drop_last() =~= views(tl@).take(i as int));
        assert(views(tl@).take(i + 1).last() == tl@[i as int]@);
        assert(views(tl@)[i as int] == tl@[i as int]@);
        match arp_line_chars(tl[i].as_slice(), platform) {
            Some((ip, mac)) => {
                if crate::text::has_prefix(ip.as_slice(), sub.as_slice()) {
                    m.insert(string_of(mac.as_slice()), string_of(ip.as_slice()));
                }
            },
            None => {},
        }
    }
    assert(views(tl@).take(n as int) =~= views(tl@));
    m
}

// ---------------------------------------------------------------------------
// Laws
// ---------------------------------------------------------------------------

/// A peer as reported: a real MAC (not empty, not the header word, not
/// multicast), an address, and a connection type of `p2p` or `relay`.
pub open spec fn reportable_peer(p: PeerInfoView) -> bool {
    &&& p.mac_addr.len() > 0
    &&& p.mac_addr != "MAC"@
    &&& !starts_with(p.mac_addr, "01:80"@)
    &&& !starts_with(p.mac_addr, "01:00"@)
    &&& p.ip_addr.len() > 0
    &&& (p.connection_type == "p2p"@ || p.connection_type == "relay"@)
}

pub open spec fn all_reportable(ps: Seq<PeerInfoView>) -> bool {
    forall|i: int| 0 <= i < ps.len() ==> #[trigger] reportable_peer(ps[i])
}

/// The fields that only the summary sets.
pub open spec fn same_summary_fields(a: EdgeStatusView, b: EdgeStatusView) -> bool {
    &&& a.is_running == b.is_running
    &&& a.uptime == b.uptime
    &&& a.tx_packets == b.tx_packets
    &&& a.rx_packets == b.rx_packets
    &&& a.peer_count == b.peer_count
    &&& a.forward_count == b.forward_count
    &&& a.last_super == b.last_super
    &&& a.last_p2p == b.last_p2p
    &&& a.community == b.community
    &&& a.local_ip == b.local_ip
    &&& a.local_mac == b.local_mac
}

proof fn lemma_summary_parts_keep_peers(st: EdgeStatusView, parts: Seq<Seq<char>>)
    ensures
        apply_summary_parts(st, parts).peers == st.peers,
        apply_summary_parts(st, parts).supernode_addr == st.supernode_addr,
        apply_summary_parts(st, parts).supernode_mac == st.supernode_mac,
    decreases parts.len(),
{
    if parts.len() > 0 {
        lemma_summary_parts_keep_peers(st, parts.drop_last());
    }
}

proof fn lemma_summary_keeps_peers(st: EdgeStatusView, ls: Seq<Seq<char>>)
    ensures
        apply_summary(st, ls).peers == st.peers,
        apply_summary(st, ls).supernode_addr == st.supernode_addr,
        apply_summary(st, ls).supernode_mac == st.supernode_mac,
    decreases ls.len(),
{
    if ls.len() > 0 {
        let prev = apply_summary(st, ls.drop_last());
        lemma_summary_keeps_peers(st, ls.drop_last());
        let line = trim(ls.last());
        lemma_summary_parts_keep_peers(prev, split(line, '|'));
    }
}

proof fn lemma_edges_keep_summary(
    sec: Section,
    st: EdgeStatusView,
    ls: Seq<Seq<char>>,
    arp: Map<Seq<char>, Seq<char>>,
)
    requires
        all_reportable(st.peers),
    ensures
        same_summary_fields(apply_edges(sec, st, ls, arp).1, st),
        all_reportable(apply_edges(sec, st, ls, arp).1.peers),
    decreases ls.len(),
{
    if ls.len() > 0 {
        lemma_edges_keep_summary(sec, st, ls.drop_last(), arp);
        let r = apply_edges(sec, st, ls.drop_last(), arp);
        let line = trim(ls.last());
        let parts = split(line, '|');
        let n = apply_edge_line(r.0, r.1, ls.last(), arp).1;
        if n.peers.len() != r.1.peers.len() {
            assert(n.peers == r.1.peers.push(n.peers.last()));
            assert forall|i: int| 0 <= i < n.peers.len() implies #[trigger] reportable_peer(n.peers[i]) by {
                if i < r.1.peers.len() {
                    assert(n.peers[i] == r.1.peers[i]);
                }
            }
        } else {
            assert(n.peers == r.1.peers);
        }
    }
}

/// The summary reply alone sets the counters, times and community; the
/// edges reply adds only peers and the supernode's address and MAC; and
/// every peer reported has a real MAC, an address, and a type `p2p` or
/// `relay`.
pub proof fn lemma_parsed_status(summary: Seq<char>, edges: Seq<char>, arp: Map<Seq<char>, Seq<char>>)
    ensures
        same_summary_fields(
            parsed_status(summary, edges, arp),
            apply_summary(initial_status(), lines(summary)),
        ),
        all_reportable(parsed_status(summary, edges, arp).peers),
{
    let st = apply_summary(initial_status(), lines(summary));
    lemma_summary_keeps_peers(initial_status(), lines(summary));
    assert(st.peers.len() == 0);
    lemma_edges_keep_summary(Section::Start, st, lines(edges), arp);
}

proof fn lemma_edge_line_row(
    sec: Section,
    st: EdgeStatusView,
    raw: Seq<char>,
    arp: Map<Seq<char>, Seq<char>>,
)
    ensures
        apply_edge_line(sec, st, raw, arp).0 == next_section(sec, raw),
        apply_edge_line(sec, st, raw, arp).1.peers == match row_peer(sec, raw, arp) {
            Some(p) => st.peers.push(p),
            None => st.peers,
        },
{
}

proof fn lemma_edges_rows(st: EdgeStatusView, ls: Seq<Seq<char>>, arp: Map<Seq<char>, Seq<char>>)
    ensures
        apply_edges(Section::Start, st, ls, arp).0 == section_after(ls),
        apply_edges(Section::Start, st, ls, arp).1.peers == st.peers + row_peers(ls, arp),
        row_peers(ls, arp).len() <= ls.len(),
    decreases ls.len(),
{
    if ls.len() == 0 {
        assert(st.peers + row_peers(ls, arp) =~= st.peers);
    } else {
        let d = ls.drop_last();
        lemma_edges_rows(st, d, arp);
        let r = apply_edges(Section::Start, st, d, arp);
        lemma_edge_line_row(r.0, r.1, ls.last(), arp);
        match row_peer(section_after(d), ls.last(), arp) {
            Some(p) => {
                assert(r.1.peers.push(p) =~= st.peers + row_peers(d, arp).push(p));
            },
            None => {},
        }
    }
}

/// The peers of a parsed status are the peer rows of the `edges` reply in
/// input order, at most one per line, each read in the section that the
/// lines before it leave in force.
pub proof fn lemma_peers_in_row_order(
    summary: Seq<char>,
    edges: Seq<char>,
    arp: Map<Seq<char>, Seq<char>>,
)
    ensures
        parsed_status(summary, edges, arp).peers == row_peers(lines(edges), arp),
        parsed_status(summary, edges, arp).peers.len() <= lines(edges).len(),
{
    let st = apply_summary(initial_status(), lines(summary));
    lemma_summary_keeps_peers(initial_status(), lines(summary));
    lemma_edges_rows(st, lines(edges), arp);
    assert(st.peers + row_peers(lines(edges), arp) =~= row_peers(lines(edges), arp));
}

/// A row yields a peer of type `p2p` when the section in force is
/// `PEER TO PEER` and `relay` otherwise; a row of the `SUPERNODES` block
/// yields no peer.
pub proof fn lemma_row_peer_type(sec: Section, raw: Seq<char>, arp: Map<Seq<char>, Seq<char>>)
    ensures
        row_peer(sec, raw, arp) matches Some(p) ==> p.connection_type == (if sec == Section::P2p {
            "p2p"@
        } else {
            "relay"@
        }),
        sec == Section::Supernodes ==> row_peer(sec, raw, arp) is None,
{
}

/// The section in force after some lines is that of the last section header
/// among them (`SUPERNODE FORWARD`, `PEER TO PEER` or `SUPERNODES`, each as
/// the start of a trimmed line); `Start` when there is none.
pub proof fn lemma_section_after_last_header(ls: Seq<Seq<char>>, i: int)
    requires
        0 <= i < ls.len(),
        next_section(Section::Start, ls[i]) != Section::Start,
        forall|j: int| i < j < ls.len() ==> next_section(Section::Start, #[trigger] ls[j]) == Section::Start,
    ensures
        section_after(ls) == next_section(Section::Start, ls[i]),
    decreases ls.len(),
{
    if i < ls.len() - 1 {
        let d = ls.drop_last();
        assert forall|j: int| i < j < d.len() implies next_section(Section::Start, #[trigger] d[j]) == Section::Start by {
            assert(d[j] == ls[j]);
        }
        assert(d[i] == ls[i]);
        lemma_section_after_last_header(d, i);
        assert(next_section(Section::Start, ls[ls.len() - 1]) == Section::Start);
    }
}

/// With no section header among the lines, the section in force is `Start`.
pub proof fn lemma_section_after_no_header(ls: Seq<Seq<char>>)
    requires
        forall|j: int| 0 <= j < ls.len() ==> next_section(Section::Start, #[trigger] ls[j]) == Section::Start,
    ensures
        section_after(ls) == Section::Start,
    decreases ls.len(),
{
    if ls.len() > 0 {
        let d = ls.drop_last();
        assert forall|j: int| 0 <= j < d.len() implies next_section(Section::Start, #[trigger] d[j]) == Section::Start by {
            assert(d[j] == ls[j]);
        }
        lemma_section_after_no_header(d);
        assert(next_section(Section::Start, ls[ls.len() - 1]) == Section::Start);
    }
}

/// The part names the known peers and gives their number `k`:
/// `known_peers <k>`.
pub open spec fn sets_known_peers(part: Seq<char>, k: u64) -> bool {
    let kv = words(trim(part));
    kv.len() >= 2 && kv[0] == "known_peers"@ && parse_u64_spec(kv[1]) == Some(k)
}

/// The part's first word is `known_peers`.
pub open spec fn names_known_peers(part: Seq<char>) -> bool {
    let kv = words(trim(part));
    kv.len() > 0 && kv[0] == "known_peers"@
}

/// A `pend_peers` part of the summary changes nothing: the pending peers
/// are not counted.
pub proof fn lemma_pend_peers_ignored(st: EdgeStatusView, part: Seq<char>)
    requires
        words(trim(part)).len() > 0,
        words(trim(part))[0] == "pend_peers"@,
    ensures
        apply_summary_part(st, part) == st,
{
    reveal_strlit("pend_peers");
    reveal_strlit("uptime");
    reveal_strlit("known_peers");
    reveal_strlit("transop");
    let w = words(trim(part))[0];
    assert(w.len() == 10);
    assert(w != "uptime"@);
    assert(w != "transop"@);
    assert(w[0] != "known_peers"@[0]);
}

/// An `uptime <u>` part sets the uptime to `u`; a `transop <t>,<r>` part
/// sets the sent packets to `t` and the received packets to `r`; neither
/// touches the peer count.
pub proof fn lemma_summary_part_values(st: EdgeStatusView, part: Seq<char>, u: u64, t: u64, r: u64)
    ensures
        ({
            let kv = words(trim(part));
            kv.len() >= 2 && kv[0] == "uptime"@ && parse_u64_spec(kv[1]) == Some(u) ==> {
                let n = apply_summary_part(st, part);
                n.uptime == u && n.peer_count == st.peer_count && n.tx_packets == st.tx_packets
                    && n.rx_packets == st.rx_packets
            }
        }),
        ({
            let kv = words(trim(part));
            kv.len() >= 2 && kv[0] == "transop"@ && split(kv[1], ',').len() >= 2 && parse_u64_spec(
                split(kv[1], ',')[0],
            ) == Some(t) && parse_u64_spec(split(kv[1], ',')[1]) == Some(r) ==> {
                let n = apply_summary_part(st, part);
                n.tx_packets == t && n.rx_packets == r && n.peer_count == st.peer_count
                    && n.uptime == st.uptime
            }
        }),
{
    reveal_strlit("uptime");
    reveal_strlit("known_peers");
    reveal_strlit("transop");
    let kv = words(trim(part));
    if kv.len() >= 2 && kv[0] == "transop"@ {
        assert(kv[0].len() == 7);
        assert(kv[0] != "uptime"@);
        assert(kv[0] != "known_peers"@);
    }
}

/// A part that is not `known_peers` leaves the peer count as it was.
proof fn lemma_other_part_keeps_count(st: EdgeStatusView, part: Seq<char>)
    requires
        !names_known_peers(part),
    ensures
        apply_summary_part(st, part).peer_count == st.peer_count,
{
}

/// The peer count that the `|` parts of a summary line give is the number
/// of the last `known_peers` part, whatever the parts before it say
/// (`pend_peers` among them).
pub proof fn lemma_known_peers_count(st: EdgeStatusView, parts: Seq<Seq<char>>, i: int, k: u64)
    requires
        0 <= i < parts.len(),
        sets_known_peers(parts[i], k),
        forall|j: int| i < j < parts.len() ==> !names_known_peers(#[trigger] parts[j]),
    ensures
        apply_summary_parts(st, parts).peer_count == k,
    decreases parts.len(),
{
    let d = parts.drop_last();
    if i == parts.len() - 1 {
        reveal_strlit("uptime");
        reveal_strlit("known_peers");
        let kv = words(trim(parts[i]));
        assert(kv[0].len() == 11);
        assert(kv[0] != "uptime"@);
        assert(num_at(kv, 1) == k);
        assert(apply_summary_parts(st, parts) == apply_summary_part(
            apply_summary_parts(st, d),
            parts[i],
        ));
    } else {
        assert forall|j: int| i < j < d.len() implies !names_known_peers(#[trigger] d[j]) by {
            assert(d[j] == parts[j]);
        }
        assert(d[i] == parts[i]);
        lemma_known_peers_count(st, d, i, k);
        assert(!names_known_peers(parts[parts.len() - 1]));
        lemma_other_part_keeps_count(apply_summary_parts(st, d), parts.last());
    }
}

/// A summary line `uptime ... | known_peers <k> | ...` sets the peer count
/// to `k`, as the last `known_peers` part of the line says.
pub open spec fn line_sets_known_peers(raw: Seq<char>, k: u64) -> bool {
    let line = trim(raw);
    let parts = split(line, '|');
    &&& starts_with(line, "uptime "@)
    &&& exists|i: int|
        0 <= i < parts.len() && sets_known_peers(#[trigger] parts[i], k) && forall|j: int|
            i < j < parts.len() ==> !names_known_peers(#[trigger] parts[j])
}

proof fn lemma_summary_line_count(st: EdgeStatusView, raw: Seq<char>)
    ensures
        !starts_with(trim(raw), "uptime "@) ==> apply_summary_line(st, raw).peer_count
            == st.peer_count,
        forall|k: u64| line_sets_known_peers(raw, k) ==> apply_summary_line(st, raw).peer_count == k,
{
    assert forall|k: u64| line_sets_known_peers(raw, k) implies apply_summary_line(
        st,
        raw,
    ).peer_count == k by {
        let parts = split(trim(raw), '|');
        let i = choose|i: int|
            0 <= i < parts.len() && sets_known_peers(#[trigger] parts[i], k) && forall|j: int|
                i < j < parts.len() ==> !names_known_peers(#[trigger] parts[j]);
        lemma_known_peers_count(st, parts, i, k);
    }
}

proof fn lemma_summary_count(st: EdgeStatusView, ls: Seq<Seq<char>>, i: int, k: u64)
    requires
        0 <= i < ls.len(),
        line_sets_known_peers(ls[i], k),
        forall|j: int| i < j < ls.len() ==> !starts_with(trim(#[trigger] ls[j]), "uptime "@),
    ensures
        apply_summary(st, ls).peer_count == k,
    decreases ls.len(),
{
    let d = ls.drop_last();
    lemma_summary_line_count(apply_summary(st, d), ls.last());
    if i < ls.len() - 1 {
        assert forall|j: int| i < j < d.len() implies !starts_with(trim(#[trigger] d[j]), "uptime "@) by {
            assert(d[j] == ls[j]);
        }
        assert(d[i] == ls[i]);
        lemma_summary_count(st, d, i, k);
        assert(!starts_with(trim(ls[ls.len() - 1]), "uptime "@));
    }
}

/// The parsed peer count is the number of known peers that the last
/// `uptime` line of the summary gives (its last `known_peers` part): the
/// pending peers and the `edges` reply do not change it.
pub proof fn lemma_parsed_peer_count(
    summary: Seq<char>,
    edges: Seq<char>,
    arp: Map<Seq<char>, Seq<char>>,
    i: int,
    k: u64,
)
    requires
        0 <= i < lines(summary).len(),
        line_sets_known_peers(lines(summary)[i], k),
        forall|j: int|
            i < j < lines(summary).len() ==> !starts_with(trim(#[trigger] lines(summary)[j]), "uptime "@),
    ensures
        parsed_status(summary, edges, arp).peer_count == k,
{
    lemma_summary_count(initial_status(), lines(summary), i, k);
    lemma_parsed_status(summary, edges, arp);
}

} // verus!
