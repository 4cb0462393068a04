//! The edge process as the client sees it: the command line it is started
//! with, and the state read from its console output.

use vstd::prelude::*;
use crate::addr::{ip_after, ip_after_chars, Platform};
use crate::text::{
    chars_of, contains, contains_lit, decimal, decimal_string, eq_lit, lines, lines_of, starts_with,
    str_views, string_of, trim, trim_chars, views,
};
use crate::trusted::{local_timestamp, stamp_text, unix_time_secs};

verus! {

/// The management port the edge is started with.
pub const MANAGEMENT_PORT: u16 = 5644;

/// At most this many edge output lines are kept.
pub const EDGE_LOG_CAP: usize = 2000;

// ---------------------------------------------------------------------------
// Command line
// ---------------------------------------------------------------------------

/// The edge's arguments: verbose, community, supernode, management port; a
/// static address only when one is given (else the supernode assigns one);
/// the key only when one is given.
pub open spec fn edge_args_spec(
    community: Seq<char>,
    supernode: Seq<char>,
    port: u16,
    virtual_ip: Option<Seq<char>>,
    key: Option<Seq<char>>,
) -> Seq<Seq<char>> {
    let base = seq!["-v"@, "-c"@, community, "-l"@, supernode, "-t"@, decimal(port as nat)];
    let with_ip = match virtual_ip {
        Some(ip) => base + seq!["-a"@, "static:"@ + ip],
        None => base,
    };
    match key {
        Some(k) => with_ip + seq!["-k"@, k],
        None => with_ip,
    }
}

pub open spec fn opt_view(o: Option<String>) -> Option<Seq<char>> {
    match o {
        Some(s) => Some(s@),
        None => None,
    }
}

/// The arguments the edge is started with.
pub fn edge_args(
    community: String,
    supernode: String,
    management_port: u16,
    virtual_ip: Option<String>,
    encryption_key: Option<String>,
) -> (res: Vec<String>)
    ensures
        str_views(res@) == edge_args_spec(
            community@,
            supernode@,
            management_port,
            opt_view(virtual_ip),
            opt_view(encryption_key),
        ),
{
    let ghost c = community@;
    let ghost s = supernode@;
    let ghost vip = opt_view(virtual_ip);
    let ghost k = opt_view(encryption_key);
    let mut args: Vec<String> = Vec::new();
    args.push("-v".to_string());
    args.push("-c".to_string());
    args.push(community);
    args.push("-l".to_string());
    args.push(supernode);
    args.push("-t".to_string());
    args.push(decimal_string(management_port as u64));
    let ghost base = seq!["-v"@, "-c"@, c, "-l"@, s, "-t"@, decimal(management_port as nat)];
    assert(str_views(args@) =~= base);
    match virtual_ip {
        Some(ip) => {
            args.push("-a".to_string());
            let mut a = "static:".to_string();
            a.append(ip.as_str());
            args.push(a);
        },
        None => {},
    }
    let ghost with_ip = match vip {
        Some(ip) => base + seq!["-a"@, "static:"@ + ip],
        None => base,
    };
    assert(str_views(args@) =~= with_ip);
    match encryption_key {
        Some(key) => {
            args.push("-k".to_string());
            args.push(key);
        },
        None => {},
    }
    assert(str_views(args@) =~= edge_args_spec(c, s, management_port, vip, k));
    args
}

// ---------------------------------------------------------------------------
// State read from the edge's output
// ---------------------------------------------------------------------------

pub struct EdgeStateView {
    pub active: bool,
    pub sn_connected: bool,
    pub tun_ready: bool,
    pub last_sn_contact: u64,
    pub started_at: u64,
    pub local_ip: Seq<char>,
    pub logs: Seq<Seq<char>>,
    pub pre_ips: Seq<Seq<char>>,
}

/// What the client knows of the edge it started: whether it is running,
/// the supernode link and TUN device state as the output last showed them,
/// the VPN address, the kept output lines, and the addresses the machine had
/// before the edge started.
pub struct EdgeState {
    active: bool,
    sn_connected: bool,
    tun_ready: bool,
    last_sn_contact: u64,
    started_at: u64,
    local_ip: String,
    logs: Vec<String>,
    pre_ips: Vec<String>,
}

impl View for EdgeState {
    type V = EdgeStateView;

    closed spec fn view(&self) -> EdgeStateView {
        EdgeStateView {
            active: self.active,
            sn_connected: self.sn_connected,
            tun_ready: self.tun_ready,
            last_sn_contact: self.last_sn_contact,
            started_at: self.started_at,
            local_ip: self.local_ip@,
            logs: str_views(self.logs@),
            pre_ips: str_views(self.pre_ips@),
        }
    }
}

/// The log entry kept for one output line.
pub open spec fn edge_log_entry(timestamp: Seq<char>, line: Seq<char>) -> Seq<char> {
    timestamp + "[tauri_native_lib::n2n::edge_process][INFO] [edge] "@ + line
}

/// Per-packet trace lines are dropped unread.
pub open spec fn is_packet_line(line: Seq<char>) -> bool {
    contains(line, "Tx PACKET"@) || contains(line, "Rx PACKET"@)
}

/// The state after one output line, read at time `now`.
pub open spec fn observe_spec(
    st: EdgeStateView,
    line: Seq<char>,
    now: u64,
    timestamp: Seq<char>,
) -> EdgeStateView {
    if is_packet_line(line) {
        st
    } else {
        let logs = if st.logs.len() < EDGE_LOG_CAP {
            st.logs.push(edge_log_entry(timestamp, line))
        } else {
            st.logs
        };
        let s0 = EdgeStateView { logs, ..st };
        let s1 = if contains(line, "created local tap device"@) || contains(line, "Interface is up"@) {
            match ip_after(line, "IP:"@) {
                Some(ip) => EdgeStateView { tun_ready: true, local_ip: ip, ..s0 },
                None => EdgeStateView { tun_ready: true, ..s0 },
            }
        } else {
            s0
        };
        let s2 = if contains(line, ">>> supernode"@) || contains(line, "[OK] edge"@) {
            EdgeStateView { sn_connected: true, last_sn_contact: now, ..s1 }
        } else {
            s1
        };
        let s3 = if contains(line, "REGISTER_SUPER_ACK"@) || contains(line, "Rx PONG"@) {
            EdgeStateView { sn_connected: true, last_sn_contact: now, ..s2 }
        } else {
            s2
        };
        let s4 = if contains(line, "supernode not responding"@) {
            EdgeStateView { sn_connected: false, ..s3 }
        } else {
            s3
        };
        if contains(line, "[p2p]"@) {
            EdgeStateView { last_sn_contact: now, ..s4 }
        } else {
            s4
        }
    }
}

/// A machine address that the edge brought: not there before, not loopback,
/// not link-local.
pub open spec fn is_new_vpn_ip(pre: Seq<Seq<char>>, ip: Seq<char>) -> bool {
    !pre.contains(ip) && !starts_with(ip, "127."@) && !starts_with(ip, "169.254."@)
}

/// The first address of `cur` (from position `i`) that the edge brought.
pub open spec fn first_new_ip(pre: Seq<Seq<char>>, cur: Seq<Seq<char>>, i: int) -> Option<Seq<char>>
    decreases cur.len() - i,
{
    if i < 0 || i >= cur.len() {
        None
    } else if is_new_vpn_ip(pre, cur[i]) {
        Some(cur[i])
    } else {
        first_new_ip(pre, cur, i + 1)
    }
}

/// `(TUN ready, supernode connected, seconds since supernode contact)`;
/// no contact yet reads as not connected, 999 seconds.
pub open spec fn conn_state_spec(st: EdgeStateView, now: u64) -> (bool, bool, u64) {
    if st.last_sn_contact == 0 {
        (st.tun_ready, false, 999)
    } else {
        (
            st.tun_ready,
            st.sn_connected,
            if now >= st.last_sn_contact {
                (now - st.last_sn_contact) as u64
            } else {
                0
            },
        )
    }
}

/// Running: started by this client and either within the 8 second grace
/// period after the start or with the TUN device up.
pub open spec fn running_spec(st: EdgeStateView, now: u64) -> bool {
    st.active && ((if now >= st.started_at {
        now - st.started_at
    } else {
        0
    }) < 8 || st.tun_ready)
}

impl EdgeState {
    #[verifier::type_invariant]
    spec fn log_capped(&self) -> bool {
        self.logs@.len() <= EDGE_LOG_CAP
    }

    /// No edge started yet.
    pub fn new() -> (st: Self)
        ensures
            st@ == (EdgeStateView {
                active: false,
                sn_connected: false,
                tun_ready: false,
                last_sn_contact: 0,
                started_at: 0,
                local_ip: Seq::empty(),
                logs: Seq::empty(),
                pre_ips: Seq::empty(),
            }),
    {
        let st = EdgeState {
            active: false,
            sn_connected: false,
            tun_ready: false,
            last_sn_contact: 0,
            started_at: 0,
            local_ip: String::new(),
            logs: Vec::new(),
            pre_ips: Vec::new(),
        };
        assert(st@.logs =~= Seq::<Seq<char>>::empty());
        assert(st@.pre_ips =~= Seq::<Seq<char>>::empty());
        st
    }

    /// The kept output lines never exceed the cap.
    pub fn log_len(&self) -> (n: usize)
        ensures
            n == self@.logs.len(),
            n <= EDGE_LOG_CAP,
    {
        proof {
            use_type_invariant(self);
        }
        self.logs.len()
    }

    /// Records the machine's addresses before the edge starts.
    pub fn set_pre_ips(&mut self, ips: Vec<String>)
        ensures
            final(self)@ == (EdgeStateView { pre_ips: str_views(ips@), ..old(self)@ }),
    {
        proof {
            use_type_invariant(&*self);
        }
        self.pre_ips = ips;
    }

    /// The edge was just started at `now`: running, nothing seen yet.
    pub fn mark_started(&mut self, now: u64)
        ensures
            final(self)@ == (EdgeStateView {
                active: true,
                sn_connected: false,
                tun_ready: false,
                last_sn_contact: 0,
                local_ip: Seq::empty(),
                started_at: now,
                ..old(self)@
            }),
    {
        proof {
            use_type_invariant(&*self);
        }
        self.active = true;
        self.sn_connected = false;
        self.tun_ready = false;
        self.last_sn_contact = 0;
        self.local_ip = String::new();
        self.started_at = now;
    }

    /// The edge was just started, now by the clock.
    pub fn mark_started_now(&mut self)
        ensures
            final(self)@ == (EdgeStateView {
                active: true,
                sn_connected: false,
                tun_ready: false,
                last_sn_contact: 0,
                local_ip: Seq::empty(),
                started_at: final(self)@.started_at,
                ..old(self)@
            }),
    {
        let now = unix_time_secs();
        self.mark_started(now);
    }

    /// The edge was stopped: not running, no VPN address.
    pub fn mark_stopped(&mut self)
        ensures
            final(self)@ == (EdgeStateView { active: false, local_ip: Seq::empty(), ..old(self)@ }),
    {
        proof {
            use_type_invariant(&*self);
        }
        self.active = false;
        self.local_ip = String::new();
    }

    /// Whether this client started the edge and has not stopped it.
    pub fn is_running(&self) -> (b: bool)
        ensures
            b == self@.active,
    {
        self.active
    }

    pub fn local_ip(&self) -> (s: String)
        ensures
            s@ == self@.local_ip,
    {
        self.local_ip.clone()
    }

    /// The kept output lines, oldest first.
    pub fn logs(&self) -> (res: Vec<String>)
        ensures
            str_views(res@) == self@.logs,
    {
        let mut res: Vec<String> = Vec::new();
        let n = self.logs.len();
        for i in 0..n
            invariant
                n == self.logs@.len(),
                str_views(res@) == str_views(self.logs@).take(i as int),
        {
            let e = self.logs[i].clone();
            assert(e == self.logs@[i as int]);
            let ghost prev = res@;
            res.push(e);
            assert(res@ == prev.push(e));
            assert(str_views(res@) =~= str_views(prev).push(e@));
            assert(str_views(self.logs@).take(i + 1) =~= str_views(self.logs@).take(i as int).push(
                self.logs@[i as int]@,
            ));
            assert(str_views(res@) =~= str_views(self.logs@).take(i + 1));
        }
        assert(str_views(self.logs@).take(n as int) =~= str_views(self.logs@));
        res
    }

    /// Reads one output line of the edge, seen now and stamped with the
    /// local date and time.
    pub fn observe_line(&mut self, line: &str)
        ensures
            exists|now: u64, ts: Seq<char>|
                stamp_text(ts) && final(self)@ == observe_spec(old(self)@, line@, now, ts),
    {
        let now = unix_time_secs();
        let ts = local_timestamp();
        self.observe_line_at(line, now, ts.as_str());
    }

    /// Reads one output line of the edge, seen at `now` (Unix seconds) and
    /// stamped `timestamp` in the log.
    pub fn observe_line_at(&mut self, line: &str, now: u64, timestamp: &str)
        ensures
            final(self)@ == observe_spec(old(self)@, line@, now, timestamp@),
    {
        proof {
            use_type_invariant(&*self);
        }
        let l = chars_of(line);
        let ls = l.as_slice();
        if contains_lit(ls, "Tx PACKET") || contains_lit(ls, "Rx PACKET") {
            return;
        }
        if self.logs.len() < EDGE_LOG_CAP {
            let mut entry = timestamp.to_string();
            entry.append("[tauri_native_lib::n2n::edge_process][INFO] [edge] ");
            entry.append(line);
            let ghost before = self.logs@;
            let mut logs: Vec<String> = Vec::new();
            std::mem::swap(&mut logs, &mut self.logs);
            logs.push(entry);
            self.logs = logs;
            assert(str_views(self.logs@) =~= str_views(before).push(
                edge_log_entry(timestamp@, line@),
            ));
        }
        if contains_lit(ls, "created local tap device") || contains_lit(ls, "Interface is up") {
            self.tun_ready = true;
            let pfx = chars_of("IP:");
            match ip_after_chars(ls, pfx.as_slice()) {
                Some(ip) => {
                    self.local_ip = string_of(ip.as_slice());
                },
                None => {},
            }
        }
        if contains_lit(ls, ">>> supernode") || contains_lit(ls, "[OK] edge") {
            self.sn_connected = true;
            self.last_sn_contact = now;
        }
        if contains_lit(ls, "REGISTER_SUPER_ACK") || contains_lit(ls, "Rx PONG") {
            self.sn_connected = true;
            self.last_sn_contact = now;
        }
        if contains_lit(ls, "supernode not responding") {
            self.sn_connected = false;
        }
        if contains_lit(ls, "[p2p]") {
            self.last_sn_contact = now;
        }
    }

    /// `(TUN ready, supernode connected, seconds since supernode contact)` at
    /// `now`.
    pub fn conn_state(&self, now: u64) -> (res: (bool, bool, u64))
        ensures
            res == conn_state_spec(self@, now),
    {
        if self.last_sn_contact == 0 {
            (self.tun_ready, false, 999)
        } else {
            (self.tun_ready, self.sn_connected, now.saturating_sub(self.last_sn_contact))
        }
    }

    /// The link state now, by the clock.
    pub fn conn_state_now(&self) -> (res: (bool, bool, u64))
        ensures
            exists|now: u64| res == conn_state_spec(self@, now),
    {
        let now = unix_time_secs();
        self.conn_state(now)
    }

    /// Whether the edge counts as running now, by the clock.
    pub fn running_now(&self) -> (b: bool)
        ensures
            exists|now: u64| b == running_spec(self@, now),
    {
        let now = unix_time_secs();
        self.running_at(now)
    }

    /// Whether the edge counts as running at `now`.
    pub fn running_at(&self, now: u64) -> (b: bool)
        ensures
            b == running_spec(self@, now),
    {
        if !self.active {
            return false;
        }
        now.saturating_sub(self.started_at) < 8 || self.tun_ready
    }

    /// Finds the VPN address among the machine's current addresses: the
    /// first that was not there before the start and is neither loopback nor
    /// link-local; it becomes the local address.
    pub fn detect_vpn_ip(&mut self, current: &Vec<String>) -> (res: Option<String>)
        ensures
            opt_view(res) == first_new_ip(old(self)@.pre_ips, str_views(current@), 0),
            match res {
                Some(ip) => final(self)@ == (EdgeStateView { local_ip: ip@, ..old(self)@ }),
                None => final(self)@ == old(self)@,
            },
    {
        proof {
            use_type_invariant(&*self);
        }
        let n = current.len();
        let ghost pre = self@.pre_ips;
        for i in 0..n
            invariant
                n == current@.len(),
                self.logs@.len() <= EDGE_LOG_CAP,
                self@ == old(self)@,
                pre == self@.pre_ips,
                first_new_ip(pre, str_views(current@), 0) == first_new_ip(
                    pre,
                    str_views(current@),
                    i as int,
                ),
        {
            assert(str_views(current@)[i as int] == current@[i as int]@);
            if self.is_new(&current[i]) {
                self.local_ip = current[i].clone();
                return Some(current[i].clone());
            }
        }
        None
    }

    fn is_new(&self, ip: &String) -> (b: bool)
        ensures
            b == is_new_vpn_ip(self@.pre_ips, ip@),
    {
        let c = chars_of(ip.as_str());
        if crate::text::starts_with_lit(c.as_slice(), "127.") || crate::text::starts_with_lit(
            c.as_slice(),
            "169.254.",
        ) {
            return false;
        }
        let n = self.pre_ips.len();
        for i in 0..n
            invariant
                n == self.pre_ips@.len(),
                forall|j: int| 0 <= j < i ==> str_views(self.pre_ips@)[j] != ip@,
        {
            assert(str_views(self.pre_ips@)[i as int] == self.pre_ips@[i as int]@);
            if self.pre_ips[i] == *ip {
                assert(str_views(self.pre_ips@)[i as int] == ip@);
                return false;
            }
        }
        assert(!str_views(self.pre_ips@).contains(ip@));
        true
    }
}

/// A per-packet trace line leaves the state as it was, log included.
pub proof fn lemma_packet_lines_ignored(st: EdgeStateView, line: Seq<char>, now: u64, timestamp: Seq<char>)
    requires
        is_packet_line(line),
    ensures
        observe_spec(st, line, now, timestamp) == st,
{
}

/// After a line saying the supernode does not respond, the supernode counts
/// as disconnected, whatever else the line says.
pub proof fn lemma_not_responding_disconnects(
    st: EdgeStateView,
    line: Seq<char>,
    now: u64,
    timestamp: Seq<char>,
)
    requires
        !is_packet_line(line),
        contains(line, "supernode not responding"@),
    ensures
        !observe_spec(st, line, now, timestamp).sn_connected,
{
}

/// An acknowledgement from the supernode marks it connected and heard at
/// the time of the line, unless the line also says it does not respond.
pub proof fn lemma_ack_connects(st: EdgeStateView, line: Seq<char>, now: u64, timestamp: Seq<char>)
    requires
        !is_packet_line(line),
        contains(line, "REGISTER_SUPER_ACK"@) || contains(line, "Rx PONG"@),
        !contains(line, "supernode not responding"@),
    ensures
        observe_spec(st, line, now, timestamp).sn_connected,
        observe_spec(st, line, now, timestamp).last_sn_contact == now,
{
}

/// A line saying the edge started (`[OK] edge`) or that the supernode
/// answered (`>>> supernode`) marks the supernode connected and heard at the
/// time of the line, unless the line also says it does not respond.
pub proof fn lemma_edge_up_connects(st: EdgeStateView, line: Seq<char>, now: u64, timestamp: Seq<char>)
    requires
        !is_packet_line(line),
        contains(line, "[OK] edge"@) || contains(line, ">>> supernode"@),
        !contains(line, "supernode not responding"@),
    ensures
        observe_spec(st, line, now, timestamp).sn_connected,
        observe_spec(st, line, now, timestamp).last_sn_contact == now,
{
}

/// After a line that connects the supernode at `now` (not 0), the link
/// state read at a later time `t` shows the supernode connected, heard
/// `t - now` seconds ago.
pub proof fn lemma_contact_in_link_state(
    st: EdgeStateView,
    line: Seq<char>,
    now: u64,
    timestamp: Seq<char>,
    t: u64,
)
    requires
        !is_packet_line(line),
        contains(line, "[OK] edge"@) || contains(line, ">>> supernode"@) || contains(
            line,
            "REGISTER_SUPER_ACK"@,
        ) || contains(line, "Rx PONG"@),
        !contains(line, "supernode not responding"@),
        0 < now <= t,
    ensures
        conn_state_spec(observe_spec(st, line, now, timestamp), t).1,
        conn_state_spec(observe_spec(st, line, now, timestamp), t).2 == t - now,
{
}

/// A line that reports the TAP device (`created local tap device` or
/// `Interface is up`) marks the device ready; an address after `IP:` in it
/// becomes the local address.
pub proof fn lemma_tap_line_readies(st: EdgeStateView, line: Seq<char>, now: u64, timestamp: Seq<char>)
    requires
        !is_packet_line(line),
        contains(line, "created local tap device"@) || contains(line, "Interface is up"@),
    ensures
        observe_spec(st, line, now, timestamp).tun_ready,
        ip_after(line, "IP:"@) matches Some(ip) ==> observe_spec(st, line, now, timestamp).local_ip
            == ip,
{
}

/// The edge's arguments: `-v`, the community after `-c`, the supernode
/// after `-l` and the management port after `-t`; then `-a static:<ip>`
/// exactly when an address is given, whatever the key; then `-k <key>` at
/// the end exactly when a key is given, whatever the address.
pub proof fn lemma_edge_args_layout(
    community: Seq<char>,
    supernode: Seq<char>,
    port: u16,
    virtual_ip: Option<Seq<char>>,
    key: Option<Seq<char>>,
)
    ensures
        ({
            let a = edge_args_spec(community, supernode, port, virtual_ip, key);
            &&& a.len() == 7 + (if virtual_ip is Some {
                2int
            } else {
                0int
            }) + (if key is Some {
                2int
            } else {
                0int
            })
            &&& a[0] == "-v"@ && a[1] == "-c"@ && a[2] == community
            &&& a[3] == "-l"@ && a[4] == supernode
            &&& a[5] == "-t"@ && a[6] == decimal(port as nat)
            &&& virtual_ip matches Some(ip) ==> a[7] == "-a"@ && a[8] == "static:"@ + ip
            &&& key matches Some(k) ==> a[a.len() - 2] == "-k"@ && a[a.len() - 1] == k
        }),
{
}

/// The kept output never grows past the cap, and every line read while
/// there is room is kept.
pub proof fn lemma_log_cap(st: EdgeStateView, line: Seq<char>, now: u64, timestamp: Seq<char>)
    requires
        st.logs.len() <= EDGE_LOG_CAP,
    ensures
        observe_spec(st, line, now, timestamp).logs.len() <= EDGE_LOG_CAP,
        !is_packet_line(line) && st.logs.len() < EDGE_LOG_CAP ==> observe_spec(
            st,
            line,
            now,
            timestamp,
        ).logs == st.logs.push(edge_log_entry(timestamp, line)),
{
}

// ---------------------------------------------------------------------------
// The machine's address listing
// ---------------------------------------------------------------------------

/// Whether a listed line counts as an address: non-empty, and off Windows
/// not the loopback address.
pub open spec fn keeps_ip(platform: Platform, l: Seq<char>) -> bool {
    l.len() > 0 && (platform == Platform::Windows || l != "127.0.0.1"@)
}

pub open spec fn listed_ips(ls: Seq<Seq<char>>, platform: Platform) -> Seq<Seq<char>>
    decreases ls.len(),
{
    if ls.len() == 0 {
        Seq::empty()
    } else {
        let r = listed_ips(ls.drop_last(), platform);
        let t = trim(ls.last());
        if keeps_ip(platform, t) {
            r.push(t)
        } else {
            r
        }
    }
}

/// The machine's IPv4 addresses from the address listing tool's output:
/// one per trimmed line.
pub fn local_ips_from_output(text: &str, platform: Platform) -> (res: Vec<String>)
    ensures
        str_views(res@) == listed_ips(lines(text@), platform),
{
    let tc = chars_of(text);
    let tl = lines_of(tc.as_slice());
    let mut res: Vec<String> = Vec::new();
    let n = tl.len();
    for i in 0..n
        invariant
            n == tl@.len(),
            views(tl@) == lines(text@),
            str_views(res@) == listed_ips(views(tl@).take(i as int), platform),
    {
        assert(views(tl@).take(i + 1).drop_last() =~= views(tl@).take(i as int));
        assert(views(tl@).take(i + 1).last() == tl@[i as int]@);
        let t = trim_chars(tl[i].as_slice());
        let keep = t.len() > 0 && (platform == Platform::Windows || !eq_lit(
            t.as_slice(),
            "127.0.0.1",
        ));
        if keep {
            let ghost before = res@;
            res.push(string_of(t.as_slice()));
            assert(str_views(res@) =~= str_views(before).push(t@));
        }
    }
    assert(views(tl@).take(n as int) =~= views(tl@));
    res
}

} // verus!
