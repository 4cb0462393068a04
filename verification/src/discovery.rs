//! Peer discovery on the VPN subnet: a broadcast asks every edge for its
//! address; each answers with its own, and an answer is pinged so that n2n
//! registers the peer.

use vstd::prelude::*;
use crate::management::{EdgeStatus, PeerInfoView};
use crate::text::{
    chars_of, decimal, decimal_string, eq_lit, slice_copy, starts_with, starts_with_lit, str_views,
    trim, trim_chars, string_of,
};

verus! {

/// The UDP port discovery listens and broadcasts on.
pub const DISCOVERY_PORT: u16 = 55555;

/// What to do with a received datagram.
pub enum DiscoveryReply {
    /// Send this text back to the sender.
    Reply(String),
    /// Ping this peer address.
    Ping(String),
    Ignore,
}

pub enum DiscoveryReplyView {
    Reply(Seq<char>),
    Ping(Seq<char>),
    Ignore,
}

impl View for DiscoveryReply {
    type V = DiscoveryReplyView;

    open spec fn view(&self) -> DiscoveryReplyView {
        match self {
            DiscoveryReply::Reply(s) => DiscoveryReplyView::Reply(s@),
            DiscoveryReply::Ping(s) => DiscoveryReplyView::Ping(s@),
            DiscoveryReply::Ignore => DiscoveryReplyView::Ignore,
        }
    }
}

pub open spec fn request_text() -> Seq<char> {
    "N2N_DISCOVER"@
}

pub open spec fn reply_prefix() -> Seq<char> {
    "N2N_HERE:"@
}

/// A request is answered with the own VPN address, unless it is not known
/// yet or the request is the own broadcast; an answer names a peer to ping.
pub open spec fn discovery_reply(msg: Seq<char>, my_ip: Seq<char>, src_ip: Seq<char>) -> DiscoveryReplyView {
    if trim(msg) == request_text() {
        if my_ip.len() > 0 && src_ip != my_ip {
            DiscoveryReplyView::Reply(reply_prefix() + my_ip)
        } else {
            DiscoveryReplyView::Ignore
        }
    } else if starts_with(msg, reply_prefix()) {
        let peer = trim(msg.subrange(reply_prefix().len() as int, msg.len() as int));
        if peer.len() > 0 {
            DiscoveryReplyView::Ping(peer)
        } else {
            DiscoveryReplyView::Ignore
        }
    } else {
        DiscoveryReplyView::Ignore
    }
}

/// The answer to a datagram `msg` from `src_ip`, this edge having VPN
/// address `my_ip`.
pub fn discovery_response(msg: &str, my_ip: &str, src_ip: &str) -> (res: DiscoveryReply)
    ensures
        res@ == discovery_reply(msg@, my_ip@, src_ip@),
        // never an answer to the own broadcast, always with the own address
        res@ matches DiscoveryReplyView::Reply(r) ==> src_ip@ != my_ip@ && my_ip@.len() > 0 && r
            == reply_prefix() + my_ip@,
{
    let m = chars_of(msg);
    let t = trim_chars(m.as_slice());
    if eq_lit(t.as_slice(), "N2N_DISCOVER") {
        let mine = chars_of(my_ip);
        let src = chars_of(src_ip);
        if mine.len() > 0 && !crate::text::same(src.as_slice(), mine.as_slice()) {
            let mut r = "N2N_HERE:".to_string();
            r.append(my_ip);
            DiscoveryReply::Reply(r)
        } else {
            DiscoveryReply::Ignore
        }
    } else if starts_with_lit(m.as_slice(), "N2N_HERE:") {
        let p = chars_of("N2N_HERE:");
        let rest = slice_copy(m.as_slice(), p.len(), m.len());
        let peer = trim_chars(rest.as_slice());
        if peer.len() > 0 {
            DiscoveryReply::Ping(string_of(peer.as_slice()))
        } else {
            DiscoveryReply::Ignore
        }
    } else {
        DiscoveryReply::Ignore
    }
}

/// The broadcast address of a subnet's discovery port, `<subnet>.255:55555`.
pub fn broadcast_address(subnet: &str) -> (res: String)
    ensures
        res@ == subnet@ + ".255:"@ + decimal(DISCOVERY_PORT as nat),
{
    let mut r = subnet.to_string();
    r.append(".255:");
    let port = decimal_string(DISCOVERY_PORT as u64);
    r.append(port.as_str());
    r
}

/// The request text the broadcast carries.
pub fn discovery_request() -> (res: String)
    ensures
        res@ == request_text(),
{
    "N2N_DISCOVER".to_string()
}

/// The address the listener binds, `0.0.0.0:55555`.
pub fn listen_address() -> (res: String)
    ensures
        res@ == "0.0.0.0:"@ + decimal(DISCOVERY_PORT as nat),
{
    let mut r = "0.0.0.0:".to_string();
    let port = decimal_string(DISCOVERY_PORT as u64);
    r.append(port.as_str());
    r
}

/// Seconds from the start of discovery to the first broadcast, which leaves
/// the edge time to register with the supernode.
pub const FIRST_BROADCAST_DELAY: u64 = 5;

/// Seconds between two broadcasts.
pub const BROADCAST_PERIOD: u64 = 30;

/// Seconds between two rounds of keep-alive pings.
pub const PING_PERIOD: u64 = 15;

/// When each periodic task of discovery is next due, in seconds on a clock
/// that the caller keeps.
pub struct DiscoverySchedule {
    pub next_broadcast: u64,
    pub next_ping: u64,
}

/// The tasks due at a tick.
pub struct DiscoveryDue {
    pub broadcast: bool,
    pub ping: bool,
}

impl DiscoverySchedule {
    /// The schedule of a discovery started at `now`: the first broadcast
    /// five seconds later, the first pings fifteen seconds later.
    pub fn starting_at(now: u64) -> (s: Self)
        ensures
            s.next_broadcast == now.saturating_add(FIRST_BROADCAST_DELAY),
            s.next_ping == now.saturating_add(PING_PERIOD),
    {
        DiscoverySchedule {
            next_broadcast: now.saturating_add(FIRST_BROADCAST_DELAY),
            next_ping: now.saturating_add(PING_PERIOD),
        }
    }

    /// Which tasks are due at `now`; each one that is due is next due a full
    /// period after `now`, the others keep their time. After a tick, no task
    /// is due at `now` again (short of the clock's end).
    pub fn tick(&mut self, now: u64) -> (due: DiscoveryDue)
        ensures
            due.broadcast == (now >= old(self).next_broadcast),
            due.ping == (now >= old(self).next_ping),
            final(self).next_broadcast == if due.broadcast {
                now.saturating_add(BROADCAST_PERIOD)
            } else {
                old(self).next_broadcast
            },
            final(self).next_ping == if due.ping {
                now.saturating_add(PING_PERIOD)
            } else {
                old(self).next_ping
            },
            now < u64::MAX - BROADCAST_PERIOD ==> final(self).next_broadcast > now
                && final(self).next_ping > now,
    {
        let broadcast = now >= self.next_broadcast;
        let ping = now >= self.next_ping;
        if broadcast {
            self.next_broadcast = now.saturating_add(BROADCAST_PERIOD);
        }
        if ping {
            self.next_ping = now.saturating_add(PING_PERIOD);
        }
        DiscoveryDue { broadcast, ping }
    }

    /// Seconds from `now` until the next task is due; 0 when one is due.
    pub fn wait_from(&self, now: u64) -> (w: u64)
        ensures
            w == if self.next_broadcast <= now || self.next_ping <= now {
                0
            } else if self.next_broadcast < self.next_ping {
                self.next_broadcast - now
            } else {
                self.next_ping - now
            },
    {
        if self.next_broadcast <= now || self.next_ping <= now {
            0
        } else if self.next_broadcast < self.next_ping {
            self.next_broadcast - now
        } else {
            self.next_ping - now
        }
    }
}

pub open spec fn peer_ips(peers: Seq<PeerInfoView>) -> Seq<Seq<char>> {
    peers.map_values(|p: PeerInfoView| p.ip_addr)
}

/// The addresses that a round of keep-alive pings goes to: the VPN address
/// of every known peer, in order; none before the first status.
pub fn ping_targets(status: &Option<EdgeStatus>) -> (res: Vec<String>)
    ensures
        str_views(res@) == match status {
            Some(st) => peer_ips(st@.peers),
            None => Seq::empty(),
        },
{
    let mut res: Vec<String> = Vec::new();
    match status {
        Some(st) => {
            let n = st.peers.len();
            for i in 0..n
                invariant
                    n == st.peers@.len(),
                    str_views(res@) == peer_ips(st@.peers).take(i as int),
            {
                let ip = st.peers[i].ip_addr.clone();
                let ghost before = str_views(res@);
                res.push(ip);
                assert(str_views(res@) =~= before.push(st@.peers[i as int].ip_addr));
                assert(peer_ips(st@.peers).take(i + 1) =~= peer_ips(st@.peers).take(i as int).push(
                    st@.peers[i as int].ip_addr,
                ));
            }
            assert(peer_ips(st@.peers).take(n as int) =~= peer_ips(st@.peers));
        },
        None => {
            assert(str_views(res@) =~= Seq::<Seq<char>>::empty());
        },
    }
    res
}

} // verus!
