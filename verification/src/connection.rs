//! The connection logic: the steps of a connect attempt, and how a status
//! report is completed with what the edge's output showed.

use vstd::prelude::*;
use crate::addr::{before_last_dot, before_last_dot_chars, Platform};
use crate::management::{EdgeStatus, EdgeStatusView};
use crate::text::{chars_of, decimal, decimal_string, str_views, string_of};
use crate::edge::opt_view;

verus! {

/// A connect attempt queries the edge at most this many times.
pub const MAX_ATTEMPTS: u64 = 5;

/// Milliseconds to wait between a failed query and the next.
pub const RETRY_WAIT_MS: u64 = 2000;

/// Where a connect attempt stands.
#[derive(Clone, Copy, PartialEq, Eq, Structural)]
pub enum ConnectStage {
    /// The edge is being started.
    Starting,
    /// Waiting for the edge to settle after the start.
    Settling,
    /// A status query is out.
    Querying,
    /// Waiting after a failed query.
    Backoff,
    /// The edge is being stopped after the last query failed.
    Stopping,
    /// The attempt is over.
    Done,
}

/// What the caller reports back after doing an action.
pub enum ConnectEvent {
    /// The edge start finished (`Err` holds the failure text).
    Started(Result<(), String>),
    /// A wait finished.
    Waited,
    /// A status query finished.
    Queried(Result<(), String>),
    /// The edge stop finished.
    Stopped(Result<(), String>),
}

/// What the caller is to do next.
pub enum ConnectAction {
    StartEdge,
    /// Sleep this many milliseconds.
    Wait(u64),
    QueryStatus,
    StopEdge,
    /// The attempt ends with this result.
    Finish(Result<(), String>),
}

/// Log lines to write, then an action to do.
pub struct ConnectStep {
    pub logs: Vec<String>,
    pub action: ConnectAction,
}

pub enum ConnectEventView {
    Started(Result<(), Seq<char>>),
    Waited,
    Queried(Result<(), Seq<char>>),
    Stopped(Result<(), Seq<char>>),
}

pub enum ConnectActionView {
    StartEdge,
    Wait(u64),
    QueryStatus,
    StopEdge,
    Finish(Result<(), Seq<char>>),
}

pub open spec fn result_view(r: Result<(), String>) -> Result<(), Seq<char>> {
    match r {
        Ok(()) => Ok(()),
        Err(e) => Err(e@),
    }
}

impl View for ConnectEvent {
    type V = ConnectEventView;

    open spec fn view(&self) -> ConnectEventView {
        match self {
            ConnectEvent::Started(r) => ConnectEventView::Started(result_view(*r)),
            ConnectEvent::Waited => ConnectEventView::Waited,
            ConnectEvent::Queried(r) => ConnectEventView::Queried(result_view(*r)),
            ConnectEvent::Stopped(r) => ConnectEventView::Stopped(result_view(*r)),
        }
    }
}

impl View for ConnectAction {
    type V = ConnectActionView;

    open spec fn view(&self) -> ConnectActionView {
        match self {
            ConnectAction::StartEdge => ConnectActionView::StartEdge,
            ConnectAction::Wait(ms) => ConnectActionView::Wait(*ms),
            ConnectAction::QueryStatus => ConnectActionView::QueryStatus,
            ConnectAction::StopEdge => ConnectActionView::StopEdge,
            ConnectAction::Finish(r) => ConnectActionView::Finish(result_view(*r)),
        }
    }
}

pub struct ConnectFlowView {
    pub my_gen: u64,
    pub stage: ConnectStage,
    pub attempt: u64,
    pub settle_ms: u64,
}

/// One connect attempt, started in connection generation `my_gen`; a
/// disconnect moves the generation on, and an attempt whose generation is
/// gone gives up quietly.
pub struct ConnectFlow {
    my_gen: u64,
    stage: ConnectStage,
    attempt: u64,
    settle_ms: u64,
}

impl View for ConnectFlow {
    type V = ConnectFlowView;

    closed spec fn view(&self) -> ConnectFlowView {
        ConnectFlowView {
            my_gen: self.my_gen,
            stage: self.stage,
            attempt: self.attempt,
            settle_ms: self.settle_ms,
        }
    }
}

pub open spec fn msg_connecting(supernode: Seq<char>) -> Seq<char> {
    "正在连接到 "@ + supernode + " ..."@
}

pub open spec fn msg_cancelled() -> Seq<char> {
    "连接已被取消"@
}

pub open spec fn msg_launching() -> Seq<char> {
    "正在启动 edge 进程...（如失败请以管理员身份运行）"@
}

pub open spec fn msg_connected(attempt: u64) -> Seq<char> {
    "✓ 已连接 (尝试 "@ + decimal(attempt as nat) + "/5)"@
}

pub open spec fn msg_waiting(attempt: u64, err: Seq<char>) -> Seq<char> {
    "等待中... ("@ + decimal(attempt as nat) + "/5) "@ + err
}

pub open spec fn msg_failed() -> Seq<char> {
    "⚠ 连接失败，请检查 supernode 地址和网络"@
}

pub open spec fn err_unreachable() -> Seq<char> {
    "连接失败：无法连接到 supernode，请检查地址和网络"@
}

/// How long the edge is given to settle: Windows waits for the elevation
/// prompt.
pub open spec fn settle_ms_for(platform: Platform) -> u64 {
    if platform == Platform::Windows {
        5000
    } else {
        1000
    }
}

/// The events each stage waits for.
pub open spec fn accepts_spec(stage: ConnectStage, ev: ConnectEventView) -> bool {
    match stage {
        ConnectStage::Starting => ev is Started,
        ConnectStage::Settling => ev is Waited,
        ConnectStage::Querying => ev is Queried,
        ConnectStage::Backoff => ev is Waited,
        ConnectStage::Stopping => ev is Stopped,
        ConnectStage::Done => false,
    }
}

pub open spec fn done(f: ConnectFlowView) -> ConnectFlowView {
    ConnectFlowView { stage: ConnectStage::Done, ..f }
}

/// One step: the next state, the log lines and the action, given the event
/// and the connection generation read when it came.
pub open spec fn step_spec(f: ConnectFlowView, ev: ConnectEventView, gen: u64) -> (
    ConnectFlowView,
    Seq<Seq<char>>,
    ConnectActionView,
) {
    let cancelled = gen != f.my_gen;
    let cancel = (done(f), seq![msg_cancelled()], ConnectActionView::Finish(Ok(())));
    match ev {
        ConnectEventView::Started(Err(e)) => (done(f), seq![], ConnectActionView::Finish(Err(e))),
        ConnectEventView::Started(Ok(())) => if cancelled {
            cancel
        } else {
            (
                ConnectFlowView { stage: ConnectStage::Settling, ..f },
                seq![msg_launching()],
                ConnectActionView::Wait(f.settle_ms),
            )
        },
        ConnectEventView::Queried(Ok(())) => if cancelled {
            (done(f), seq![msg_connected(f.attempt), msg_cancelled()], ConnectActionView::Finish(Ok(())))
        } else {
            (done(f), seq![msg_connected(f.attempt)], ConnectActionView::Finish(Ok(())))
        },
        ConnectEventView::Queried(Err(e)) => (
            ConnectFlowView { stage: ConnectStage::Backoff, ..f },
            seq![msg_waiting(f.attempt, e)],
            ConnectActionView::Wait(RETRY_WAIT_MS),
        ),
        ConnectEventView::Waited => if cancelled {
            cancel
        } else if f.stage == ConnectStage::Settling || f.attempt < MAX_ATTEMPTS {
            (
                ConnectFlowView {
                    stage: ConnectStage::Querying,
                    attempt: (if f.stage == ConnectStage::Settling {
                        1
                    } else {
                        f.attempt + 1
                    }) as u64,
                    ..f
                },
                seq![],
                ConnectActionView::QueryStatus,
            )
        } else {
            (
                ConnectFlowView { stage: ConnectStage::Stopping, ..f },
                seq![msg_failed()],
                ConnectActionView::StopEdge,
            )
        },
        ConnectEventView::Stopped(Err(e)) => (done(f), seq![], ConnectActionView::Finish(Err(e))),
        ConnectEventView::Stopped(Ok(())) => (
            done(f),
            seq![],
            ConnectActionView::Finish(Err(err_unreachable())),
        ),
    }
}

/// How far an attempt has come; every step moves it up, so an attempt ends
/// within 13 steps.
pub open spec fn progress(f: ConnectFlowView) -> int {
    match f.stage {
        ConnectStage::Starting => 0,
        ConnectStage::Settling => 1,
        ConnectStage::Querying => 2 * f.attempt,
        ConnectStage::Backoff => 2 * f.attempt + 1,
        ConnectStage::Stopping => 12,
        ConnectStage::Done => 13,
    }
}

pub open spec fn flow_wf(f: ConnectFlowView) -> bool {
    &&& f.attempt <= MAX_ATTEMPTS
    &&& (f.stage == ConnectStage::Querying || f.stage == ConnectStage::Backoff) ==> f.attempt >= 1
    &&& (f.stage == ConnectStage::Starting || f.stage == ConnectStage::Settling) ==> f.attempt == 0
    &&& f.stage == ConnectStage::Stopping ==> f.attempt == MAX_ATTEMPTS
}

fn lit(s: &str) -> (res: String)
    ensures
        res@ == s@,
{
    s.to_string()
}

fn cat3(a: &str, b: &str, c: &str) -> (res: String)
    ensures
        res@ == a@ + b@ + c@,
{
    let mut r = a.to_string();
    r.append(b);
    r.append(c);
    r
}

impl ConnectFlow {
    #[verifier::type_invariant]
    spec fn inv(&self) -> bool {
        flow_wf(self@)
    }

    /// Starts an attempt in generation `my_gen` against `supernode`: log the
    /// target, then start the edge.
    pub fn new(my_gen: u64, supernode: &str, platform: Platform) -> (res: (ConnectFlow, ConnectStep))
        ensures
            res.0@ == (ConnectFlowView {
                my_gen,
                stage: ConnectStage::Starting,
                attempt: 0,
                settle_ms: settle_ms_for(platform),
            }),
            str_views(res.1.logs@) == seq![msg_connecting(supernode@)],
            res.1.action@ == ConnectActionView::StartEdge,
    {
        let settle_ms: u64 = match platform {
            Platform::Windows => 5000,
            _ => 1000,
        };
        let f = ConnectFlow { my_gen, stage: ConnectStage::Starting, attempt: 0, settle_ms };
        let mut logs: Vec<String> = Vec::new();
        logs.push(cat3("正在连接到 ", supernode, " ..."));
        assert(str_views(logs@) =~= seq![msg_connecting(supernode@)]);
        (f, ConnectStep { logs, action: ConnectAction::StartEdge })
    }

    pub fn stage(&self) -> (s: ConnectStage)
        ensures
            s == self@.stage,
    {
        self.stage
    }

    /// The number of status queries sent so far.
    pub fn attempt(&self) -> (a: u64)
        ensures
            a == self@.attempt,
            a <= MAX_ATTEMPTS,
    {
        proof {
            use_type_invariant(self);
        }
        self.attempt
    }

    /// Whether the attempt waits for `ev` now.
    pub fn accepts(&self, ev: &ConnectEvent) -> (b: bool)
        ensures
            b == accepts_spec(self@.stage, ev@),
    {
        match self.stage {
            ConnectStage::Starting => matches!(ev, ConnectEvent::Started(_)),
            ConnectStage::Settling => matches!(ev, ConnectEvent::Waited),
            ConnectStage::Querying => matches!(ev, ConnectEvent::Queried(_)),
            ConnectStage::Backoff => matches!(ev, ConnectEvent::Waited),
            ConnectStage::Stopping => matches!(ev, ConnectEvent::Stopped(_)),
            ConnectStage::Done => false,
        }
    }

    /// Takes the outcome of the last action and the current connection
    /// generation; gives the log lines and the next action.
    pub fn step(&mut self, ev: ConnectEvent, current_gen: u64) -> (res: ConnectStep)
        requires
            accepts_spec(old(self)@.stage, ev@),
        ensures
            (final(self)@, str_views(res.logs@), res.action@) == step_spec(
                old(self)@,
                ev@,
                current_gen,
            ),
            flow_wf(final(self)@),
            progress(final(self)@) > progress(old(self)@),
            // a query goes out only as the next of at most five attempts
            res.action@ is QueryStatus ==> final(self)@.attempt == old(self)@.attempt + 1
                && final(self)@.attempt <= MAX_ATTEMPTS,
            // the edge is stopped only after the fifth failed query
            res.action@ is StopEdge ==> old(self)@.attempt == MAX_ATTEMPTS && current_gen
                == old(self)@.my_gen,
            // an attempt whose generation is gone ends without error
            current_gen != old(self)@.my_gen && !(ev@ is Stopped) && !(ev@ matches ConnectEventView::Started(
                Err(_),
            )) && !(ev@ matches ConnectEventView::Queried(Err(_))) ==> res.action@
                == ConnectActionView::Finish(Ok(())),
    {
        proof {
            use_type_invariant(&*self);
        }
        let cancelled = current_gen != self.my_gen;
        match ev {
            ConnectEvent::Started(Err(e)) => {
                self.stage = ConnectStage::Done;
                ConnectStep { logs: Vec::new(), action: ConnectAction::Finish(Err(e)) }
            },
            ConnectEvent::Started(Ok(())) => {
                if cancelled {
                    self.finish_cancelled()
                } else {
                    self.stage = ConnectStage::Settling;
                    let mut logs: Vec<String> = Vec::new();
                    logs.push(lit("正在启动 edge 进程...（如失败请以管理员身份运行）"));
                    assert(str_views(logs@) =~= seq![msg_launching()]);
                    ConnectStep { logs, action: ConnectAction::Wait(self.settle_ms) }
                }
            },
            ConnectEvent::Queried(Ok(())) => {
                let mut logs: Vec<String> = Vec::new();
                logs.push(self.connected_msg());
                if cancelled {
                    logs.push(lit("连接已被取消"));
                    assert(str_views(logs@) =~= seq![msg_connected(self.attempt), msg_cancelled()]);
                } else {
                    assert(str_views(logs@) =~= seq![msg_connected(self.attempt)]);
                }
                self.stage = ConnectStage::Done;
                ConnectStep { logs, action: ConnectAction::Finish(Ok(())) }
            },
            ConnectEvent::Queried(Err(e)) => {
                let mut logs: Vec<String> = Vec::new();
                let a = decimal_string(self.attempt);
                let mut m = lit("等待中... (");
                m.append(a.as_str());
                m.append("/5) ");
                m.append(e.as_str());
                logs.push(m);
                assert(str_views(logs@) =~= seq![msg_waiting(self.attempt, e@)]);
                self.stage = ConnectStage::Backoff;
                ConnectStep { logs, action: ConnectAction::Wait(RETRY_WAIT_MS) }
            },
            ConnectEvent::Waited => {
                if cancelled {
                    self.finish_cancelled()
                } else if self.stage == ConnectStage::Settling || self.attempt < MAX_ATTEMPTS {
                    let next: u64 = if self.stage == ConnectStage::Settling {
                        1
                    } else {
                        self.attempt + 1
                    };
                    *self = ConnectFlow {
                        my_gen: self.my_gen,
                        stage: ConnectStage::Querying,
                        attempt: next,
                        settle_ms: self.settle_ms,
                    };
                    let logs: Vec<String> = Vec::new();
                    assert(str_views(logs@) =~= Seq::<Seq<char>>::empty());
                    ConnectStep { logs, action: ConnectAction::QueryStatus }
                } else {
                    self.stage = ConnectStage::Stopping;
                    let mut logs: Vec<String> = Vec::new();
                    logs.push(lit("⚠ 连接失败，请检查 supernode 地址和网络"));
                    assert(str_views(logs@) =~= seq![msg_failed()]);
                    ConnectStep { logs, action: ConnectAction::StopEdge }
                }
            },
            ConnectEvent::Stopped(Err(e)) => {
                self.stage = ConnectStage::Done;
                let logs: Vec<String> = Vec::new();
                assert(str_views(logs@) =~= Seq::<Seq<char>>::empty());
                ConnectStep { logs, action: ConnectAction::Finish(Err(e)) }
            },
            ConnectEvent::Stopped(Ok(())) => {
                self.stage = ConnectStage::Done;
                let logs: Vec<String> = Vec::new();
                assert(str_views(logs@) =~= Seq::<Seq<char>>::empty());
                ConnectStep {
                    logs,
                    action: ConnectAction::Finish(Err(lit("连接失败：无法连接到 supernode，请检查地址和网络"))),
                }
            },
        }
    }

    fn connected_msg(&self) -> (res: String)
        ensures
            res@ == msg_connected(self@.attempt),
    {
        let a = decimal_string(self.attempt);
        let mut m = lit("✓ 已连接 (尝试 ");
        m.append(a.as_str());
        m.append("/5)");
        m
    }

    fn finish_cancelled(&mut self) -> (res: ConnectStep)
        requires
            flow_wf(old(self)@),
            old(self)@.stage != ConnectStage::Done,
        ensures
            final(self)@ == done(old(self)@),
            str_views(res.logs@) == seq![msg_cancelled()],
            res.action@ == ConnectActionView::Finish(Ok(())),
    {
        proof {
            use_type_invariant(&*self);
        }
        self.stage = ConnectStage::Done;
        let mut logs: Vec<String> = Vec::new();
        logs.push(lit("连接已被取消"));
        assert(str_views(logs@) =~= seq![msg_cancelled()]);
        ConnectStep { logs, action: ConnectAction::Finish(Ok(())) }
    }
}

// ---------------------------------------------------------------------------
// Completing a status report
// ---------------------------------------------------------------------------

/// A status younger than this many seconds is served from the cache.
pub const QUERY_INTERVAL_SECS: u64 = 3;

/// Whether to answer from the cached status: the last query was less than
/// three seconds ago and a status is cached.
pub fn use_cached_status(elapsed_secs: u64, has_cached: bool) -> (b: bool)
    ensures
        b == (elapsed_secs < QUERY_INTERVAL_SECS && has_cached),
{
    elapsed_secs < QUERY_INTERVAL_SECS && has_cached
}

/// The live supernode age and VPN address laid over a status: a known age
/// (non-zero) replaces `last_super`, and the status counts as running while
/// it is at most 45 seconds; the edge's own address wins, else a detected
/// one.
pub open spec fn live_overlay(
    st: EdgeStatusView,
    sn_age: u64,
    lip: Seq<char>,
    detected: Option<Seq<char>>,
) -> EdgeStatusView {
    let s1 = if sn_age > 0 {
        EdgeStatusView { last_super: sn_age, is_running: sn_age <= 45, ..st }
    } else {
        st
    };
    if lip.len() > 0 {
        EdgeStatusView { local_ip: lip, ..s1 }
    } else {
        match detected {
            Some(d) => EdgeStatusView { local_ip: d, ..s1 },
            None => s1,
        }
    }
}

fn overlay(st: EdgeStatus, sn_age: u64, lip: &str, detected: Option<String>) -> (r: EdgeStatus)
    ensures
        r@ == live_overlay(st@, sn_age, lip@, opt_view(detected)),
{
    let s1 = if sn_age > 0 {
        EdgeStatus { last_super: sn_age, is_running: sn_age <= 45, ..st }
    } else {
        st
    };
    let lc = chars_of(lip);
    if lc.len() > 0 {
        EdgeStatus { local_ip: lip.to_string(), ..s1 }
    } else {
        match detected {
            Some(d) => EdgeStatus { local_ip: d, ..s1 },
            None => s1,
        }
    }
}

/// Whether the cached status needs the VPN address detected: the edge did
/// not print one, the supernode is connected and the cache has none.
pub fn cached_needs_detection(cached: &EdgeStatus, lip: &str, sn_connected: bool) -> (b: bool)
    ensures
        b == (lip@.len() == 0 && sn_connected && cached@.local_ip.len() == 0),
{
    let lc = chars_of(lip);
    let cc = chars_of(cached.local_ip.as_str());
    lc.len() == 0 && sn_connected && cc.len() == 0
}

/// A cached status brought up to date with the live link state.
pub fn refresh_cached(cached: EdgeStatus, sn_age: u64, lip: &str, detected: Option<String>) -> (r:
    EdgeStatus)
    ensures
        r@ == live_overlay(cached@, sn_age, lip@, opt_view(detected)),
{
    overlay(cached, sn_age, lip, detected)
}

/// Whether a fresh status needs the VPN address detected: the edge did not
/// print one and the supernode is connected.
pub fn fresh_needs_detection(lip: &str, sn_connected: bool) -> (b: bool)
    ensures
        b == (lip@.len() == 0 && sn_connected),
{
    let lc = chars_of(lip);
    lc.len() == 0 && sn_connected
}

/// A status whose supernode was last heard more than 60 seconds ago is not
/// running; then the live state is laid over it.
pub open spec fn fresh_status(
    parsed: EdgeStatusView,
    sn_age: u64,
    lip: Seq<char>,
    detected: Option<Seq<char>>,
) -> EdgeStatusView {
    let s0 = if parsed.last_super > 60 {
        EdgeStatusView { is_running: false, ..parsed }
    } else {
        parsed
    };
    live_overlay(s0, sn_age, lip, detected)
}

/// A freshly parsed status completed with the live link state.
pub fn finish_fresh_status(parsed: EdgeStatus, sn_age: u64, lip: &str, detected: Option<String>) -> (r:
    EdgeStatus)
    ensures
        r@ == fresh_status(parsed@, sn_age, lip@, opt_view(detected)),
{
    let s0 = if parsed.last_super > 60 {
        EdgeStatus { is_running: false, ..parsed }
    } else {
        parsed
    };
    overlay(s0, sn_age, lip, detected)
}

/// The subnet to search for peers in: the local address without its last
/// field, once the address is known and the supernode was heard within 45
/// seconds.
pub open spec fn discovery_subnet_spec(st: EdgeStatusView) -> Option<Seq<char>> {
    if st.local_ip.len() > 0 && st.last_super < 45 {
        before_last_dot(st.local_ip)
    } else {
        None
    }
}

/// The subnet peer discovery starts on, if it is to start: the local
/// address without its last field.
pub fn discovery_subnet(st: &EdgeStatus) -> (res: Option<String>)
    ensures
        opt_view(res) == discovery_subnet_spec(st@),
{
    let lc = chars_of(st.local_ip.as_str());
    if lc.len() > 0 && st.last_super < 45 {
        match before_last_dot_chars(lc.as_slice()) {
            Some(v) => Some(string_of(v.as_slice())),
            None => None,
        }
    } else {
        None
    }
}

} // verus!
