//! The decisions behind the user interface's commands: connect requests,
//! status replies, error classification, traffic counters, the firewall
//! report, ping times and the close-behaviour setting.

use vstd::prelude::*;
use crate::management::{EdgeStatus, EdgeStatusView};
use crate::strmap::{pair_views, StringMap};
use crate::text::{
    chars_of, contains, contains_lit, contains_text, is_digit, parse_u64, parse_u64_spec, starts_with,
    starts_with_lit, str_views, views, words, words_of,
};
use crate::trusted::{
    decode_rgba, rgba_image, json_of_string_map, json_string_map, lowercase, parse_json_string_map, string_map_json,
    to_lowercase,
};
use crate::edge::opt_view;

verus! {

// ---------------------------------------------------------------------------
// Connect request
// ---------------------------------------------------------------------------

/// What the user asks to connect with.
pub struct ConnectRequest {
    pub server_address: String,
    pub custom_ip: Option<String>,
    pub community_name: String,
    pub encryption_key: Option<String>,
}

impl ConnectRequest {
    /// The static address to ask for: the custom address when one is given
    /// and not empty; otherwise the supernode assigns one.
    pub fn virtual_ip(&self) -> (res: Option<String>)
        ensures
            match self.custom_ip {
                Some(ip) => if ip@.len() > 0 {
                    opt_view(res) == Some(ip@)
                } else {
                    res is None
                },
                None => res is None,
            },
    {
        match &self.custom_ip {
            Some(ip) => if !ip.as_str().is_empty() {
                Some(ip.clone())
            } else {
                None
            },
            None => None,
        }
    }
}

// ---------------------------------------------------------------------------
// Status reply
// ---------------------------------------------------------------------------

/// The status command's reply.
pub struct StatusResponse {
    pub is_running: bool,
    pub tun_ready: bool,
    pub sn_connected: bool,
    pub status: Option<EdgeStatus>,
}

pub open spec fn reported_status(st: EdgeStatusView, sn_connected: bool, last_sn: u64) -> EdgeStatusView {
    EdgeStatusView {
        last_super: if last_sn < 999 {
            last_sn
        } else {
            999
        },
        is_running: sn_connected || last_sn <= 45,
        ..st
    }
}

pub open spec fn opt_status_view(o: Option<EdgeStatus>) -> Option<EdgeStatusView> {
    match o {
        Some(s) => Some(s@),
        None => None,
    }
}

/// The reply to the status command: the link state as given, and the status
/// (when there is one) with the supernode age capped at 999 and counted as
/// running while the supernode is connected or heard within 45 seconds.
pub fn status_response(is_running: bool, conn_state: (bool, bool, u64), status: Option<EdgeStatus>) -> (res:
    StatusResponse)
    ensures
        res.is_running == is_running,
        res.tun_ready == conn_state.0,
        res.sn_connected == conn_state.1,
        opt_status_view(res.status) == match opt_status_view(status) {
            Some(s) => Some(reported_status(s, conn_state.1, conn_state.2)),
            None => None,
        },
{
    let (tun_ready, sn_connected, last_sn) = conn_state;
    let st = match status {
        Some(s) => Some(
            EdgeStatus {
                last_super: if last_sn < 999 {
                    last_sn
                } else {
                    999
                },
                is_running: sn_connected || last_sn <= 45,
                ..s
            },
        ),
        None => None,
    };
    StatusResponse { is_running, tun_ready, sn_connected, status: st }
}

// ---------------------------------------------------------------------------
// Errors
// ---------------------------------------------------------------------------

/// An error as the user interface shows it.
pub struct ErrorResponse {
    /// `network`, `permission`, `config`, `process` or `unknown`.
    pub error_type: String,
    /// A short title for the user.
    pub message: String,
    /// What the user can do.
    pub suggestion: String,
    /// The error's own text, for the log.
    pub detail: String,
}

pub struct ErrorResponseView {
    pub error_type: Seq<char>,
    pub message: Seq<char>,
    pub suggestion: Seq<char>,
    pub detail: Seq<char>,
}

impl View for ErrorResponse {
    type V = ErrorResponseView;

    open spec fn view(&self) -> ErrorResponseView {
        ErrorResponseView {
            error_type: self.error_type@,
            message: self.message@,
            suggestion: self.suggestion@,
            detail: self.detail@,
        }
    }
}

pub open spec fn is_permission_error(lower: Seq<char>) -> bool {
    contains(lower, "access denied"@) || contains(lower, "permission"@) || contains(lower, "admin"@)
        || contains(lower, "elevat"@)
}

pub open spec fn is_network_error(lower: Seq<char>) -> bool {
    contains(lower, "timeout"@) || contains(lower, "refused"@) || contains(lower, "unreachable"@)
        || contains(lower, "10060"@) || contains(lower, "10061"@) || contains(lower, "resolve"@)
}

pub open spec fn is_config_error(lower: Seq<char>) -> bool {
    contains(lower, "invalid"@) || contains(lower, "empty"@) || contains(lower, "format"@) || contains(
        lower,
        "config"@,
    )
}

pub open spec fn is_process_error(lower: Seq<char>) -> bool {
    contains(lower, "process"@) || contains(lower, "edge"@) || contains(lower, "not found"@)
        || contains(lower, "sidecar"@)
}

/// The classification of an error text, by keywords in its lower-case form,
/// the first matching kind winning.
pub open spec fn classified(msg: Seq<char>) -> ErrorResponseView {
    let lower = lowercase(msg);
    if is_permission_error(lower) {
        ErrorResponseView {
            error_type: "permission"@,
            message: "缺少管理员权限"@,
            suggestion: "请以管理员身份运行 AnyN2N，edge 需要管理员权限创建虚拟网卡"@,
            detail: msg,
        }
    } else if is_network_error(lower) {
        ErrorResponseView {
            error_type: "network"@,
            message: "无法连接到 Supernode 服务器"@,
            suggestion: "请确认服务器地址正确，并检查本机网络和防火墙设置"@,
            detail: msg,
        }
    } else if is_config_error(lower) {
        ErrorResponseView {
            error_type: "config"@,
            message: "配置参数有误"@,
            suggestion: "请检查 IP 地址格式和必填字段是否完整"@,
            detail: msg,
        }
    } else if is_process_error(lower) {
        ErrorResponseView {
            error_type: "process"@,
            message: "Edge 进程异常"@,
            suggestion: "请确认 edge 二进制文件存在，查看运行日志了解详情"@,
            detail: msg,
        }
    } else {
        ErrorResponseView {
            error_type: "unknown"@,
            message: "发生未知错误"@,
            suggestion: "请查看运行日志获取详细信息"@,
            detail: msg,
        }
    }
}

fn response(error_type: &str, message: &str, suggestion: &str, detail: &str) -> (r: ErrorResponse)
    ensures
        r@ == (ErrorResponseView {
            error_type: error_type@,
            message: message@,
            suggestion: suggestion@,
            detail: detail@,
        }),
{
    ErrorResponse {
        error_type: error_type.to_string(),
        message: message.to_string(),
        suggestion: suggestion.to_string(),
        detail: detail.to_string(),
    }
}

/// Sorts an error text into a kind with a title and advice for the user.
pub fn classify_error(msg: &str) -> (res: ErrorResponse)
    ensures
        res@ == classified(msg@),
{
    let m = chars_of(msg);
    let low = to_lowercase(m.as_slice());
    let l = low.as_slice();
    if contains_lit(l, "access denied") || contains_lit(l, "permission") || contains_lit(l, "admin")
        || contains_lit(l, "elevat") {
        response(
            "permission",
            "缺少管理员权限",
            "请以管理员身份运行 AnyN2N，edge 需要管理员权限创建虚拟网卡",
            msg,
        )
    } else if contains_lit(l, "timeout") || contains_lit(l, "refused") || contains_lit(
        l,
        "unreachable",
    ) || contains_lit(l, "10060") || contains_lit(l, "10061") || contains_lit(l, "resolve") {
        response("network", "无法连接到 Supernode 服务器", "请确认服务器地址正确，并检查本机网络和防火墙设置", msg)
    } else if contains_lit(l, "invalid") || contains_lit(l, "empty") || contains_lit(l, "format")
        || contains_lit(l, "config") {
        response("config", "配置参数有误", "请检查 IP 地址格式和必填字段是否完整", msg)
    } else if contains_lit(l, "process") || contains_lit(l, "edge") || contains_lit(l, "not found")
        || contains_lit(l, "sidecar") {
        response("process", "Edge 进程异常", "请确认 edge 二进制文件存在，查看运行日志了解详情", msg)
    } else {
        response("unknown", "发生未知错误", "请查看运行日志获取详细信息", msg)
    }
}

impl ErrorResponse {
    /// The text the error shows as (its title).
    pub fn display_text(&self) -> (s: String)
        ensures
            s@ == self@.message,
    {
        self.message.clone()
    }
}

// ---------------------------------------------------------------------------
// Traffic counters
// ---------------------------------------------------------------------------

/// The traffic counters of the VPN interface.
#[derive(Clone, Copy)]
pub struct TapStats {
    pub rx_bytes: u64,
    pub tx_bytes: u64,
    pub rx_packets: u64,
    pub tx_packets: u64,
}

pub open spec fn zero_stats() -> TapStats {
    TapStats { rx_bytes: 0, tx_bytes: 0, rx_packets: 0, tx_packets: 0 }
}

/// The counters of the first interface whose name contains `iface`.
pub open spec fn stats_from(iface: Option<Seq<char>>, nets: Seq<(Seq<char>, TapStats)>, i: int) -> TapStats
    decreases nets.len() - i,
{
    match iface {
        None => zero_stats(),
        Some(n) => if i < 0 || i >= nets.len() {
            zero_stats()
        } else if contains(nets[i].0, n) {
            nets[i].1
        } else {
            stats_from(iface, nets, i + 1)
        },
    }
}

pub open spec fn net_views(v: Seq<(String, TapStats)>) -> Seq<(Seq<char>, TapStats)> {
    v.map_values(|p: (String, TapStats)| (p.0@, p.1))
}

proof fn lemma_stats_from_at(n: Seq<char>, nets: Seq<(Seq<char>, TapStats)>, i: int, k: int)
    requires
        0 <= i <= k < nets.len(),
        contains(nets[k].0, n),
        forall|j: int| i <= j < k ==> !contains(#[trigger] nets[j].0, n),
    ensures
        stats_from(Some(n), nets, i) == nets[k].1,
    decreases k - i,
{
    if i < k {
        lemma_stats_from_at(n, nets, i + 1, k);
    }
}

proof fn lemma_stats_from_none(n: Seq<char>, nets: Seq<(Seq<char>, TapStats)>, i: int)
    requires
        0 <= i,
        forall|j: int| i <= j < nets.len() ==> !contains(#[trigger] nets[j].0, n),
    ensures
        stats_from(Some(n), nets, i) == zero_stats(),
    decreases nets.len() - i,
{
    if i < nets.len() {
        lemma_stats_from_none(n, nets, i + 1);
    }
}

/// The counters reported for the VPN interface `n` are, field by field,
/// those of the first interface whose name contains `n`: its received and
/// sent bytes and its received and sent packets. With no such interface, or
/// no VPN interface known, every counter is 0.
pub proof fn lemma_tap_stats_of_first_match(
    iface: Option<Seq<char>>,
    nets: Seq<(Seq<char>, TapStats)>,
    k: int,
)
    ensures
        iface matches Some(n) && 0 <= k < nets.len() && contains(nets[k].0, n) && (forall|j: int|
            0 <= j < k ==> !contains(#[trigger] nets[j].0, n)) ==> ({
            let r = stats_from(iface, nets, 0);
            &&& r.rx_bytes == nets[k].1.rx_bytes
            &&& r.tx_bytes == nets[k].1.tx_bytes
            &&& r.rx_packets == nets[k].1.rx_packets
            &&& r.tx_packets == nets[k].1.tx_packets
        }),
        (iface is None || forall|j: int|
            0 <= j < nets.len() ==> !contains(#[trigger] nets[j].0, iface->0)) ==> ({
            let r = stats_from(iface, nets, 0);
            &&& r.rx_bytes == 0
            &&& r.tx_bytes == 0
            &&& r.rx_packets == 0
            &&& r.tx_packets == 0
        }),
{
    match iface {
        Some(n) => {
            if 0 <= k < nets.len() && contains(nets[k].0, n) && (forall|j: int|
                0 <= j < k ==> !contains(#[trigger] nets[j].0, n)) {
                lemma_stats_from_at(n, nets, 0, k);
            }
            if forall|j: int| 0 <= j < nets.len() ==> !contains(#[trigger] nets[j].0, n) {
                lemma_stats_from_none(n, nets, 0);
            }
        },
        None => {},
    }
}

/// The VPN interface's counters among the machine's interfaces; all zero
/// when the interface is unknown or absent.
pub fn tap_stats_for(iface: &Option<String>, nets: &Vec<(String, TapStats)>) -> (res: TapStats)
    ensures
        res == stats_from(opt_view(*iface), net_views(nets@), 0),
{
    let name = match iface {
        Some(n) => chars_of(n.as_str()),
        None => {
            return TapStats { rx_bytes: 0, tx_bytes: 0, rx_packets: 0, tx_packets: 0 };
        },
    };
    let k = nets.len();
    for i in 0..k
        invariant
            k == nets@.len(),
            iface is Some,
            name@ == iface->0@,
            stats_from(opt_view(*iface), net_views(nets@), 0) == stats_from(
                opt_view(*iface),
                net_views(nets@),
                i as int,
            ),
    {
        let c = chars_of(nets[i].0.as_str());
        assert(net_views(nets@)[i as int] == (nets@[i as int].0@, nets@[i as int].1));
        if contains_text(c.as_slice(), name.as_slice()) {
            return nets[i].1;
        }
    }
    TapStats { rx_bytes: 0, tx_bytes: 0, rx_packets: 0, tx_packets: 0 }
}

/// A Windows adapter description that names a TAP or Wintun driver.
pub open spec fn tap_adapter_desc(desc: Seq<char>) -> bool {
    contains(lowercase(desc), "tap"@) || contains(lowercase(desc), "wintun"@)
}

/// An interface name of a TUN/TAP device.
pub open spec fn tap_iface_name(name: Seq<char>) -> bool {
    let l = lowercase(name);
    starts_with(l, "tap"@) || starts_with(l, "tun"@) || starts_with(l, "n2n"@) || starts_with(
        l,
        "utun"@,
    )
}

pub open spec fn first_tap_adapter(a: Seq<(Seq<char>, Seq<char>)>, i: int) -> Option<Seq<char>>
    decreases a.len() - i,
{
    if i < 0 || i >= a.len() {
        None
    } else if tap_adapter_desc(a[i].0) {
        Some(a[i].1)
    } else {
        first_tap_adapter(a, i + 1)
    }
}

pub open spec fn first_tap_name(n: Seq<Seq<char>>, i: int) -> Option<Seq<char>>
    decreases n.len() - i,
{
    if i < 0 || i >= n.len() {
        None
    } else if tap_iface_name(n[i]) {
        Some(n[i])
    } else {
        first_tap_name(n, i + 1)
    }
}

/// The friendly name of the first Windows adapter `(description, name)`
/// whose description names a TAP or Wintun driver.
pub fn find_tap_adapter(adapters: &Vec<(String, String)>) -> (res: Option<String>)
    ensures
        opt_view(res) == first_tap_adapter(pair_views(adapters@), 0),
{
    let k = adapters.len();
    for i in 0..k
        invariant
            k == adapters@.len(),
            first_tap_adapter(pair_views(adapters@), 0) == first_tap_adapter(
                pair_views(adapters@),
                i as int,
            ),
    {
        assert(pair_views(adapters@)[i as int] == (adapters@[i as int].0@, adapters@[i as int].1@));
        let d = chars_of(adapters[i].0.as_str());
        let low = to_lowercase(d.as_slice());
        if contains_lit(low.as_slice(), "tap") || contains_lit(low.as_slice(), "wintun") {
            return Some(adapters[i].1.clone());
        }
    }
    None
}

/// The first interface name that is a TUN/TAP device.
pub fn find_tap_interface(names: &Vec<String>) -> (res: Option<String>)
    ensures
        opt_view(res) == first_tap_name(str_views(names@), 0),
{
    let k = names.len();
    for i in 0..k
        invariant
            k == names@.len(),
            first_tap_name(str_views(names@), 0) == first_tap_name(str_views(names@), i as int),
    {
        assert(str_views(names@)[i as int] == names@[i as int]@);
        let c = chars_of(names[i].as_str());
        let l = to_lowercase(c.as_slice());
        let ls = l.as_slice();
        if starts_with_lit(ls, "tap") || starts_with_lit(ls, "tun") || starts_with_lit(ls, "n2n")
            || starts_with_lit(ls, "utun") {
            return Some(names[i].clone());
        }
    }
    None
}

// ---------------------------------------------------------------------------
// Firewall report
// ---------------------------------------------------------------------------

/// Whether the firewall is on and whether it lets the edge through.
pub struct FirewallStatus {
    pub enabled: bool,
    pub rule_exists: bool,
    pub platform: String,
}

pub open spec fn out_contains(out: Option<Seq<char>>, pat: Seq<char>) -> bool {
    match out {
        Some(t) => contains(t, pat),
        None => false,
    }
}

fn out_has(out: Option<&str>, pat: &str) -> (b: bool)
    ensures
        b == out_contains(
            match out {
                Some(t) => Some(t@),
                None => None,
            },
            pat@,
        ),
{
    match out {
        Some(t) => {
            let c = chars_of(t);
            contains_lit(c.as_slice(), pat)
        },
        None => false,
    }
}

pub open spec fn opt_str(o: Option<&str>) -> Option<Seq<char>> {
    match o {
        Some(t) => Some(t@),
        None => None,
    }
}

/// Windows: on when the profile states show `ON`; the rule exists when the
/// rule listing names `AnyN2N Edge`. Each listing is `netsh`'s output,
/// `None` when it could not run.
pub fn firewall_status_windows(state_out: Option<&str>, rule_out: Option<&str>) -> (res: FirewallStatus)
    ensures
        res.enabled == out_contains(opt_str(state_out), "ON"@),
        res.rule_exists == out_contains(opt_str(rule_out), "AnyN2N Edge"@),
        res.platform@ == "windows"@,
{
    FirewallStatus {
        enabled: out_has(state_out, "ON"),
        rule_exists: out_has(rule_out, "AnyN2N Edge"),
        platform: "windows".to_string(),
    }
}

/// macOS: on when the global state shows `on`; the rule exists when the
/// application list names the edge program.
pub fn firewall_status_macos(state_out: Option<&str>, apps_out: Option<&str>, program: &str) -> (res:
    FirewallStatus)
    ensures
        res.enabled == out_contains(opt_str(state_out), "on"@),
        res.rule_exists == out_contains(opt_str(apps_out), program@),
        res.platform@ == "macos"@,
{
    FirewallStatus {
        enabled: out_has(state_out, "on"),
        rule_exists: out_has(apps_out, program),
        platform: "macos".to_string(),
    }
}

/// Linux: on when firewalld reports running, or else when `ufw status`
/// shows `active`; existing rules are not looked for.
pub fn firewall_status_linux(firewalld_running: bool, ufw_out: Option<&str>) -> (res: FirewallStatus)
    ensures
        res.enabled == (firewalld_running || out_contains(opt_str(ufw_out), "active"@)),
        !res.rule_exists,
        res.platform@ == "linux"@,
{
    FirewallStatus {
        enabled: firewalld_running || out_has(ufw_out, "active"),
        rule_exists: false,
        platform: "linux".to_string(),
    }
}

/// The reply after `netsh` was asked to add the edge's rule: a confirmation
/// on success, else its error output.
pub fn windows_rule_result(success: bool, stderr: &str) -> (res: Result<String, String>)
    ensures
        match res {
            Ok(m) => success && m@ == "已添加防火墙规则，放行 AnyN2N Edge 程序"@,
            Err(e) => !success && e@ == stderr@,
        },
{
    if success {
        Ok("已添加防火墙规则，放行 AnyN2N Edge 程序".to_string())
    } else {
        Err(stderr.to_string())
    }
}

// ---------------------------------------------------------------------------
// Ping
// ---------------------------------------------------------------------------

pub open spec fn digits_of(s: Seq<char>) -> Seq<char>
    decreases s.len(),
{
    if s.len() == 0 {
        s
    } else if is_digit(s.last()) {
        digits_of(s.drop_last()).push(s.last())
    } else {
        digits_of(s.drop_last())
    }
}

/// The round trip time in the ping output: the digits of the first word
/// that starts with `time` and holds a number (`time=12.3ms` reads 123).
pub open spec fn ping_time_from(w: Seq<Seq<char>>, i: int) -> Option<u64>
    decreases w.len() - i,
{
    if i < 0 || i >= w.len() {
        None
    } else if starts_with(w[i], "time"@) && parse_u64_spec(digits_of(w[i])) is Some {
        parse_u64_spec(digits_of(w[i]))
    } else {
        ping_time_from(w, i + 1)
    }
}

fn digits_only(s: &[char]) -> (res: Vec<char>)
    ensures
        res@ == digits_of(s@),
{
    let mut res: Vec<char> = Vec::new();
    let n = s.len();
    for i in 0..n
        invariant
            n == s@.len(),
            res@ == digits_of(s@.take(i as int)),
    {
        assert(s@.take(i + 1).drop_last() =~= s@.take(i as int));
        assert(s@.take(i + 1).last() == s@[i as int]);
        if crate::text::char_is_digit(s[i]) {
            res.push(s[i]);
        }
    }
    assert(s@.take(n as int) =~= s@);
    res
}

/// The milliseconds that the output of `ping` reports.
pub fn ping_time_ms(text: &str) -> (res: Option<u64>)
    ensures
        res == ping_time_from(words(text@), 0),
{
    let c = chars_of(text);
    let w = words_of(c.as_slice());
    let k = w.len();
    for i in 0..k
        invariant
            k == w@.len(),
            views(w@) == words(text@),
            ping_time_from(words(text@), 0) == ping_time_from(words(text@), i as int),
    {
        assert(views(w@)[i as int] == w@[i as int]@);
        if starts_with_lit(w[i].as_slice(), "time") {
            let d = digits_only(w[i].as_slice());
            match parse_u64(d.as_slice()) {
                Some(ms) => {
                    return Some(ms);
                },
                None => {},
            }
        }
    }
    None
}

// ---------------------------------------------------------------------------
// Window shell
// ---------------------------------------------------------------------------

/// What to do with a navigation of the app's web view.
#[derive(Clone, Copy, PartialEq, Eq, Structural)]
pub enum NavigationDecision {
    /// Let the web view follow it.
    Allow,
    /// Open it in the system browser and keep the web view where it is.
    OpenExternally,
}

pub open spec fn internal_host(host: Option<Seq<char>>) -> bool {
    match host {
        Some(h) => h == "localhost"@ || h == "127.0.0.1"@ || h == "tauri.localhost"@ || h == "::1"@,
        None => false,
    }
}

pub open spec fn external_scheme(scheme: Seq<char>) -> bool {
    scheme == "http"@ || scheme == "https"@ || scheme == "mailto"@ || scheme == "tel"@
}

/// The app's own pages stay in the web view; web, mail and phone links go
/// to the system; anything else is followed.
pub open spec fn navigation_spec(scheme: Seq<char>, host: Option<Seq<char>>) -> NavigationDecision {
    if scheme == "tauri"@ || internal_host(host) {
        NavigationDecision::Allow
    } else if external_scheme(scheme) {
        NavigationDecision::OpenExternally
    } else {
        NavigationDecision::Allow
    }
}

fn text_is(s: &str, lit: &str) -> (b: bool)
    ensures
        b == (s@ == lit@),
{
    let c = chars_of(s);
    crate::text::eq_lit(c.as_slice(), lit)
}

/// The navigation rule of the web view: where a link may open.
pub fn navigation_decision(scheme: &str, host: Option<&str>) -> (res: NavigationDecision)
    ensures
        res == navigation_spec(scheme@, opt_str(host)),
{
    let internal_host = match host {
        Some(h) => text_is(h, "localhost") || text_is(h, "127.0.0.1") || text_is(h, "tauri.localhost")
            || text_is(h, "::1"),
        None => false,
    };
    if text_is(scheme, "tauri") || internal_host {
        NavigationDecision::Allow
    } else if text_is(scheme, "http") || text_is(scheme, "https") || text_is(scheme, "mailto")
        || text_is(scheme, "tel") {
        NavigationDecision::OpenExternally
    } else {
        NavigationDecision::Allow
    }
}

/// What closing the main window does.
#[derive(Clone, Copy, PartialEq, Eq, Structural)]
pub enum CloseAction {
    /// Ask the user to confirm quitting.
    ConfirmQuit,
    /// Hide the window to the tray.
    HideToTray,
}

/// The close behaviour `close` asks for confirmation; any other hides the
/// window.
pub fn close_action(behavior: &str) -> (res: CloseAction)
    ensures
        res == if behavior@ == "close"@ {
            CloseAction::ConfirmQuit
        } else {
            CloseAction::HideToTray
        },
{
    if text_is(behavior, "close") {
        CloseAction::ConfirmQuit
    } else {
        CloseAction::HideToTray
    }
}

/// An icon's pixels, as RGBA bytes.
pub struct IconImage {
    pub rgba: Vec<u8>,
    pub width: u32,
    pub height: u32,
}

/// The pixels of an icon file;
/// `None` when the bytes are no image.
pub fn decode_icon(bytes: &[u8]) -> (res: Option<IconImage>)
    ensures
        match res {
            Some(img) => rgba_image(bytes@) == Some((img.rgba@, img.width, img.height)),
            None => rgba_image(bytes@) is None,
        },
{
    match decode_rgba(bytes) {
        Some((rgba, width, height)) => Some(IconImage { rgba, width, height }),
        None => None,
    }
}

// ---------------------------------------------------------------------------
// Settings
// ---------------------------------------------------------------------------

pub open spec fn close_behavior_key() -> Seq<char> {
    "close_behavior"@
}

/// The close behaviour in a settings map: the stored value, else `minimize`.
pub open spec fn close_behavior_of(m: Map<Seq<char>, Seq<char>>) -> Seq<char> {
    if m.dom().contains(close_behavior_key()) {
        m[close_behavior_key()]
    } else {
        "minimize"@
    }
}

/// The settings that a settings file holding `text` stores (`None`: the file
/// could not be read): the JSON object's entries, else none.
pub open spec fn settings_in(text: Option<Seq<char>>) -> Map<Seq<char>, Seq<char>> {
    match text {
        Some(t) => match json_string_map(t) {
            Some(m) => m,
            None => Map::empty(),
        },
        None => Map::empty(),
    }
}

/// The settings stored in `text`, the settings file's content (`None` when
/// it could not be read); empty when it is not a JSON object of strings.
pub fn load_settings_map(text: Option<&str>) -> (res: StringMap)
    ensures
        res@ == settings_in(opt_str(text)),
{
    match text {
        Some(t) => match parse_json_string_map(t) {
            Some(pairs) => StringMap::from_pairs(pairs),
            None => StringMap::new(),
        },
        None => StringMap::new(),
    }
}

/// The settings as the settings file holds them, as JSON text; loading that
/// text gives the same settings back.
pub fn save_settings_map(settings: &StringMap) -> (res: Option<String>)
    ensures
        match res {
            Some(t) => json_of_string_map(settings@) == Some(t@),
            None => json_of_string_map(settings@) is None,
        },
        res matches Some(t) ==> settings_in(Some(t@)) == settings@,
        res is Some,
{
    let pairs = settings.to_pairs();
    string_map_json(&pairs)
}

/// What the app does when its window is closed: `close` or `minimize`,
/// given the loaded settings.
pub fn get_close_behavior(settings: &StringMap) -> (res: String)
    ensures
        res@ == close_behavior_of(settings@),
{
    let key = "close_behavior".to_string();
    match settings.get(&key) {
        Some(v) => v,
        None => "minimize".to_string(),
    }
}

/// Stores the close behaviour in the loaded settings.
pub fn set_close_behavior(settings: &mut StringMap, behavior: String)
    ensures
        final(settings)@ == old(settings)@.insert(close_behavior_key(), behavior@),
{
    settings.insert("close_behavior".to_string(), behavior);
}

/// The settings file's new text when the close behaviour is set to
/// `behavior` in the settings that `text` holds: the other settings stay,
/// and the close behaviour read back from the new text is `behavior`.
pub fn settings_text_with_close_behavior(text: Option<&str>, behavior: String) -> (res: String)
    ensures
        settings_in(Some(res@)) == settings_in(opt_str(text)).insert(
            close_behavior_key(),
            behavior@,
        ),
        close_behavior_of(settings_in(Some(res@))) == behavior@,
{
    let ghost b = behavior@;
    let mut m = load_settings_map(text);
    set_close_behavior(&mut m, behavior);
    match save_settings_map(&m) {
        Some(t) => {
            proof {
                lemma_close_behavior_read_back(settings_in(opt_str(text)), b);
            }
            t
        },
        // Saving a map of strings never fails, so this arm is not taken.
        None => String::new(),
    }
}

/// A stored close behaviour is read back as stored.
pub proof fn lemma_close_behavior_read_back(m: Map<Seq<char>, Seq<char>>, behavior: Seq<char>)
    ensures
        close_behavior_of(m.insert(close_behavior_key(), behavior)) == behavior,
{
}

} // verus!
