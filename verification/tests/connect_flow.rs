use anyn2n::addr::Platform;
use anyn2n::connection::{
    cached_needs_detection, discovery_subnet, finish_fresh_status, fresh_needs_detection,
    refresh_cached, use_cached_status, ConnectAction, ConnectEvent, ConnectFlow, ConnectStage,
};
use anyn2n::management::parse_status;
use anyn2n::strmap::StringMap;

fn is_wait(a: &ConnectAction, ms: u64) -> bool {
    matches!(a, ConnectAction::Wait(x) if *x == ms)
}

#[test]
fn connect_succeeds_on_second_query() {
    let (mut f, first) = ConnectFlow::new(3, "sn:7654", Platform::Linux);
    assert_eq!(first.logs, vec!["正在连接到 sn:7654 ..."]);
    assert!(matches!(first.action, ConnectAction::StartEdge));
    let s = f.step(ConnectEvent::Started(Ok(())), 3);
    assert_eq!(s.logs, vec!["正在启动 edge 进程...（如失败请以管理员身份运行）"]);
    assert!(is_wait(&s.action, 1000));
    let s = f.step(ConnectEvent::Waited, 3);
    assert!(matches!(s.action, ConnectAction::QueryStatus));
    assert_eq!(f.attempt(), 1);
    let s = f.step(ConnectEvent::Queried(Err("timed out".to_string())), 3);
    assert_eq!(s.logs, vec!["等待中... (1/5) timed out"]);
    assert!(is_wait(&s.action, 2000));
    let s = f.step(ConnectEvent::Waited, 3);
    assert!(matches!(s.action, ConnectAction::QueryStatus));
    let s = f.step(ConnectEvent::Queried(Ok(())), 3);
    assert_eq!(s.logs, vec!["✓ 已连接 (尝试 2/5)"]);
    assert!(matches!(s.action, ConnectAction::Finish(Ok(()))));
    assert!(f.stage() == ConnectStage::Done);
}

#[test]
fn connect_gives_up_after_five_queries() {
    let (mut f, _) = ConnectFlow::new(0, "sn", Platform::Windows);
    let s = f.step(ConnectEvent::Started(Ok(())), 0);
    assert!(is_wait(&s.action, 5000));
    let mut queries = 0;
    let mut s = f.step(ConnectEvent::Waited, 0);
    loop {
        match s.action {
            ConnectAction::QueryStatus => {
                queries += 1;
                let w = f.step(ConnectEvent::Queried(Err("refused".to_string())), 0);
                assert!(is_wait(&w.action, 2000));
                s = f.step(ConnectEvent::Waited, 0);
            }
            ConnectAction::StopEdge => break,
            _ => panic!("unexpected action"),
        }
    }
    assert_eq!(queries, 5);
    assert_eq!(s.logs, vec!["⚠ 连接失败，请检查 supernode 地址和网络"]);
    let end = f.step(ConnectEvent::Stopped(Ok(())), 0);
    match end.action {
        ConnectAction::Finish(Err(e)) => assert_eq!(e, "连接失败：无法连接到 supernode，请检查地址和网络"),
        _ => panic!("expected a failure"),
    }
}

#[test]
fn cancelled_connect_ends_quietly() {
    let (mut f, _) = ConnectFlow::new(1, "sn", Platform::Linux);
    let s = f.step(ConnectEvent::Started(Ok(())), 2);
    assert_eq!(s.logs, vec!["连接已被取消"]);
    assert!(matches!(s.action, ConnectAction::Finish(Ok(()))));

    let (mut g, _) = ConnectFlow::new(1, "sn", Platform::Linux);
    g.step(ConnectEvent::Started(Ok(())), 1);
    g.step(ConnectEvent::Waited, 1);
    let s = g.step(ConnectEvent::Queried(Ok(())), 2);
    assert_eq!(s.logs, vec!["✓ 已连接 (尝试 1/5)", "连接已被取消"]);
    assert!(matches!(s.action, ConnectAction::Finish(Ok(()))));
}

#[test]
fn start_failure_is_reported() {
    let (mut f, _) = ConnectFlow::new(1, "sn", Platform::Linux);
    let ev = ConnectEvent::Started(Err("sidecar not found".to_string()));
    assert!(f.accepts(&ev));
    assert!(!f.accepts(&ConnectEvent::Waited));
    let s = f.step(ev, 1);
    assert!(s.logs.is_empty());
    assert!(matches!(s.action, ConnectAction::Finish(Err(ref e)) if e == "sidecar not found"));
}

#[test]
fn status_cache_and_overlay() {
    assert!(use_cached_status(2, true));
    assert!(!use_cached_status(3, true));
    assert!(!use_cached_status(0, false));
    let parsed = parse_status("last_super 70\n", "", &StringMap::new());
    assert!(fresh_needs_detection("", true));
    assert!(!fresh_needs_detection("10.0.0.2", true));
    let st = finish_fresh_status(parsed, 0, "", Some("10.88.45.7".to_string()));
    assert!(!st.is_running);
    assert_eq!(st.last_super, 70);
    assert_eq!(st.local_ip, "10.88.45.7");
    assert_eq!(discovery_subnet(&st), None);
    let st = refresh_cached(st, 12, "10.88.45.9", None);
    assert!(st.is_running);
    assert_eq!(st.last_super, 12);
    assert_eq!(st.local_ip, "10.88.45.9");
    assert!(!cached_needs_detection(&st, "", true));
    assert_eq!(discovery_subnet(&st), Some("10.88.45".to_string()));
    let st = refresh_cached(st, 60, "", None);
    assert!(!st.is_running);
}
