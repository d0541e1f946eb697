use wxauto_desktop::json::Json;
use wxauto_desktop::transport::ws::{
    backoff_base_ms, backoff_delay, backoff_for, log_url, WsAction, WsEvent, WsTransport,
};

#[test]
fn test_backoff_range() {
    for attempt in 0..10u32 {
        let d = backoff_delay(attempt);
        let base = (1000u64 << attempt.min(5)).min(30_000);
        assert_eq!(backoff_base_ms(attempt), base);
        assert!(d >= base * 4 / 5 && d <= base * 6 / 5, "attempt={attempt} d={d}");
    }
}

#[test]
fn test_backoff_cap_at_30s() {
    for attempt in [5u32, 6, 20, 100] {
        let d = backoff_delay(attempt);
        assert!(d >= 24_000 && d <= 36_000, "attempt={attempt} 应封顶在 30s±20%，实际 {d}");
    }
}

#[test]
fn test_backoff_first_attempt_about_1s() {
    let d = backoff_delay(0);
    assert!(d >= 800 && d <= 1200);
    assert_eq!(backoff_for(0, 0), 800);
    assert_eq!(backoff_for(0, 400), 1200);
}

fn open() -> WsTransport {
    let mut t = WsTransport::new("ws://h:1/?token=t".into());
    assert!(matches!(t.run(WsEvent::Begin), WsAction::Connect));
    assert!(matches!(t.run(WsEvent::Connected), WsAction::Welcome));
    t
}

fn loss(t: &mut WsTransport, e: WsEvent) -> (String, u64) {
    match t.run(e) {
        WsAction::Disconnect { reason, delay } => (reason, delay),
        _ => panic!("expected a disconnect"),
    }
}

#[test]
fn test_ws_connect_and_frame_roundtrip() {
    let mut t = open();
    assert_eq!(t.url(), "ws://h:1/?token=t");
    match t.run(WsEvent::Outbound(
        Json::object().put("kind", Json::text("ping")).put("ts", Json::Uint(42)),
    )) {
        WsAction::Send(t) => assert_eq!(t, "{\"kind\":\"ping\",\"ts\":42}"),
        _ => panic!("expected a frame to go out"),
    }
    match t.run(WsEvent::Text("{\"kind\":\"pong\",\"ts\":42}".into())) {
        WsAction::Deliver(f) => {
            assert_eq!(f.get_str("kind"), Some("pong"));
            assert_eq!(f.get("ts").unwrap().as_u64(), Some(42));
        }
        _ => panic!("expected a frame"),
    }
}

#[test]
fn test_ws_on_disconnect_on_server_close() {
    assert_eq!(loss(&mut open(), WsEvent::Close(None)).0, "服务端关闭");
    let close = WsEvent::Close(Some((4001, "token 失效".into())));
    assert_eq!(loss(&mut open(), close).0, "[4001] token 失效");
    assert_eq!(loss(&mut open(), WsEvent::Ended).0, "连接关闭");
    assert_eq!(loss(&mut open(), WsEvent::Failed("x".into())).0, "连接错误: x");
    assert_eq!(loss(&mut open(), WsEvent::SendFailed("x".into())).0, "发送失败: x");
    let mut t = WsTransport::new("ws://h".into());
    t.run(WsEvent::Begin);
    assert_eq!(loss(&mut t, WsEvent::ConnectFailed("x".into())).0, "连接失败: x");
}

#[test]
fn test_reconnect_drains_stale_frames_hello_first() {
    let mut t = open();
    loss(&mut t, WsEvent::Close(None));
    assert!(matches!(t.run(WsEvent::Outbound(Json::Null)), WsAction::Ignore));
    assert!(matches!(t.run(WsEvent::Begin), WsAction::Connect));
    assert!(matches!(t.run(WsEvent::Connected), WsAction::Welcome));
}

#[test]
fn what_is_no_frame_is_passed_over() {
    let mut t = open();
    assert!(matches!(t.run(WsEvent::Text("nope".into())), WsAction::Ignore));
    assert!(matches!(t.run(WsEvent::Other), WsAction::Ignore));
    assert!(matches!(t.run(WsEvent::SendersGone), WsAction::Exit));
    assert!(matches!(t.run(WsEvent::Begin), WsAction::Ignore));
}

#[test]
fn waits_grow_until_a_connection() {
    let mut t = WsTransport::new("ws://h".into());
    for base in [1_000u64, 2_000, 4_000, 8_000, 16_000, 30_000, 30_000] {
        t.run(WsEvent::Begin);
        let (_, d) = loss(&mut t, WsEvent::ConnectFailed("x".into()));
        assert!(d >= base * 8 / 10 && d <= base * 6 / 5);
    }
    t.run(WsEvent::Begin);
    t.run(WsEvent::Connected);
    assert!(loss(&mut t, WsEvent::Ended).1 <= 1_200);
}

#[test]
fn token_is_not_logged() {
    assert_eq!(log_url("ws://h:1/?token=abc"), "ws://h:1/");
    assert_eq!(log_url("ws://h:1"), "ws://h:1");
    assert_eq!(log_url("?x"), "");
}
