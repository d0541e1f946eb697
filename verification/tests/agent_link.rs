use wxauto_desktop::agent_link::inbound::{
    event_frame, friend_request_event, message_event_data, message_event_from_notification,
    next_event_id, now_ms, status_event, EventIds,
};
use wxauto_desktop::agent_link::pending::CommandTracker;
use wxauto_desktop::agent_link::{
    announce_friend, connection_status, friend_poll_gap, friend_poll_gap_for, health_alert_text,
    hello_frame, message_after_follow_up, message_params, notification_pump, AgentLink, FriendPoll,
    FriendPollAction, FriendPollEvent, GreetAction, GreetEvent, Greeting, Heartbeat,
    HeartbeatAction, HeartbeatEvent, Latch, PumpAction, PumpEvent, Route,
};
use wxauto_desktop::alert::AlertClient;
use wxauto_desktop::files::FileRead;
use wxauto_desktop::json::{parse_json, Json};
use wxauto_desktop::outbox::Outbox;
use wxauto_desktop::sidecar::protocol::RpcError;
use wxauto_desktop::wx::{WxHealth, WxSession};

fn json(text: &str) -> Json {
    parse_json(text).expect("JSON")
}

fn greet(
    link: &mut AgentLink,
    g: &mut Greeting,
    outbox: &Outbox,
    info: Result<Json, RpcError>,
) -> Vec<Json> {
    let event = GreetEvent::Info {
        info,
        app_version: "0.1.0".into(),
        hostname: "host".into(),
        ts: 7002,
    };
    match g.step(event, link, outbox, &mut EventIds::new()) {
        GreetAction::Send(frames) => frames,
        _ => panic!("expected frames"),
    }
}

fn data<'a>(f: &'a Json) -> &'a Json {
    f.get("data").expect("data")
}

#[test]
fn test_health_alert_text_three_states() {
    let (t1, d1) = health_alert_text(&WxHealth::Online);
    assert_eq!(t1, "微信已恢复");
    assert!(d1.contains("恢复在线"));

    let (t2, d2) = health_alert_text(&WxHealth::Offline);
    assert_eq!(t2, "微信掉线");
    assert!(d2.contains("微信关闭"), "掉线文案应指向微信侧原因");

    let (t3, d3) = health_alert_text(&WxHealth::Unreachable);
    assert_eq!(t3, "sidecar 无响应");
    assert!(d3.contains("卡死"), "卡死文案应区分于掉线");
    assert!(d3.contains("重启"), "卡死文案应指引自愈路径");
}

#[test]
fn test_finish_unknown_id_is_noop() {
    let mut t = CommandTracker::new();
    t.finish("nope");
    assert!(t.begin("nope".into()));
}

#[test]
fn test_command_tracker_idempotent() {
    let mut tracker = CommandTracker::default();
    assert!(tracker.begin("req-1".into()), "首次执行");
    assert!(!tracker.begin("req-1".into()), "重复 requestId 拒绝");
    tracker.finish("req-1");
    assert!(tracker.begin("req-1".into()), "完成后同 id 可重新执行");
}

#[test]
fn test_command_tracker_independent_ids() {
    let mut tracker = CommandTracker::new();
    assert!(tracker.begin("a".into()));
    assert!(tracker.begin("b".into()), "不同 id 不应被去重");
    tracker.finish("a");
    assert!(tracker.begin("a".into()), "a 已完成可重来");
    assert!(!tracker.begin("b".into()), "b 仍在途");
}

#[test]
fn test_message_event_from_notification_camel() {
    let params = json(
        "{\"msg_id\":\"m1\",\"chat_who\":\"张三\",\"chat_type\":\"group\",\"attr\":\"friend\",\
         \"msg_type\":\"image\",\"sender\":\"李四\",\"content\":\"[图片]\",\"is_at\":true}",
    );
    let mut ids = EventIds::new();
    let f = message_event_from_notification(&params, Some("C:/x.png"), None, &mut ids);
    assert_eq!(f.get_str("kind"), Some("event"));
    assert_eq!(f.get_str("type"), Some("message"));
    assert_eq!(data(&f).get_str("chatName"), Some("张三"));
    assert_eq!(data(&f).get_str("chatType"), Some("group"));
    assert_eq!(data(&f).get_str("attr"), Some("friend"));
    assert_eq!(data(&f).get_str("msgType"), Some("image"));
    assert_eq!(data(&f).get_str("sender"), Some("李四"));
    assert_eq!(data(&f).get_str("content"), Some("[图片]"));
    assert_eq!(data(&f).get_bool("isAt"), Some(true));
    assert_eq!(data(&f).get_str("downloadedMedia"), Some("C:/x.png"));
    assert!(f.get("ts").unwrap().as_u64().expect("ts 应为数字") > 0);
}

#[test]
fn test_message_event_voice_overwrite_and_defaults() {
    let params = json(
        "{\"msg_id\":\"m2\",\"chat_who\":\"王五\",\"chat_type\":\"whatever\",\
         \"msg_type\":\"voice\",\"sender\":\"王五\",\"content\":\"[语音]\"}",
    );
    let mut ids = EventIds::new();
    let f = message_event_from_notification(&params, None, Some("转写文本"), &mut ids);
    assert_eq!(data(&f).get_str("content"), Some("转写文本"), "转写成功应覆写原文");
    assert_eq!(data(&f).get_str("chatType"), Some("friend"), "非 group 一律归一 friend");
    assert_eq!(data(&f).get_str("downloadedMedia"), Some(""));

    let f2 = message_event_from_notification(&params, None, None, &mut ids);
    assert_eq!(data(&f2).get_str("content"), Some("[语音]"));

    let f3 = message_event_from_notification(&json("{}"), None, None, &mut ids);
    assert_eq!(data(&f3).get_str("msgType"), Some("text"));
    assert_eq!(data(&f3).get_str("attr"), Some("friend"));
    assert_eq!(data(&f3).get_str("chatType"), Some("friend"));
    assert_eq!(data(&f3).get_str("content"), Some(""));

    let f4 = message_event_from_notification(&json("{}"), None, None, &mut ids);
    assert_eq!(data(&f4).get_bool("isAt"), Some(false));
}

#[test]
fn test_friend_request_and_status_event_fields() {
    let mut ids = EventIds::new();
    let f = friend_request_event("小明", "请求添加好友", &mut ids);
    assert_eq!(f.get_str("kind"), Some("event"));
    assert_eq!(f.get_str("type"), Some("friend_request"));
    assert_eq!(data(&f).get_str("name"), Some("小明"));
    assert_eq!(data(&f).get_str("msg"), Some("请求添加好友"));
    assert!(f.get("ts").unwrap().as_u64().expect("ts 应为数字") > 0);

    let s = status_event(true, "online", 3, true, &mut ids);
    assert_eq!(s.get_str("kind"), Some("event"));
    assert_eq!(s.get_str("type"), Some("status"));
    assert_eq!(data(&s).get_bool("wxOnline"), Some(true));
    assert_eq!(data(&s).get_str("wxState"), Some("online"));
    assert_eq!(data(&s).get("listeners").unwrap().as_u64(), Some(3));
    assert_eq!(data(&s).get_bool("sidecarAlive"), Some(true));

    let s2 = status_event(false, "probe_timeout", 0, true, &mut ids);
    assert_eq!(data(&s2).get_bool("wxOnline"), Some(false));
    assert_eq!(data(&s2).get_str("wxState"), Some("probe_timeout"));
}

#[test]
fn test_next_event_id_shape_and_monotonic() {
    let mut ids = EventIds::new();
    let a = next_event_id(&mut ids);
    let b = next_event_id(&mut ids);
    assert!(a.starts_with("evt-"), "前缀: {a}");
    assert!(b > a, "序号递增保证字典序单调: {a} < {b}");
    let parts: Vec<&str> = a.split('-').collect();
    assert_eq!(parts.len(), 3, "evt-{{ms}}-{{seq}} 三段: {a}");
    assert!(parts[1].parse::<u64>().is_ok(), "ms 段应为数字: {a}");
    assert!(parts[2].parse::<u64>().is_ok(), "seq 段应为数字: {a}");
}

#[test]
fn test_event_frames_carry_event_id() {
    let note = json(
        "{\"msg_id\":\"m1\",\"chat_who\":\"张三\",\"chat_type\":\"friend\",\"attr\":\"friend\",\
         \"msg_type\":\"text\",\"sender\":\"张三\",\"content\":\"hi\"}",
    );
    let mut ids = EventIds::new();
    let f = message_event_from_notification(&note, None, None, &mut ids);
    assert!(f.get_str("eventId").unwrap_or("").starts_with("evt-"));
    let fr = friend_request_event("王五", "请求添加好友", &mut ids);
    assert!(fr.get_str("eventId").unwrap_or("").starts_with("evt-"));
    let st = status_event(true, "online", 1, true, &mut ids);
    assert!(st.get_str("eventId").unwrap_or("").starts_with("evt-"));
}

#[test]
fn event_ids_at_a_given_time() {
    let mut ids = EventIds::new();
    assert_eq!(ids.take(1700000000000), "evt-1700000000000-00000000000000000000");
    assert_eq!(ids.take(1700000000000), "evt-1700000000000-00000000000000000001");
    let mut last = ids.take(1700000000000);
    for _ in 0..200 {
        let next = ids.take(1700000000000);
        assert!(last < next, "{last} {next}");
        last = next;
    }
    assert!(last < ids.take(1700000000001));
    let f = event_frame("message", message_event_data(&json("{}"), None, None), "evt-1-2", 3);
    assert_eq!(f.get_str("eventId"), Some("evt-1-2"));
    assert_eq!(f.get("ts").unwrap().as_u64(), Some(3));
}

#[test]
fn the_clock_runs() {
    assert!(now_ms() > 1_600_000_000_000);
}

#[test]
fn test_hello_gate_holds_frames_during_slow_get_my_info() {
    let mut link = AgentLink::new("ws://h".into());
    link.set_channel_id("ch".into());
    assert!(!link.is_hello_pending());
    let (mut g, first) = link.on_connect();
    assert!(matches!(first, GreetAction::AskInfo));
    assert!(link.is_hello_pending());
    assert!(link.send_frame(json("{\"kind\":\"ping\",\"ts\":7000}")).is_none());
    let mut outbox = Outbox::disabled();
    let e = link.emit_event(&mut outbox, json("{\"kind\":\"event\",\"ts\":7001}"), 0);
    assert!(e.send.is_none() && e.append.is_none());
    let info = Ok(json("{\"wxid\":\"wxid_slow\",\"nickname\":\"慢速号\"}"));
    let frames = greet(&mut link, &mut g, &outbox, info);
    assert_eq!(frames[0].get_str("kind"), Some("hello"));
    assert_eq!(frames[0].get_str("wxid"), Some("wxid_slow"));
    assert_eq!(frames[0].get_str("channelId"), Some("ch"));
    assert_eq!(frames[1].get("ts").unwrap().as_u64(), Some(7000));
    assert_eq!(frames[2].get("ts").unwrap().as_u64(), Some(7001));
    assert_eq!(frames.len(), 3);
    assert!(link.send_frame(json("{}")).is_some());
    assert!(link.ws_connected());
}

#[test]
fn test_gate_armed_immediately_after_on_connect_callback() {
    let mut latch = Latch::new();
    latch.arm();
    assert!(latch.is_hello_pending());
    assert!(latch.send_frame(json("{\"ts\":8100}")).is_none());
    assert_eq!(latch.open().len(), 1);
    assert!(!latch.is_hello_pending());
    assert!(latch.open().is_empty());
}

#[test]
fn test_alert_sink_roundtrip() {
    let mut link = AgentLink::new("ws://h/".into());
    for health in [WxHealth::Offline, WxHealth::Unreachable, WxHealth::Online] {
        assert!(link.on_health_changed(&health, 1).is_none());
    }
    link.set_alert_sink(AlertClient::new(String::new(), String::new(), "t".into()));
    for health in [WxHealth::Offline, WxHealth::Unreachable, WxHealth::Online] {
        assert!(link.on_health_changed(&health, 1).is_none());
    }
    link.set_alert_sink(AlertClient::new("http://hook".into(), String::new(), "t".into()));
    let post = link.on_health_changed(&WxHealth::Offline, 1).expect("post");
    assert_eq!(post.url, "http://hook");
    assert!(post.body.contains("微信掉线"));
}

#[test]
fn greeting_goes_its_way() {
    let mut link = AgentLink::new("ws://h".into());
    assert_eq!(link.url(), "ws://h");
    let (mut g, _) = link.on_connect();
    let outbox = Outbox::disabled();
    let mut ids = EventIds::new();
    assert!(matches!(
        g.step(GreetEvent::Resynced, &mut link, &outbox, &mut ids),
        GreetAction::Nothing
    ));
    greet(&mut link, &mut g, &outbox, Err(RpcError::Timeout));
    assert!(matches!(
        g.step(GreetEvent::Resynced, &mut link, &outbox, &mut ids),
        GreetAction::Probe
    ));
    let probed = GreetEvent::Probed { health: WxHealth::Offline, listeners: 4 };
    match g.step(probed, &mut link, &outbox, &mut ids) {
        GreetAction::Announce(f) => {
            assert_eq!(f.get_str("type"), Some("status"));
            assert_eq!(data(&f).get("listeners").unwrap().as_u64(), Some(4));
        }
        _ => panic!("expected a status"),
    }
    assert!(matches!(
        g.step(GreetEvent::Resynced, &mut link, &outbox, &mut ids),
        GreetAction::Nothing
    ));
}

#[test]
fn hello_without_an_answer_has_empty_names() {
    let h = hello_frame(&Err(RpcError::Timeout), "9.9", "pc", "ch-1", 5);
    assert_eq!(h.get_str("kind"), Some("hello"));
    assert_eq!(h.get("protocolVersion").unwrap().as_u64(), Some(1));
    assert_eq!(h.get_str("appVersion"), Some("9.9"));
    assert_eq!(h.get_str("wxid"), Some(""));
    assert_eq!(h.get_str("nickname"), Some(""));
    assert_eq!(h.get_str("hostname"), Some("pc"));
    assert_eq!(h.get_str("channelId"), Some("ch-1"));
    assert_eq!(h.get("ts").unwrap().as_u64(), Some(5));
}

#[test]
fn test_e2e_hello_result_and_media_events() {
    let info = Ok(json(
        "{\"licensed\":true,\"wxid\":\"wxid_test\",\"nickname\":\"测试号\",\"online\":true}",
    ));
    let h = hello_frame(&info, "0.1.0", "host", "ch-e2e-001", 1);
    assert_eq!(h.get_str("wxid"), Some("wxid_test"));
    assert_eq!(h.get_str("nickname"), Some("测试号"));
    assert_eq!(h.get_str("channelId"), Some("ch-e2e-001"));

    let frame = json(
        "{\"kind\":\"command\",\"requestId\":\"r1\",\"action\":\"send_message\",\
         \"params\":{\"who\":\"张三\",\"text\":\"img\"}}",
    );
    assert_eq!(AgentLink::on_frame(&frame), Route::Command);
    let mut link = AgentLink::new(String::new());
    let cmd = link.on_command(&frame).expect("r1");
    assert_eq!(WxSession::new().execute(&cmd.action, cmd.params.copy()).ok().unwrap().method, "msg.send");
    let (res, _) = link.finish_command(&cmd, Ok(json("{\"ok\":true}")), 10, 2);
    let res = res.expect("sent at once");
    assert_eq!(res.get_str("requestId"), Some("r1"));
    assert_eq!(res.get_bool("success"), Some(true));
    assert_eq!(data(&res).get_bool("ok"), Some(true));
    assert!(matches!(res.get("error"), Some(Json::Null)), "成功时 error 应为 null");

    let note = json(
        "{\"method\":\"message.received\",\"params\":{\"msg_id\":\"m1\",\"chat_who\":\"张三\",\
         \"chat_type\":\"friend\",\"attr\":\"friend\",\"msg_type\":\"image\",\"sender\":\"张三\",\
         \"content\":\"[图片]\"}}",
    );
    match notification_pump(PumpEvent::Note(note)) {
        PumpAction::Download { msg_id, params } => {
            assert_eq!(message_params(&msg_id).get_str("msgId"), Some("m1"));
            let mut ids = EventIds::new();
            let answer = Ok(json("{\"path\":\"C:/tmp/m1.png\"}"));
            let event = message_after_follow_up(&params, true, &answer, &mut ids);
            assert_eq!(event.get_str("type"), Some("message"));
            let d = data(&event);
            assert_eq!(d.get_str("chatName"), Some("张三"));
            assert_eq!(d.get_str("chatType"), Some("friend"));
            assert_eq!(d.get_str("msgType"), Some("image"));
            assert_eq!(d.get_str("downloadedMedia"), Some("C:/tmp/m1.png"));
            let failed = Err(RpcError::Timeout);
            let failed = message_after_follow_up(&params, true, &failed, &mut ids);
            let failed = data(&failed);
            assert_eq!(failed.get_str("downloadedMedia"), Some(""));
            assert_eq!(failed.get_str("content"), Some("[图片]"));
        }
        _ => panic!("expected a download"),
    }
    let note = json(
        "{\"method\":\"message.received\",\"params\":{\"msg_id\":\"m2\",\"chat_who\":\"客户群\",\
         \"chat_type\":\"group\",\"msg_type\":\"voice\",\"sender\":\"李四\",\"content\":\"[语音]\"}}",
    );
    match notification_pump(PumpEvent::Note(note)) {
        PumpAction::Transcribe { params, .. } => {
            let answer = Ok(json("{\"text\":\"语音转写内容\"}"));
            let event = message_after_follow_up(&params, false, &answer, &mut EventIds::new());
            let d = data(&event);
            assert_eq!(d.get_str("chatType"), Some("group"));
            assert_eq!(d.get_str("sender"), Some("李四"));
            assert_eq!(d.get_str("content"), Some("语音转写内容"));
        }
        _ => panic!("expected a transcript"),
    }
    let mut ids = EventIds::new();
    let st = connection_status(&WxHealth::Online, 0, &mut ids);
    assert_eq!(data(&st).get_bool("wxOnline"), Some(true));
    assert_eq!(data(&st).get_bool("sidecarAlive"), Some(true));
}

#[test]
fn other_notifications_are_passed_over() {
    assert!(matches!(
        notification_pump(PumpEvent::Note(json("{\"method\":\"other\"}"))),
        PumpAction::Skip
    ));
    assert!(matches!(
        notification_pump(PumpEvent::Note(json("{\"method\":\"message.received\"}"))),
        PumpAction::Emit { .. }
    ));
    assert!(matches!(notification_pump(PumpEvent::Lagged), PumpAction::Skip));
    assert!(matches!(notification_pump(PumpEvent::Halt), PumpAction::Exit));
}

#[test]
fn test_notification_pump_resubscribes_after_sidecar_restart() {
    assert!(matches!(notification_pump(PumpEvent::Closed), PumpAction::Resubscribe(500)));
    let note = json(
        "{\"method\":\"message.received\",\"params\":{\"msg_type\":\"text\",\"content\":\"重启后消息\"}}",
    );
    match notification_pump(PumpEvent::Note(note)) {
        PumpAction::Emit { params } => assert_eq!(params.get_str("content"), Some("重启后消息")),
        _ => panic!("expected a message"),
    }
}

#[test]
fn commands_that_are_dropped() {
    let mut l = AgentLink::new(String::new());
    assert!(l.on_command(&json("{\"requestId\":\"\",\"action\":\"a\"}")).is_none());
    assert!(l.on_command(&json("{\"requestId\":\"r\",\"action\":\"\"}")).is_none());
    assert!(l.on_command(&json("{\"action\":\"a\"}")).is_none());
    assert!(l.on_command(&json("{\"requestId\":\"r\"}")).is_none());
    let frame = json("{\"requestId\":\"r\",\"action\":\"a\"}");
    let c = l.on_command(&frame).expect("first");
    assert!(matches!(c.params, Json::Null));
    assert!(l.on_command(&frame).is_none());
    l.finish_command(&c, Ok(Json::Null), 0, 0);
    assert!(l.on_command(&frame).is_some());
}

#[test]
fn result_waits_for_hello() {
    let mut l = AgentLink::new(String::new());
    let c = l.on_command(&json("{\"requestId\":\"r\",\"action\":\"a\"}")).unwrap();
    let (mut g, _) = l.on_connect();
    assert!(l.finish_command(&c, Ok(Json::Null), 0, 0).0.is_none());
    let frames = greet(&mut l, &mut g, &Outbox::disabled(), Ok(Json::Null));
    assert_eq!(frames[0].get_str("kind"), Some("hello"));
    assert_eq!(frames[1].get_str("kind"), Some("result"));
}

#[test]
fn test_command_sink_receives_log_entry() {
    let mut l = AgentLink::new(String::new());
    let ok = json("{\"requestId\":\"r1\",\"action\":\"get_my_info\",\"params\":{}}");
    let c = l.on_command(&ok).unwrap();
    let (_, log) = l.finish_command(&c, Ok(json("{\"ok\":true}")), 600, 77);
    assert_eq!(log.get_str("requestId"), Some("r1"));
    assert_eq!(log.get_str("action"), Some("get_my_info"));
    assert_eq!(log.get_bool("success"), Some(true));
    assert!(log.get("durationMs").unwrap().as_u64().expect("durationMs 应为数字") > 0);
    assert_eq!(log.get("ts").unwrap().as_u64(), Some(77));
    assert!(log.get("error").is_none(), "成功条目不应有 error 字段");

    let bad = json("{\"requestId\":\"r2\",\"action\":\"no_such_action\",\"params\":{}}");
    let c = l.on_command(&bad).unwrap();
    let e = WxSession::new().execute(&c.action, Json::object()).err().unwrap();
    let (res, log) = l.finish_command(&c, Err(e), 1, 78);
    let res = res.expect("sent at once");
    assert_eq!(log.get_str("action"), Some("no_such_action"));
    assert_eq!(log.get_bool("success"), Some(false));
    assert_eq!(log.get_str("error"), Some("sidecar 错误: 未知 action: no_such_action"));
    assert_eq!(res.get_str("error"), Some("sidecar 错误: 未知 action: no_such_action"));
    assert!(matches!(res.get("data"), Some(Json::Null)));
}

#[test]
fn frames_are_routed_by_kind() {
    assert_eq!(AgentLink::on_frame(&json("{\"kind\":\"ack\",\"eventId\":\"e\"}")), Route::Ack);
    assert_eq!(AgentLink::on_frame(&json("{\"kind\":\"pong\"}")), Route::Ignore);
    assert_eq!(AgentLink::on_frame(&json("{}")), Route::Ignore);
}

#[test]
fn test_outbox_replay_after_reconnect() {
    let mut outbox = Outbox::open(FileRead::Missing, 0).ok().unwrap();
    let mut link1 = AgentLink::new("ws://a".into());
    let event = json(
        "{\"kind\":\"event\",\"type\":\"message\",\"eventId\":\"evt-replay-1\",\
         \"data\":{\"chatName\":\"张三\",\"content\":\"断线测试\"},\"ts\":100}",
    );
    let out = link1.emit_event(&mut outbox, event, 100);
    assert!(out.append.is_some());
    assert!(out.send.is_some());
    link1.halt();
    assert_eq!(outbox.len(), 1, "未 ack 前应残留 1 条");

    let mut link2 = AgentLink::new("ws://b".into());
    let (mut g, _) = link2.on_connect();
    let frames = greet(&mut link2, &mut g, &outbox, Err(RpcError::Closed));
    assert_eq!(frames.len(), 2);
    assert_eq!(frames[0].get_str("kind"), Some("hello"));
    assert_eq!(frames[1].get_str("eventId"), Some("evt-replay-1"), "补发帧须携带原 eventId");

    let ack = |o: &mut Outbox, t: &str| AgentLink::on_ack(o, &json(t)).is_some();
    assert!(!ack(&mut outbox, "{\"kind\":\"ack\",\"eventId\":\"\"}"));
    assert!(!ack(&mut outbox, "{\"kind\":\"ack\"}"));
    assert!(!ack(&mut outbox, "{\"kind\":\"ack\",\"eventId\":\"other\"}"));
    assert!(ack(&mut outbox, "{\"kind\":\"ack\",\"eventId\":\"evt-replay-1\"}"));
    assert_eq!(outbox.len(), 0, "ack 后 outbox 应清空");
}

#[test]
fn event_behind_the_latch_is_kept_twice_over() {
    let mut outbox = Outbox::open(FileRead::Missing, 0).ok().unwrap();
    let mut link = AgentLink::new(String::new());
    let (mut g, _) = link.on_connect();
    let event = json("{\"type\":\"friend_request\",\"eventId\":\"f\"}");
    let out = link.emit_event(&mut outbox, event, 1);
    assert!(out.append.is_some() && out.send.is_none());
    let status = json("{\"type\":\"status\",\"eventId\":\"s\"}");
    let out = link.emit_event(&mut outbox, status, 1);
    assert!(out.append.is_none() && out.send.is_none());
    assert_eq!(greet(&mut link, &mut g, &outbox, Ok(Json::Null)).len(), 4);
}

#[test]
fn test_ws_connected_flag_and_disconnect_status() {
    let mut link = AgentLink::new(String::new());
    assert!(!link.ws_connected(), "连接前应为 false");
    link.on_connect();
    assert!(link.ws_connected());
    link.on_disconnect();
    assert!(!link.ws_connected(), "断开后 ws_connected 应为 false");
    assert!(!link.is_halted());
    let st = connection_status(&WxHealth::Unreachable, 2, &mut EventIds::new());
    assert_eq!(st.get_str("kind"), Some("event"));
    assert_eq!(st.get_str("type"), Some("status"));
    assert_eq!(data(&st).get_str("wxState"), Some("probe_timeout"));
    assert_eq!(data(&st).get_bool("wxOnline"), Some(false));
}

#[test]
fn test_halt_stops_run_and_pumps() {
    let mut link = AgentLink::new(String::new());
    link.on_connect();
    link.halt();
    assert!(!link.ws_connected(), "halt 后 ws_connected 应复位 false");
    assert!(link.is_halted());
    let mut h = Heartbeat::new();
    h.heartbeat_loop(HeartbeatEvent::Begin);
    assert!(matches!(h.heartbeat_loop(HeartbeatEvent::Halt), HeartbeatAction::Exit));
    assert!(matches!(h.heartbeat_loop(HeartbeatEvent::Begin), HeartbeatAction::Ignore));
    let mut p = FriendPoll::new();
    p.friend_poll_loop(FriendPollEvent::Begin);
    assert!(matches!(p.friend_poll_loop(FriendPollEvent::Halt), FriendPollAction::Exit));
    assert!(matches!(p.friend_poll_loop(FriendPollEvent::Begin), FriendPollAction::Ignore));
    assert!(matches!(notification_pump(PumpEvent::Halt), PumpAction::Exit));
}

fn beat(h: &mut Heartbeat, health: WxHealth, ts: u64) -> (Json, Option<&'static str>) {
    let go_on = HeartbeatEvent::Slept { halted: false };
    assert!(matches!(h.heartbeat_loop(HeartbeatEvent::Begin), HeartbeatAction::Sleep(1_000)));
    assert!(matches!(h.heartbeat_loop(go_on), HeartbeatAction::Sleep(29_000)));
    assert!(matches!(h.heartbeat_loop(go_on), HeartbeatAction::Probe));
    match h.heartbeat_loop(HeartbeatEvent::Probed { health, ts }) {
        HeartbeatAction::Beat(b) => (b.ping, b.alert.map(|a| a.0)),
        _ => panic!("expected a beat"),
    }
}

#[test]
fn heartbeat_alerts_on_change_only() {
    let mut h = Heartbeat::new();
    let (ping, alert) = beat(&mut h, WxHealth::Online, 5);
    assert_eq!(ping.get_str("kind"), Some("ping"));
    assert_eq!(ping.get_bool("wxOnline"), Some(true));
    assert_eq!(ping.get("ts").unwrap().as_u64(), Some(5));
    assert!(alert.is_some());
    assert!(beat(&mut h, WxHealth::Online, 6).1.is_none());
    let (ping, alert) = beat(&mut h, WxHealth::Unreachable, 7);
    assert_eq!(alert, Some("sidecar 无响应"));
    assert_eq!(ping.get_bool("wxOnline"), Some(false));
    assert_eq!(beat(&mut h, WxHealth::Offline, 8).1, Some("微信掉线"));
    h.heartbeat_loop(HeartbeatEvent::Begin);
    let halted = HeartbeatEvent::Slept { halted: true };
    assert!(matches!(h.heartbeat_loop(halted), HeartbeatAction::Exit));
}

fn look(p: &mut FriendPoll, answer: Result<Json, RpcError>) -> Vec<String> {
    match p.friend_poll_loop(FriendPollEvent::Begin) {
        FriendPollAction::Schedule(secs) => assert!((60..=300).contains(&secs)),
        _ => panic!("expected a schedule"),
    }
    let left = |ms: u64| FriendPollEvent::Left { ms, halted: false };
    assert!(matches!(p.friend_poll_loop(left(5_000)), FriendPollAction::Sleep(1_000)));
    assert!(matches!(p.friend_poll_loop(left(10)), FriendPollAction::Sleep(10)));
    assert!(matches!(p.friend_poll_loop(left(0)), FriendPollAction::Ask));
    match p.friend_poll_loop(FriendPollEvent::Answered(answer)) {
        FriendPollAction::Announce(names) => names,
        _ => panic!("expected names"),
    }
}

#[test]
fn friends_are_announced_once() {
    let mut p = FriendPoll::new();
    let answer = || {
        Ok(json(
            "{\"requests\":[{\"name\":\"a\"},{\"name\":\"\"},{\"x\":1},{\"name\":\"b\"},{\"name\":\"a\"}]}",
        ))
    };
    assert_eq!(look(&mut p, answer()), vec!["a".to_string(), "b".to_string()]);
    let event = announce_friend("a", &mut EventIds::new());
    assert_eq!(event.get_str("type"), Some("friend_request"));
    assert_eq!(data(&event).get_str("name"), Some("a"));
    assert!(look(&mut p, answer()).is_empty());
    assert!(look(&mut p, Err(RpcError::Timeout)).is_empty());
    assert!(look(&mut p, Ok(json("{\"requests\":3}"))).is_empty());
    assert!(look(&mut p, Ok(json("{}"))).is_empty());
    p.friend_poll_loop(FriendPollEvent::Begin);
    let halted = FriendPollEvent::Left { ms: 0, halted: true };
    assert!(matches!(p.friend_poll_loop(halted), FriendPollAction::Exit));
}

#[test]
fn friend_polls_are_a_minute_to_five_apart() {
    for _ in 0..200 {
        let g = friend_poll_gap();
        assert!((60..=300).contains(&g));
    }
    assert_eq!(friend_poll_gap_for(0), 60);
    assert_eq!(friend_poll_gap_for(240), 300);
}

#[test]
fn test_event_sink_receives_upstream_events_only() {
    let mut ids = EventIds::new();
    let event = message_event_from_notification(&json("{}"), None, None, &mut ids);
    assert_eq!(event.get_str("kind"), Some("event"));
    let status = connection_status(&WxHealth::Online, 1, &mut ids);
    assert_eq!(status.get_str("kind"), Some("event"));
    let hello = hello_frame(&Ok(Json::Null), "0", "", "", 0);
    assert_ne!(hello.get_str("kind"), Some("event"));
}
