use wxauto_desktop::json::{parse_json, Json};
use wxauto_desktop::sidecar::protocol::RpcError;
use wxauto_desktop::wx::listener::ListenerRegistry;
use wxauto_desktop::wx::{
    gap_bounds, gap_for, is_read_action, map_action, rand_gap, rand_gap_within, transform_params,
    ExecutionStep, WxHealth, WxSession, MAX_GAP, MIN_GAP, READ_RETRY_GAP,
};

fn json(text: &str) -> Json {
    parse_json(text).expect("JSON")
}

const ACTIONS: [(&str, &str); 16] = [
    ("send_message", "msg.send"),
    ("send_file", "file.send"),
    ("quote_reply", "msg.quote"),
    ("forward_message", "msg.forward"),
    ("get_my_info", "wx.get_my_info"),
    ("get_friend_requests", "friends.new_requests"),
    ("accept_friend", "friend.accept"),
    ("add_listen_chat", "listen.add"),
    ("remove_listen_chat", "listen.remove"),
    ("list_listen_chats", "listen.list"),
    ("search_chat", "chat.search"),
    ("get_chat_history", "chat.history"),
    ("get_moments", "moments.get"),
    ("publish_moment", "moments.publish"),
    ("download_media", "media.download"),
    ("voice_to_text", "voice.to_text"),
];

#[test]
fn test_map_action_all_16() {
    for (action, method) in ACTIONS {
        assert_eq!(map_action(action), Some(method), "action {action} 映射错误");
    }
    assert_eq!(map_action("chat_open"), None, "非 16 action 之一应返回 None");
    assert_eq!(map_action(""), None);
}

#[test]
fn test_all_16_actions_mapped() {
    let cases = [
        ("send_message", "msg.send", "{\"who\":\"a\",\"text\":\"t\"}"),
        ("send_file", "file.send", "{\"who\":\"a\",\"filepath\":\"C:/x.png\"}"),
        ("quote_reply", "msg.quote", "{\"who\":\"a\",\"quoteContent\":\"q\",\"text\":\"t\"}"),
        ("forward_message", "msg.forward", "{\"target\":\"a\",\"sourceWho\":\"b\",\"match\":\"m\"}"),
        ("get_my_info", "wx.get_my_info", "{}"),
        ("get_friend_requests", "friends.new_requests", "{}"),
        ("accept_friend", "friend.accept", "{\"nickname\":\"n\",\"remark\":\"r\"}"),
        ("add_listen_chat", "listen.add", "{\"nickname\":\"n\"}"),
        ("remove_listen_chat", "listen.remove", "{\"nickname\":\"n\"}"),
        ("list_listen_chats", "listen.list", "{}"),
        ("search_chat", "chat.search", "{\"keyword\":\"k\"}"),
        ("get_chat_history", "chat.history", "{\"who\":\"a\"}"),
        ("get_moments", "moments.get", "{}"),
        ("publish_moment", "moments.publish", "{\"text\":\"t\"}"),
        ("download_media", "media.download", "{\"msgId\":\"m1\"}"),
        ("voice_to_text", "voice.to_text", "{\"msgId\":\"m1\"}"),
    ];
    assert_eq!(cases.len(), 16, "映射用例应为 16 个");
    for (action, method, params) in cases {
        let x = WxSession::new().execute(action, json(params)).ok().expect(action);
        assert_eq!(x.method, method, "action {action} 映射错误");
    }
}

#[test]
fn test_action_mapping_and_serial() {
    let a = WxSession::new().execute("send_message", json("{\"who\":\"张三\",\"text\":\"a\"}"));
    let b = WxSession::new().execute("get_my_info", json("{}"));
    let c = WxSession::new().execute("get_moments", json("{\"count\":5}"));
    assert_eq!(a.ok().expect("send_message").method, "msg.send");
    assert_eq!(b.ok().expect("get_my_info").method, "wx.get_my_info");
    let c = c.ok().expect("get_moments");
    assert_eq!(c.method, "moments.get");
    assert_eq!(c.params.get("count").unwrap().as_u64(), Some(5));
}

#[test]
fn test_rand_gap_bounds() {
    for _ in 0..200 {
        let g = rand_gap();
        assert!(g >= MIN_GAP && g <= MAX_GAP, "gap 越界: {g}");
    }
}

#[test]
fn chance_has_its_say() {
    let first = rand_gap_within(0, u64::MAX);
    assert!((0..20).any(|_| rand_gap_within(0, u64::MAX) != first));
}

#[test]
fn pauses_follow_the_settings() {
    assert_eq!(gap_bounds(300, 800), (300, 800));
    assert_eq!(gap_bounds(900, 800), (500, 1000));
    assert_eq!(gap_bounds(7, 7), (7, 7));
    assert_eq!(rand_gap_within(42, 42), 42);
    assert_eq!(gap_for(500, 1000, 123), 623);
    assert_eq!((MIN_GAP, MAX_GAP, READ_RETRY_GAP), (500, 1000, 800));
}

#[test]
fn test_transform_params_defaults() {
    let h = transform_params("get_chat_history", json("{\"who\":\"张三\"}"));
    assert_eq!(h.get("n").unwrap().as_u64(), Some(20));
    let m = transform_params("get_moments", json("{}"));
    assert_eq!(m.get("count").unwrap().as_u64(), Some(10));
    let s = transform_params("send_message", json("{\"who\":\"a\",\"text\":\"t\"}"));
    assert_eq!(s.get_str("text"), Some("t"));
    let q = transform_params(
        "quote_reply",
        json("{\"who\":\"a\",\"quoteContent\":\"qc\",\"text\":\"t\"}"),
    );
    assert!(q.get("at").is_some(), "quote_reply 应补 at 字段（缺省 null）");
}

#[test]
fn params_are_adapted() {
    let f = transform_params("forward_message", json("{\"target\":\"a\",\"sourceWho\":\"b\",\"x\":1}"));
    assert_eq!(f.get_str("target"), Some("a"));
    assert_eq!(f.get_str("sourceWho"), Some("b"));
    assert!(matches!(f.get("match"), Some(Json::Null)));
    assert!(f.get("x").is_none());
    let d = transform_params("download_media", json("{\"msgId\":\"m\",\"y\":2}"));
    assert_eq!(d.get_str("msgId"), Some("m"));
    assert!(d.get("y").is_none());
    let n = transform_params("get_chat_history", json("{\"who\":\"a\",\"n\":5}"));
    assert_eq!(n.get("n").unwrap().as_u64(), Some(5));
    let q = transform_params("quote_reply", Json::Null);
    assert!(matches!(q.get("who"), Some(Json::Null)));
}

#[test]
fn test_humanization_gap_enforced() {
    let session = WxSession::new();
    let total: u64 = (0..3).map(|_| session.pause()).sum();
    assert!(total >= 1500, "3 条串行操作总时长应 ≥1.5s（拟人间隙），实际 {total}");
    assert_eq!(WxSession::with_gaps(7, 7).pause(), 7);
    assert!(WxSession::with_gaps(9, 3).pause() >= 500);
}

#[test]
fn test_unknown_action_rejected() {
    match WxSession::new().execute("no_such_action", json("{}")) {
        Err(e) => {
            let msg = e.message();
            assert!(msg.contains("no_such_action"), "错误信息应含 action 名: {msg}");
            assert_eq!(msg, "sidecar 错误: 未知 action: no_such_action");
        }
        Ok(_) => panic!("未知 action 应报错"),
    }
}

#[test]
fn read_action_timeout_retries_once_and_succeeds() {
    let mut x = WxSession::new().execute("get_my_info", json("{}")).ok().unwrap();
    assert!(x.after_call(&Err(RpcError::Timeout)) == ExecutionStep::Retry);
    assert!(x.after_call(&Ok(json("{\"nth\":2}"))) == ExecutionStep::Rest);
}

#[test]
fn write_action_timeout_no_retry() {
    let mut x = WxSession::new().execute("send_message", json("{\"who\":\"a\",\"text\":\"t\"}")).ok().unwrap();
    assert!(x.after_call(&Err(RpcError::Timeout)) == ExecutionStep::Fail);
}

#[test]
fn read_action_retry_exhausted_returns_err() {
    let mut x = WxSession::new().execute("get_moments", json("{}")).ok().unwrap();
    assert!(x.after_call(&Err(RpcError::Timeout)) == ExecutionStep::Retry);
    assert!(x.after_call(&Err(RpcError::Timeout)) == ExecutionStep::Fail);
}

#[test]
fn fast_path_single_call_no_retry() {
    let mut x = WxSession::new().execute("get_my_info", json("{}")).ok().unwrap();
    assert!(x.after_call(&Ok(json("{\"nth\":1}"))) == ExecutionStep::Rest);
    assert!(x.after_call(&Err(RpcError::Closed)) == ExecutionStep::Fail);
}

#[test]
fn eight_actions_read() {
    let reads = [
        "get_my_info",
        "get_friend_requests",
        "list_listen_chats",
        "search_chat",
        "get_chat_history",
        "get_moments",
        "download_media",
        "voice_to_text",
    ];
    for (action, _) in ACTIONS {
        assert_eq!(is_read_action(action), reads.contains(&action), "{action}");
    }
    assert!(!is_read_action("no_such_action"));
}

#[test]
fn test_probe_health_reads_online_payload_false() {
    assert_eq!(WxSession::probe_health(&Ok(json("{\"online\":false}"))), WxHealth::Offline);
    assert!(!WxSession::health_probe(&Ok(json("{\"online\":false}"))));
}

#[test]
fn test_probe_health_reads_online_payload_true() {
    assert_eq!(WxSession::probe_health(&Ok(json("{\"online\":true}"))), WxHealth::Online);
    assert!(WxSession::health_probe(&Ok(json("{\"online\":true}"))));
}

#[test]
fn test_probe_health_silent_sidecar_is_unreachable() {
    assert_eq!(WxSession::probe_health(&Err(RpcError::Timeout)), WxHealth::Unreachable);
    assert_eq!(WxSession::probe_health(&Err(RpcError::Closed)), WxHealth::Unreachable);
    assert_eq!(WxSession::probe_health(&Err(RpcError::Io("x".into()))), WxHealth::Unreachable);
}

#[test]
fn probe_that_is_answered_is_reachable() {
    assert_eq!(WxSession::probe_health(&Err(RpcError::Sidecar("x".into()))), WxHealth::Offline);
    assert_eq!(WxSession::probe_health(&Ok(Json::Null)), WxHealth::Offline);
    assert_eq!(WxHealth::Online.as_str(), "online");
    assert_eq!(WxHealth::Offline.as_str(), "offline");
    assert_eq!(WxHealth::Unreachable.as_str(), "probe_timeout");
    assert!(WxHealth::Online.is_online() && !WxHealth::Unreachable.is_online());
}

fn agreed() -> Result<Json, RpcError> {
    Ok(json("{\"ok\":true}"))
}

#[test]
fn test_listener_registry_add_list_remove() {
    let mut reg = ListenerRegistry::new();
    reg.add("客户群".into(), &agreed()).expect("add 应成功");
    reg.add("张三".into(), &agreed()).expect("add 应成功");
    assert_eq!(reg.list(), vec!["客户群".to_string(), "张三".to_string()]);
    reg.remove("张三", &agreed()).expect("remove 应成功");
    assert_eq!(reg.list(), vec!["客户群".to_string()]);
}

#[test]
fn test_listener_registry_resync() {
    let mut reg = ListenerRegistry::new();
    reg.add("客户群".into(), &agreed()).expect("add 应成功");
    reg.add("张三".into(), &agreed()).expect("add 应成功");
    let failed = ListenerRegistry::resync(&reg.list(), &vec![true, true]);
    assert!(failed.is_empty());
    assert_eq!(reg.list(), vec!["客户群".to_string(), "张三".to_string()]);
    assert_eq!(ListenerRegistry::resync(&reg.list(), &vec![false, true]), vec!["客户群".to_string()]);
}

#[test]
fn test_seed_restores_names() {
    let reg = ListenerRegistry::new_seeded(vec!["客户群".into(), "张三".into()]);
    assert_eq!(reg.list(), vec!["客户群".to_string(), "张三".to_string()]);
    let again = ListenerRegistry::new_seeded(vec!["b".into(), "a".into(), "b".into()]);
    assert_eq!(again.list(), vec!["a".to_string(), "b".to_string()]);
}

#[test]
fn refusal_leaves_the_list_alone() {
    let mut reg = ListenerRegistry::new_seeded(vec!["a".into()]);
    let e = reg.add("b".into(), &Err(RpcError::Timeout)).unwrap_err();
    assert_eq!(e, "RPC 超时");
    assert_eq!(reg.remove("a", &Err(RpcError::Closed)).unwrap_err(), "sidecar 已退出");
    assert_eq!(reg.list(), vec!["a".to_string()]);
    assert_eq!(reg.add("a".into(), &agreed()).unwrap(), vec!["a".to_string()]);
    assert_eq!(
        ListenerRegistry::action_params("n").get_str("nickname"),
        Some("n")
    );
}
