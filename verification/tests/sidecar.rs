use wxauto_desktop::json::{parse_json, Json};
use wxauto_desktop::sidecar::protocol::{RpcError, RpcFrame};
use wxauto_desktop::sidecar::spec::{methods, InitResult, RawMessage};
use wxauto_desktop::sidecar::{LineAction, RpcCore, Waited, RPC_TIMEOUT};

fn json(text: &str) -> Json {
    parse_json(text).expect("JSON")
}

#[test]
fn test_method_constants() {
    assert_eq!(methods::INIT, "wx.init");
    assert_eq!(methods::ACTIVATE, "wx.activate");
    assert_eq!(methods::GET_MY_INFO, "wx.get_my_info");
    assert_eq!(methods::IS_ONLINE, "wx.is_online");
    assert_eq!(methods::MSG_SEND, "msg.send");
    assert_eq!(methods::FILE_SEND, "file.send");
    assert_eq!(methods::MSG_QUOTE, "msg.quote");
    assert_eq!(methods::MSG_FORWARD, "msg.forward");
    assert_eq!(methods::CHAT_OPEN, "chat.open");
    assert_eq!(methods::CHAT_SEARCH, "chat.search");
    assert_eq!(methods::CHAT_HISTORY, "chat.history");
    assert_eq!(methods::LISTEN_ADD, "listen.add");
    assert_eq!(methods::LISTEN_REMOVE, "listen.remove");
    assert_eq!(methods::LISTEN_LIST, "listen.list");
    assert_eq!(methods::FRIENDS_NEW_REQUESTS, "friends.new_requests");
    assert_eq!(methods::FRIEND_ACCEPT, "friend.accept");
    assert_eq!(methods::MOMENTS_GET, "moments.get");
    assert_eq!(methods::MOMENTS_PUBLISH, "moments.publish");
    assert_eq!(methods::MEDIA_DOWNLOAD, "media.download");
    assert_eq!(methods::VOICE_TO_TEXT, "voice.to_text");
    assert_eq!(methods::UTIL_SLEEP, "util.sleep");
}

#[test]
fn test_raw_message_serde_roundtrip() {
    let m = RawMessage {
        msg_id: "m1".into(),
        chat_who: "wxid_abc".into(),
        chat_type: "friend".into(),
        attr: "friend".into(),
        msg_type: "text".into(),
        sender: "wxid_abc".into(),
        content: "你好".into(),
    };
    let v = m.to_json();
    assert_eq!(v.get_str("msg_id"), Some("m1"));
    assert_eq!(v.get_str("chat_who"), Some("wxid_abc"));
    let back = RawMessage::from_json(&v).expect("反序列化失败");
    assert_eq!(back.content, "你好");
    assert!(RawMessage::from_json(&json("{\"msg_id\":\"m1\"}")).is_none());
}

#[test]
fn test_init_result_fail_reason_serde() {
    let v = InitResult::from_json(&json(
        r#"{"licensed": false, "wxid": "", "nickname": "", "failReason": "licensed"}"#,
    ))
    .expect("反序列化失败");
    assert_eq!(v.fail_reason.as_deref(), Some("licensed"));
    let old = InitResult::from_json(&json(r#"{"licensed": true, "wxid": "w", "nickname": "n"}"#))
        .expect("旧包反序列化失败");
    assert_eq!(old.fail_reason, None);
}

#[test]
fn init_result_refuses_what_does_not_fit() {
    assert!(InitResult::from_json(&json(r#"{"licensed": true, "wxid": "w"}"#)).is_none());
    assert!(InitResult::from_json(&json(
        r#"{"licensed": true, "wxid": "w", "nickname": "n", "failReason": 3}"#
    ))
    .is_none());
    let null = InitResult::from_json(&json(
        r#"{"licensed": true, "wxid": "w", "nickname": "n", "failReason": null}"#,
    ))
    .unwrap();
    assert_eq!(null.fail_reason, None);
    let written = null.to_json();
    assert_eq!(written.get_bool("licensed"), Some(true));
    assert!(matches!(written.get("failReason"), Some(Json::Null)));
}

#[test]
fn test_frame_decode_routing() {
    let resp = RpcFrame::from_json(&json(
        r#"{"jsonrpc":"2.0","id":1,"result":{"echo":"wx.init"}}"#,
    ))
    .expect("响应帧解析失败");
    match resp {
        RpcFrame::Response { id, result, error, .. } => {
            assert_eq!(id, 1);
            assert!(error.is_none());
            assert_eq!(result.expect("result 应存在").get_str("echo"), Some("wx.init"));
        }
        _ => panic!("应解析为 Response"),
    }

    let err = RpcFrame::from_json(&json(
        r#"{"jsonrpc":"2.0","id":2,"error":{"code":-32000,"message":"微信未登录"}}"#,
    ))
    .expect("错误帧解析失败");
    match err {
        RpcFrame::Response { id, error, .. } => {
            assert_eq!(id, 2);
            let e = error.expect("error 应存在");
            assert_eq!(e.code, -32000);
            assert_eq!(e.message, "微信未登录");
        }
        _ => panic!("应解析为 Response"),
    }

    let notify = RpcFrame::from_json(&json(
        r#"{"jsonrpc":"2.0","method":"message.received","params":{"text":"hi"}}"#,
    ))
    .expect("通知帧解析失败");
    match notify {
        RpcFrame::Notification { method, params, .. } => {
            assert_eq!(method, "message.received");
            assert_eq!(params.get_str("text"), Some("hi"));
        }
        _ => panic!("应解析为 Notification"),
    }
}

#[test]
fn frames_that_are_none() {
    for text in [
        "{}",
        "[1]",
        r#"{"jsonrpc":2,"id":1}"#,
        r#"{"jsonrpc":"2.0"}"#,
        r#"{"jsonrpc":"2.0","id":1,"error":"boom"}"#,
        r#"{"jsonrpc":"2.0","id":-1}"#,
    ] {
        assert!(RpcFrame::from_json(&json(text)).is_none(), "{text}");
    }
    assert!(matches!(
        RpcFrame::from_json(&json(r#"{"jsonrpc":"2.0","id":1,"method":"m"}"#)),
        Some(RpcFrame::Request { id: 1, .. })
    ));
    assert!(matches!(
        RpcFrame::from_json(&json(r#"{"jsonrpc":"2.0","id":1,"result":null,"error":null}"#)),
        Some(RpcFrame::Response { result: None, error: None, .. })
    ));
}

#[test]
fn errors_in_words() {
    assert_eq!(RpcError::Timeout.message(), "RPC 超时");
    assert_eq!(RpcError::Sidecar("x".into()).message(), "sidecar 错误: x");
    assert_eq!(RpcError::Io("y".into()).copy().message(), "IO 错误: y");
    assert_eq!(RpcError::Closed.message(), "sidecar 已退出");
    assert_eq!(RPC_TIMEOUT, 30_000);
}

#[test]
fn test_rpc_roundtrip_with_echo_sidecar() {
    let mut core = RpcCore::new();
    for (n, method, params) in [(1u64, "wx.init", "{}"), (2, "wx.get_my_info", "{\"foo\":1}")] {
        let q = core.begin_call(method, json(params)).ok().expect("open");
        assert_eq!(q.id, n);
        assert!(q.line.ends_with('\n'));
        let sent = json(q.line.trim_end());
        assert_eq!(sent.get_str("jsonrpc"), Some("2.0"));
        assert_eq!(sent.get_str("method"), Some(method));
        let answer = format!(
            "{{\"jsonrpc\":\"2.0\",\"id\":{},\"result\":{{\"echo\":\"{}\"}}}}\n",
            q.id, method
        );
        match core.on_line(&answer) {
            LineAction::Wake { id, result } => {
                assert_eq!(id, n);
                let (r, others) = core.finish_call(id, Waited::Answered(result));
                assert_eq!(r.ok().unwrap().get_str("echo"), Some(method));
                assert!(others.is_empty());
            }
            _ => panic!("expected to be woken"),
        }
        assert!(matches!(core.on_line(&answer), LineAction::Orphan(_)));
    }
}

#[test]
fn test_rpc_timeout() {
    let mut core = RpcCore::new();
    let q = core.begin_call("wx.init", Json::object()).ok().unwrap();
    let (r, others) = core.finish_call(q.id, Waited::Elapsed);
    assert!(matches!(r, Err(RpcError::Timeout)));
    assert!(others.is_empty());
    let late = "{\"jsonrpc\":\"2.0\",\"id\":1,\"result\":{}}";
    assert!(matches!(core.on_line(late), LineAction::Orphan(1)));
}

#[test]
fn test_notification_broadcast() {
    let mut core = RpcCore::new();
    let line = r#"{"jsonrpc":"2.0","method":"message.received","params":{"text":"hello"}}"#;
    match core.on_line(line) {
        LineAction::Notify(n) => {
            assert_eq!(n.get_str("method"), Some("message.received"));
            assert_eq!(n.get("params").unwrap().get_str("text"), Some("hello"));
        }
        _ => panic!("expected a notification"),
    }
}

#[test]
fn test_rpc_error_frame() {
    let mut core = RpcCore::new();
    let q = core.begin_call("wx.init", Json::object()).ok().unwrap();
    let line = format!(
        "{{\"jsonrpc\":\"2.0\",\"id\":{},\"error\":{{\"code\":-32000,\"message\":\"微信未登录\"}}}}",
        q.id
    );
    match core.on_line(&line) {
        LineAction::Wake { result: Err(RpcError::Sidecar(msg)), .. } => {
            assert!(msg.contains("微信未登录"));
            assert_eq!(msg, "[-32000] 微信未登录");
        }
        _ => panic!("应返回 Sidecar 错误"),
    }
}

#[test]
fn odd_lines_are_passed_over() {
    let mut core = RpcCore::new();
    assert!(matches!(core.on_line("   \r\n"), LineAction::Blank));
    assert!(matches!(core.on_line("not json"), LineAction::Unreadable));
    assert!(matches!(core.on_line("{\"jsonrpc\":\"2.0\"}"), LineAction::Unreadable));
    assert!(matches!(
        core.on_line("{\"jsonrpc\":\"2.0\",\"id\":1,\"method\":\"x\"}"),
        LineAction::Violation
    ));
    assert!(matches!(core.on_frame(None), LineAction::Unreadable));
}

#[test]
fn response_without_result_is_null() {
    let mut core = RpcCore::new();
    core.begin_call("m", Json::Null).ok().unwrap();
    match core.on_line("{\"jsonrpc\":\"2.0\",\"id\":1}") {
        LineAction::Wake { result: Ok(Json::Null), .. } => {}
        _ => panic!("expected null"),
    }
}

#[test]
fn end_of_output_fails_everybody() {
    let mut core = RpcCore::new();
    let a = core.begin_call("a", Json::Null).ok().unwrap().id;
    let b = core.begin_call("b", Json::Null).ok().unwrap().id;
    assert!(!core.is_closed());
    let mut woken = core.on_end();
    woken.sort();
    assert_eq!(woken, vec![a, b]);
    assert!(core.is_closed());
    assert!(matches!(core.begin_call("c", Json::Null), Err(RpcError::Closed)));
    assert!(core.on_end().is_empty());
}

#[test]
fn abandoned_call_fails_the_others() {
    let mut core = RpcCore::new();
    let a = core.begin_call("a", Json::Null).ok().unwrap().id;
    let b = core.begin_call("b", Json::Null).ok().unwrap().id;
    let (r, mut others) = core.finish_call(a, Waited::Abandoned);
    others.sort();
    assert!(matches!(r, Err(RpcError::Closed)));
    assert_eq!(others, vec![a, b]);
}

#[test]
fn failed_write_is_forgotten() {
    let mut core = RpcCore::new();
    let q = core.begin_call("a", Json::Null).ok().unwrap();
    assert_eq!(core.write_failed(q.id, "broken pipe").message(), "IO 错误: 写入 stdin 失败: broken pipe");
    assert!(matches!(
        core.on_line("{\"jsonrpc\":\"2.0\",\"id\":1,\"result\":1}"),
        LineAction::Orphan(1)
    ));
}
