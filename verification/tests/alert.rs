use wxauto_desktop::alert::{
    apply_placeholders, hostname, judge_answer, mask_webhook_url, mask_with, payload_for,
    render_payload, AlertClient, AlertOutcome,
};
use wxauto_desktop::json::{parse_json, write_json, Json};

fn json(text: &str) -> Json {
    parse_json(text).expect("JSON")
}

#[test]
fn test_render_payload_feishu_template() {
    let tpl = r#"{"msg_type":"text","content":{"text":"【{title}】{device}\n{detail}@{ts}"}}"#;
    let v = render_payload(tpl, "微信掉线", "设备掉线", 1700000000, "wx-rig-01");
    assert_eq!(v.get_str("msg_type"), Some("text"));
    let text = v.get("content").unwrap().get_str("text").unwrap();
    assert_eq!(text, "【微信掉线】wx-rig-01\n设备掉线@1700000000");
    assert!(text.contains("1700000000"), "ts 占位符必须被替换");
}

#[test]
fn test_render_payload_traceback_detail_does_not_break_json() {
    let tpl = r#"{"text":"{detail}"}"#;
    let detail = "Traceback (most recent call last):\n  File \"x.py\", line 1\nRuntimeError: 'boom'";
    let v = render_payload(tpl, "sidecar 崩溃", detail, 1, "dev-1");
    let s = write_json(&v);
    assert!(s.contains("Traceback (most recent call last):"));
    let back = parse_json(&s).expect("往返解析失败");
    assert_eq!(back.get_str("text"), Some(detail));
}

#[test]
fn test_render_payload_invalid_template_falls_back_to_generic() {
    let v = render_payload("not a {json", "t", "d", 42, "dev");
    assert_eq!(v.get_str("title"), Some("t"));
    assert_eq!(v.get_str("detail"), Some("d"));
    assert_eq!(v.get("ts").unwrap().as_u64(), Some(42));
    assert_eq!(v.get_str("device"), Some("dev"));
}

#[test]
fn test_apply_placeholders_nested_and_array() {
    let mut v = json("{\"rows\":[\"{title}\",{\"inner\":\"{device}\"}],\"n\":5}");
    apply_placeholders(&mut v, "T", "D", 9, "DEV");
    let rows = v.get("rows").unwrap().as_array().unwrap();
    assert_eq!(rows[0].as_str(), Some("T"));
    assert_eq!(rows[1].get_str("inner"), Some("DEV"));
    assert_eq!(v.get("n").unwrap().as_u64(), Some(5), "数字不受影响");
}

#[test]
fn test_apply_placeholders_leaves_plain_strings() {
    let mut v = json("{\"msg_type\":\"text\"}");
    apply_placeholders(&mut v, "T", "D", 9, "DEV");
    assert_eq!(v.get_str("msg_type"), Some("text"));
}

#[test]
fn names_of_members_are_not_filled_in() {
    let mut v = json("{\"{title}\":\"{title} {ts}\",\"f\":1.5,\"z\":null,\"b\":true,\"i\":-1}");
    apply_placeholders(&mut v, "T", "D", 9, "DEV");
    assert_eq!(v.get_str("{title}"), Some("T 9"));
    assert_eq!(write_json(&v), "{\"{title}\":\"T 9\",\"f\":1.5,\"z\":null,\"b\":true,\"i\":-1}");
}

#[test]
fn what_is_filled_in_may_hold_a_placeholder() {
    let v = render_payload("{\"x\":\"{title}\"}", "{detail}", "D", 1, "d");
    assert_eq!(v.get_str("x"), Some("D"));
}

#[test]
fn test_send_noop_on_empty_url() {
    let c = AlertClient::new(String::new(), String::new(), "dev".into());
    assert!(c.send("t", "d", 1).is_none());
    let blank = AlertClient::new("  ".into(), String::new(), "dev".into());
    assert!(blank.send("t", "d", 1).is_none());
}

#[test]
fn test_send_posts_rendered_payload_to_url() {
    let tpl = r#"{"msg_type":"text","content":{"text":"{title} @ {device}"}}"#.to_string();
    let client = AlertClient::new("http://x/hook".into(), tpl, "dev-1".into());
    let post = client.send("微信掉线", "心跳探测失败", 5).expect("告警未发出");
    assert_eq!(post.url, "http://x/hook");
    let v = parse_json(&post.body).expect("body 应为合法 JSON");
    assert_eq!(v.get("content").unwrap().get_str("text"), Some("微信掉线 @ dev-1"));
}

#[test]
fn test_send_app_level_rejection_only_warns() {
    let client = AlertClient::new("http://x/hook".into(), String::new(), "dev-1".into());
    let post = client.send("sidecar 终态", "重启 5 次仍失败", 5).expect("告警未发出");
    assert!(post.body.contains("sidecar 终态"), "通用 JSON 降级也应携带 title");
    assert_eq!(
        AlertClient::do_send(true, "{\"code\": 19021, \"msg\": \"sign error\"}"),
        AlertOutcome::AppRejected(19021)
    );
}

#[test]
fn answers_are_judged() {
    assert_eq!(AlertClient::do_send(true, "{\"code\":0}"), AlertOutcome::Delivered);
    assert_eq!(AlertClient::do_send(true, "ok"), AlertOutcome::Delivered);
    assert_eq!(AlertClient::do_send(true, "{\"code\":\"1\"}"), AlertOutcome::Delivered);
    assert_eq!(AlertClient::do_send(true, "{}"), AlertOutcome::Delivered);
    assert_eq!(AlertClient::do_send(false, "{\"code\":0}"), AlertOutcome::HttpRejected);
    assert_eq!(judge_answer(true, None), AlertOutcome::Delivered);
    assert_eq!(judge_answer(true, Some(json("{\"code\":-1}"))), AlertOutcome::AppRejected(-1));
}

#[test]
fn test_mask_webhook_url() {
    let m = mask_webhook_url("https://open.feishu.cn/open-apis/bot/v2/hook/abcdef123456");
    assert!(m.starts_with("https://open.feishu.cn..."));
    assert!(m.ends_with("3456"));
    assert!(!m.contains("abcdef12"), "中段凭证不得泄露");
    assert_eq!(mask_webhook_url("not a url"), "<invalid-url>");
    assert_eq!(m, "https://open.feishu.cn...3456");
}

#[test]
fn masks_of_given_parts() {
    assert_eq!(mask_with("abcdef", Some(("s".into(), Some("h".into())))), "s://h...cdef");
    assert_eq!(mask_with("ab", Some(("s".into(), None))), "s://?...ab");
    assert_eq!(mask_with("ab", None), "<invalid-url>");
    assert_eq!(mask_webhook_url("mailto:someone"), "mailto://?...eone");
    let c = AlertClient::new("https://h/abcd".into(), String::new(), String::new());
    assert_eq!(c.masked_url(), "https://h...abcd");
}

#[test]
fn test_render_payload_non_object_template_falls_back() {
    let v = render_payload("[\"{title}\"]", "t", "d", 1, "dev");
    assert_eq!(v.get_str("title"), Some("t"));
    assert_eq!(v.get_str("detail"), Some("d"));
    let v = payload_for(Some(Json::Uint(3)), "t", "d", 1, "dev");
    assert_eq!(v.get_str("title"), Some("t"));
    let v = payload_for(Some(json("{\"a\":\"{title}\"}")), "t", "d", 1, "dev");
    assert_eq!(v.get_str("a"), Some("t"));
    assert!(v.get("title").is_none());
}

#[test]
fn machine_has_the_first_name_that_is_set() {
    assert_eq!(hostname(Some("a".into()), Some("b".into())), "a");
    assert_eq!(hostname(None, Some("b".into())), "b");
    assert_eq!(hostname(None, None), "");
}
