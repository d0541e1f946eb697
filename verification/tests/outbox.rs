use wxauto_desktop::files::FileRead;
use wxauto_desktop::json::{parse_json, write_json, Json};
use wxauto_desktop::outbox::{Outbox, EXPIRY_MS, EXPIRY_SECS, MAX_ENTRIES};

const NOW: u64 = 1_700_000_000_000;

fn msg_frame(id: &str) -> Json {
    Json::object()
        .put("kind", Json::text("event"))
        .put("type", Json::text("message"))
        .put("eventId", Json::text(id))
        .put(
            "data",
            Json::object().put("chatName", Json::text("张三")).put("content", Json::text("hi")),
        )
        .put("ts", Json::Uint(100))
}

fn empty() -> Outbox {
    Outbox::open(FileRead::Missing, NOW).ok().expect("open")
}

fn ids(ob: &Outbox) -> Vec<String> {
    ob.pending().iter().map(|f| f.get_str("eventId").unwrap_or("").to_string()).collect()
}

#[test]
fn test_enqueue_ack_roundtrip() {
    let mut ob = empty();
    assert_eq!(ob.len(), 0);
    assert!(ob.enqueue(&msg_frame("e1"), NOW).is_some());
    assert!(ob.enqueue(&msg_frame("e2"), NOW).is_some());
    assert_eq!(ob.len(), 2);
    assert_eq!(ids(&ob), vec!["e1", "e2"]);
    assert!(ob.ack("e1").is_some());
    assert_eq!(ob.len(), 1);
    assert_eq!(ids(&ob), vec!["e2"]);
    assert!(ob.ack("ghost").is_none());
}

#[test]
fn test_reopen_restores_pending() {
    let mut file = String::new();
    {
        let mut ob = empty();
        file.push_str(&ob.enqueue(&msg_frame("r1"), NOW).unwrap());
        file.push_str(&ob.enqueue(&msg_frame("r2"), NOW).unwrap());
    }
    let mut ob2 = Outbox::open(FileRead::Text(file), NOW + 1000).ok().expect("reopen");
    assert_eq!(ob2.len(), 2);
    let rewritten = ob2.ack("r1").expect("r1");
    assert_eq!(ob2.len(), 1);
    assert_eq!(ids(&ob2), vec!["r2"]);
    let ob3 = Outbox::open(FileRead::Text(rewritten), NOW + 2000).ok().expect("reopen");
    assert_eq!(ids(&ob3), vec!["r2"]);
}

#[test]
fn test_capacity_evicts_oldest() {
    let mut ob = empty();
    let mut file = String::new();
    for i in 0..(MAX_ENTRIES + 10) {
        file.push_str(&ob.enqueue(&msg_frame(&format!("e{i}")), NOW).unwrap());
    }
    assert_eq!(ob.len(), MAX_ENTRIES);
    assert_eq!(ids(&ob)[0], "e10");
    let again = Outbox::open(FileRead::Text(file), NOW).ok().unwrap();
    assert_eq!(ids(&again), ids(&ob));
}

#[test]
fn test_expiry_trims_on_open() {
    let old_ms: u64 = 1_000;
    let line = format!(
        "{{\"event_id\":\"old1\",\"ts\":{},\"frame\":{}}}\n",
        old_ms,
        write_json(&msg_frame("old1"))
    );
    let ob = Outbox::open(FileRead::Text(line.clone()), NOW).ok().expect("open");
    assert_eq!(ob.len(), 0);
    assert!(EXPIRY_SECS >= 7 * 24 * 3600);
    assert_eq!(EXPIRY_MS, EXPIRY_SECS * 1000);
    let just_kept = Outbox::open(FileRead::Text(line.clone()), old_ms + EXPIRY_MS - 1).ok().unwrap();
    assert_eq!(just_kept.len(), 1);
    let just_gone = Outbox::open(FileRead::Text(line.clone()), old_ms + EXPIRY_MS).ok().unwrap();
    assert_eq!(just_gone.len(), 0);
    let clock_behind = Outbox::open(FileRead::Text(line), 0).ok().unwrap();
    assert_eq!(clock_behind.len(), 1);
}

#[test]
fn test_corrupt_line_tolerated() {
    let text = "not json\n{\"eventId\":\"x\"}\n";
    let ob = Outbox::open(FileRead::Text(text.to_string()), NOW).ok().expect("open 应容忍坏行");
    assert_eq!(ob.len(), 0);
    let good = "bad\n\n  \r\n{\"event_id\":\"g\",\"ts\":1,\"frame\":null}\r\n{\"event_id\":1}";
    let ob = Outbox::open(FileRead::Text(good.to_string()), 2).ok().unwrap();
    assert_eq!(ob.len(), 1);
}

#[test]
fn test_disabled_noop() {
    let mut ob = Outbox::disabled();
    assert_eq!(ob.len(), 0);
    assert!(ob.pending().is_empty());
    assert!(ob.ack("any").is_none());
    assert!(ob.enqueue(&msg_frame("d1"), NOW).is_none());
    assert_eq!(ob.len(), 0);
}

#[test]
fn test_filters_non_outbox_frames() {
    let mut ob = empty();
    let status = parse_json(
        "{\"kind\":\"event\",\"type\":\"status\",\"eventId\":\"s1\",\"data\":{},\"ts\":1}",
    )
    .unwrap();
    let no_id =
        parse_json("{\"kind\":\"event\",\"type\":\"message\",\"data\":{},\"ts\":1}").unwrap();
    assert!(ob.enqueue(&status, NOW).is_none());
    assert!(ob.enqueue(&no_id, NOW).is_none());
    assert_eq!(ob.len(), 0);
    let friend =
        parse_json("{\"type\":\"friend_request\",\"eventId\":\"f1\"}").unwrap();
    assert!(ob.enqueue(&friend, NOW).is_some());
}

#[test]
fn unreadable_file_is_an_error() {
    let e = Outbox::open(FileRead::Failed("denied".into()), NOW).err().unwrap();
    assert_eq!(e, "outbox 读取失败: denied");
}

#[test]
fn line_on_disk() {
    let mut ob = empty();
    let line = ob
        .enqueue(&parse_json("{\"type\":\"message\",\"eventId\":\"a\\nb\"}").unwrap(), 5)
        .unwrap();
    assert_eq!(
        line,
        "{\"event_id\":\"a\\nb\",\"ts\":5,\"frame\":{\"type\":\"message\",\"eventId\":\"a\\nb\"}}\n"
    );
    assert!(ob.ack("a\nb").unwrap().is_empty());
}

#[test]
fn same_event_twice_is_struck_at_once() {
    let mut ob = empty();
    ob.enqueue(&msg_frame("x"), NOW);
    ob.enqueue(&msg_frame("y"), NOW);
    ob.enqueue(&msg_frame("x"), NOW);
    assert!(ob.ack("x").is_some());
    assert_eq!(ids(&ob), vec!["y"]);
    assert!(ob.ack("x").is_none());
}

#[test]
fn events_stay_until_their_own_ack() {
    let mut o = Outbox::open(FileRead::Missing, 0).ok().unwrap();
    for id in ["a", "b", "c"] {
        let text = format!("{{\"type\":\"message\",\"eventId\":\"{id}\"}}");
        assert!(o.enqueue(&parse_json(&text).unwrap(), 1).is_some());
    }
    assert!(o.ack("b").is_some());
    assert!(o.ack("b").is_none());
    let ids: Vec<String> =
        o.pending().iter().map(|f| f.get_str("eventId").unwrap().to_string()).collect();
    assert_eq!(ids, vec!["a".to_string(), "c".to_string()]);
}

#[test]
fn a_run_is_restored_from_its_file() {
    let mut file = String::new();
    let mut o = Outbox::open(FileRead::Missing, 10).ok().unwrap();
    for i in 0..5u64 {
        file.push_str(&o.enqueue(&msg_frame(&format!("e{i}")), 10 + i).unwrap());
        if i == 3 {
            file = o.ack("e1").unwrap();
        }
    }
    let again = Outbox::open(FileRead::Text(file), 20).ok().unwrap();
    assert_eq!(ids(&again), ids(&o));
    assert_eq!(again.len(), 4);
}

#[test]
fn entry_may_be_an_array_of_its_values() {
    let text = "[\"a\",5,{\"eventId\":\"a\"}]\n[\"b\",5]\n";
    let o = Outbox::open(FileRead::Text(text.into()), 6).ok().unwrap();
    assert_eq!(ids(&o), vec!["a".to_string()]);
}

#[test]
fn events_outlast_any_number_of_other_acks() {
    let mut o = empty();
    o.enqueue(&msg_frame("e"), NOW);
    for i in 0..500u64 {
        let id = format!("x{i}");
        o.enqueue(&msg_frame(&id), NOW);
        o.ack(&id);
    }
    for _ in 0..2_500u64 {
        assert!(o.ack("nobody").is_none());
    }
    assert_eq!(ids(&o), vec!["e".to_string()]);
}
