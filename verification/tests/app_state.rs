use wxauto_desktop::agent_link::inbound::EventIds;
use wxauto_desktop::app_state::{
    assemble_into, build_url, config_to_json, extract_settings_patch, load_for_assembly,
    save_listen_names, state_alert, token_to_store, with_ws_connected_from_slot, AppStateCtx,
    Assembled, AssemblyAction, AssemblyEvent, LinkSlot, StoredToken,
};
use wxauto_desktop::commands::{
    activate_license, activation_params, get_app_state, get_init_fail_reason, get_recent_logs,
    manual_execute,
};
use wxauto_desktop::config::{config_text, load_config, Config};
use wxauto_desktop::files::FileRead;
use wxauto_desktop::json::{parse_json, Json};
use wxauto_desktop::sidecar::protocol::RpcError;
use wxauto_desktop::state::{AppState, InitFail};
use wxauto_desktop::ui_events::{
    app_state_name, with_ws_connected, UiEventBridge, EVENT_APP_LOG, EVENT_COMMAND_LOG,
    EVENT_MESSAGE, EVENT_STATE, EVENT_STATUS,
};
use wxauto_desktop::ui_log::{AppLogEntry, AppLogLevel, AppLogSource, LogRing};
use wxauto_desktop::wx::listener::ListenerRegistry;
use wxauto_desktop::wx::WxHealth;

fn json(text: &str) -> Json {
    parse_json(text).expect("JSON")
}

fn assembled(cfg: Config) -> Assembled {
    assemble_into(cfg, Ok(()), FileRead::Missing, "host".into(), 0).ok().expect("assemble")
}

fn bridge() -> UiEventBridge {
    let mut b = UiEventBridge::new();
    b.attach();
    b
}

#[test]
fn test_extract_settings_patch_fields() {
    let p = extract_settings_patch(&json(
        "{\"serverUrl\":\"ws://x:1\",\"channelId\":\"ch1\",\"autoConnect\":true,\
         \"token\":\"secret\",\"多余字段\":\"忽略\"}",
    ));
    assert_eq!(p.server_url, "ws://x:1");
    assert_eq!(p.channel_id, "ch1");
    assert!(p.auto_connect);

    let empty = extract_settings_patch(&json("{}"));
    assert_eq!(empty.server_url, "");
    assert!(!empty.auto_connect);

    let patch3 = extract_settings_patch(&json(
        "{\"serverUrl\":\"s\",\"channelId\":\"c\",\"autoConnect\":true,\
         \"webhookUrl\":\"https://open.feishu.cn/hook/x\",\
         \"webhookTemplate\":\"{\\\"text\\\":\\\"{title}\\\"}\"}",
    ));
    assert_eq!(patch3.webhook_url, "https://open.feishu.cn/hook/x");
    assert_eq!(patch3.webhook_template, "{\"text\":\"{title}\"}");
    let patch4 = extract_settings_patch(&json("{\"serverUrl\":\"s\",\"channelId\":\"c\"}"));
    assert_eq!(patch4.webhook_url, "");
}

#[test]
fn test_config_to_json_camel_case() {
    let v = config_to_json(&Config::default());
    assert!(v.get_str("serverUrl").is_some());
    assert!(v.get_str("channelId").is_some());
    assert!(v.get_bool("autoConnect").is_some());
    assert!(v.get("listenNames").unwrap().as_array().is_some(), "listenNames 保留透出");
}

#[test]
fn test_with_ws_connected_from_slot() {
    let status = json(
        "{\"kind\":\"event\",\"type\":\"status\",\
         \"data\":{\"wxOnline\":true,\"listeners\":1,\"sidecarAlive\":true}}",
    );
    let out = with_ws_connected_from_slot(&status, None);
    assert_eq!(out.get_bool("wsConnected"), Some(false), "未连接时应显式 false");
    let on = with_ws_connected_from_slot(&status, Some(true));
    assert_eq!(on.get_bool("wsConnected"), Some(true));
    let msg = json("{\"kind\":\"event\",\"type\":\"message\",\"data\":{}}");
    let out2 = with_ws_connected_from_slot(&msg, None);
    assert!(out2.get("wsConnected").is_none(), "非 status 帧不应注入字段");
}

#[test]
fn test_concurrent_start_link_no_orphan() {
    let mut slot = LinkSlot::new();
    let a = slot.start_link();
    let b = slot.start_link();
    assert_eq!(a.halt, None);
    assert_eq!(b.halt, Some(a.run));
    assert_ne!(a.run, b.run);
    assert!(slot.is_running());
    assert_eq!(slot.stop_link(), Ok(b.run));
    assert!(!slot.is_running(), "disconnect 后槽应清空（孤儿 link 不残留）");
}

#[test]
fn test_reload_link_if_running_rebuilds_with_new_url() {
    let mut a = assembled(Config::default());
    let first = a.start_link(None, None, StoredToken::Unavailable);
    assert_eq!(first.halt, None);
    assert_eq!(first.link.url(), "ws://127.0.0.1:60021");
    a.config.server_url = "ws://new:2".into();
    let again = a
        .reload_link_if_running(None, Some("t".into()), StoredToken::Unavailable)
        .expect("link 运行中应触发重建");
    assert_eq!(again.halt, Some(first.number));
    assert_eq!(again.link.url(), "ws://new:2/?token=t");
    a.stop_link(&Ok(Json::Null), &mut EventIds::new()).expect("disconnect 应成功");
    assert!(
        a.reload_link_if_running(None, None, StoredToken::Unavailable).is_none(),
        "未连接时不应触发重建"
    );
    let mut slot = LinkSlot::new();
    assert!(slot.reload_link_if_running().is_none());
    slot.start_link();
    assert_eq!(slot.reload_link_if_running().unwrap().halt, Some(0));
}

#[test]
fn test_stop_link_emits_ws_disconnected_status() {
    let mut a = assembled(Config::default());
    let mut ids = EventIds::new();
    let probe = Ok(json("{\"online\":true}"));
    assert_eq!(a.stop_link(&probe, &mut ids).err().unwrap(), "当前未连接");
    let plan = a.start_link(None, None, StoredToken::Unavailable);
    let (halt, status) = a.stop_link(&probe, &mut ids).ok().expect("disconnect 应成功");
    assert_eq!(halt, plan.number);
    assert!(!a.link.is_running(), "断开后槽应清空");
    let e = bridge().forward_event_frame(&status).unwrap();
    assert_eq!(e.name, EVENT_STATUS);
    assert_eq!(e.payload.get_bool("wsConnected"), Some(false));
    assert_eq!(e.payload.get_bool("wxOnline"), Some(true));
}

#[test]
fn address_to_connect_to() {
    let cfg = Config::default();
    let found = |t: &str| StoredToken::Found(t.to_string());
    assert_eq!(build_url(None, &cfg, None, found("k")), "ws://127.0.0.1:60021/?token=k");
    assert_eq!(
        build_url(Some("ws://e".into()), &cfg, Some("t".into()), found("k")),
        "ws://e/?token=t"
    );
    assert_eq!(build_url(None, &cfg, None, found("")), "ws://127.0.0.1:60021");
    assert_eq!(build_url(None, &cfg, None, StoredToken::Unavailable), "ws://127.0.0.1:60021");
}

fn patch(server: &str, channel: &str) -> wxauto_desktop::app_state::SettingsPatch {
    extract_settings_patch(
        &Json::object().put("serverUrl", Json::text(server)).put("channelId", Json::text(channel)),
    )
}

#[test]
fn test_save_settings_preserves_listen_names() {
    let mut cfg = Config::default();
    cfg.listen_names = vec!["张三".into()];
    let mut a = assembled(cfg);
    let text = a.save_settings(patch("ws://new:1", "ch9"), Ok(())).expect("save");
    assert!(a.settings_saved(Ok(()), "host".into()).is_ok());
    let final_cfg = load_config(FileRead::Text(text)).expect("load final");
    assert_eq!(final_cfg.listen_names, vec!["张三".to_string()]);
    assert_eq!(final_cfg.server_url, "ws://new:1");
    assert_eq!(final_cfg.delay_min_ms, 500);
    assert!(a.alert.send("t", "d", 1).is_none());
}

#[test]
fn alerts_go_where_the_settings_say() {
    let mut a = assembled(Config::default());
    let p = extract_settings_patch(&json("{\"webhookUrl\":\"http://new\"}"));
    a.save_settings(p, Ok(())).expect("save");
    assert_eq!(a.settings_saved(Err("disk".into()), "pc".into()), Err("disk".to_string()));
    assert!(a.alert.send("t", "d", 1).is_none());
    a.settings_saved(Ok(()), "pc".into()).expect("saved");
    let post = a.alert.send("t", "d", 1).expect("post");
    assert_eq!(post.url, "http://new");
    assert!(post.body.contains("pc"));
}

#[test]
fn test_hook_and_save_settings_share_lock() {
    let mut cfg = Config::default();
    cfg.listen_names = vec!["张三".into()];
    let mut a = assembled(cfg);
    let names = a.listeners.add("李四".into(), &Ok(Json::Null)).expect("add 应成功");
    save_listen_names(&mut a.config, names);
    let text = a.save_settings(patch("ws://new:2", "ch10"), Ok(())).expect("save");
    let final_cfg = load_config(FileRead::Text(text)).expect("load final");
    assert_eq!(final_cfg.listen_names, vec!["张三".to_string(), "李四".to_string()]);
    assert_eq!(final_cfg.server_url, "ws://new:2");
    assert_eq!(final_cfg.channel_id, "ch10");
}

#[test]
fn test_add_remove_persisted_to_config() {
    let mut cfg = Config::default();
    let mut reg = ListenerRegistry::new_seeded(vec!["张三".into()]);
    let names = reg.add("李四".into(), &Ok(Json::Null)).expect("add 应成功");
    let text = save_listen_names(&mut cfg, names);
    let names = load_config(FileRead::Text(text)).unwrap().listen_names;
    assert!(names.contains(&"张三".to_string()) && names.contains(&"李四".to_string()));
    let names = reg.remove("张三", &Ok(Json::Null)).expect("remove 应成功");
    let text = save_listen_names(&mut cfg, names);
    assert_eq!(load_config(FileRead::Text(text)).unwrap().listen_names, vec!["李四".to_string()]);
}

#[test]
fn failed_token_leaves_the_settings_alone() {
    let mut a = assembled(Config::default());
    let e = a.save_settings(patch("ws://x", ""), Err("no keyring".into())).unwrap_err();
    assert_eq!(e, "no keyring");
    assert_eq!(a.config.server_url, "ws://127.0.0.1:60021");
    assert_eq!(token_to_store(Some("t".into())), Some("t".to_string()));
    assert_eq!(token_to_store(Some("".into())), None);
    assert_eq!(token_to_store(None), None);
}

#[test]
fn application_is_put_together() {
    let mut cfg = Config::default();
    cfg.listen_names = vec!["b".into(), "a".into()];
    cfg.delay_min_ms = 9;
    cfg.delay_max_ms = 3;
    cfg.webhook_url = "http://h".into();
    let a = assemble_into(cfg, Ok(()), FileRead::Missing, "host".into(), 0).ok().expect("assemble");
    assert_eq!(a.listeners.list(), vec!["a".to_string(), "b".to_string()]);
    assert!(a.session.pause() >= 500);
    assert_eq!(a.state_snapshot(), "SidecarBooting");
    assert_eq!(a.build_url(None, None, StoredToken::Unavailable), "ws://127.0.0.1:60021");
    assert_eq!(a.state_machine.state(), AppState::SidecarBooting);
    assert_eq!(a.outbox.len(), 0);
    assert!(!a.link.is_running());
    assert!(a.alert.send("t", "d", 1).unwrap().body.contains("host"));
    assert_eq!(a.supervisor.current_phase(), "constructed");
    assert_eq!(a.config.listen_names.len(), 2);
}

#[test]
fn application_does_without_an_outbox_but_not_without_a_sidecar() {
    let a = assemble_into(
        Config::default(),
        Ok(()),
        FileRead::Failed("denied".into()),
        String::new(),
        0,
    );
    let mut a = a.ok().expect("assemble");
    let event = json("{\"type\":\"message\",\"eventId\":\"e\"}");
    assert!(a.outbox.enqueue(&event, 0).is_none());
    let e = assemble_into(
        Config::default(),
        Err("not found".into()),
        FileRead::Missing,
        String::new(),
        0,
    )
    .err()
    .unwrap();
    assert_eq!(e, "sidecar 启动失败: not found");
    let e = load_for_assembly(FileRead::Text("x".into())).err().unwrap();
    assert!(e.starts_with("配置读取失败: 配置文件解析失败: "));
    let e = load_for_assembly(FileRead::Failed("d".into())).err().unwrap();
    assert_eq!(e, "配置读取失败: 配置文件读取失败: d");
    assert!(load_for_assembly(FileRead::Text(config_text(&Config::default()))).is_ok());
}

#[test]
fn death_is_reported_to_the_web_hook() {
    let e = bridge().emit_state(&AppState::SidecarDead).unwrap();
    assert_eq!(e.name, EVENT_STATE);
    assert_eq!(e.payload.as_str(), Some("SidecarDead"));
    let (title, detail) = state_alert(&AppState::SidecarDead).unwrap();
    assert_eq!(title, "sidecar 瘫痪");
    assert!(detail.contains("人工介入"));
    assert!(state_alert(&AppState::Ready).is_none());
}

#[test]
fn test_app_state_name_all_six() {
    assert_eq!(app_state_name(&AppState::SidecarDead), "SidecarDead");
    assert_eq!(app_state_name(&AppState::SidecarBooting), "SidecarBooting");
    assert_eq!(app_state_name(&AppState::WxInit), "WxInit");
    assert_eq!(app_state_name(&AppState::Ready), "Ready");
    assert_eq!(app_state_name(&AppState::Busy), "Busy");
    assert_eq!(app_state_name(&AppState::Degraded), "Degraded");
    assert_eq!(bridge().emit_state(&AppState::Busy).unwrap().payload.as_str(), Some("Busy"));
}

#[test]
fn test_with_ws_connected_injects_flag() {
    let frame = json(
        "{\"kind\":\"event\",\"type\":\"status\",\
         \"data\":{\"wxOnline\":true,\"listeners\":2,\"sidecarAlive\":true},\"ts\":123}",
    );
    let out = with_ws_connected(&frame, true);
    assert_eq!(out.get_bool("wsConnected"), Some(true));
    assert_eq!(out.get("data").unwrap().get_bool("wxOnline"), Some(true), "原字段保留");
    assert_eq!(with_ws_connected(&Json::Null, true).get_bool("wsConnected"), Some(true));
}

#[test]
fn test_forward_app_log_emits_entry() {
    let entry = json("{\"ts\":1,\"level\":\"info\",\"source\":\"rust\",\"message\":\"m\"}");
    assert!(UiEventBridge::new().forward_app_log(&entry).is_none());
    let e = bridge().forward_app_log(&entry).unwrap();
    assert_eq!(e.name, EVENT_APP_LOG);
    assert_eq!(e.payload.get_str("message"), Some("m"));
}

#[test]
fn frames_become_events_of_the_front_end() {
    let m = json("{\"type\":\"message\",\"data\":{\"chatName\":\"x\"}}");
    let e = bridge().forward_event_frame(&m).unwrap();
    assert_eq!(e.name, EVENT_MESSAGE);
    assert_eq!(e.payload.get_str("chatName"), Some("x"));
    let s = bridge().forward_event_frame(&json("{\"type\":\"status\"}")).unwrap();
    assert_eq!(s.payload.get_bool("wsConnected"), Some(false));
    assert_eq!(s.payload.get_bool("wxOnline"), Some(false));
    assert!(bridge().forward_event_frame(&json("{\"type\":\"friend_request\"}")).is_none());
    assert!(bridge().forward_event_frame(&json("{}")).is_none());
    let c = bridge().forward_command_log(&json("{\"requestId\":\"r\"}")).unwrap();
    assert_eq!(c.name, EVENT_COMMAND_LOG);
    assert_eq!(c.payload.get_str("requestId"), Some("r"));
}

#[test]
fn test_invoke_get_app_state_managed_type_key_matches() {
    assert_eq!(get_app_state(None), "SidecarBooting");
    assert_eq!(get_app_state(Some(AppState::Ready)), "Ready");
}

#[test]
fn test_invoke_get_recent_logs_returns_snapshot() {
    let mut ring = LogRing::new(10);
    ring.push(AppLogEntry {
        ts: 1,
        level: AppLogLevel::Info,
        source: AppLogSource::Rust,
        message: "先".into(),
    });
    ring.push(AppLogEntry {
        ts: 2,
        level: AppLogLevel::Warn,
        source: AppLogSource::Sidecar,
        message: "后".into(),
    });
    let logs = get_recent_logs(&ring);
    assert_eq!(logs.len(), 2);
    assert_eq!(logs[0].get_str("message"), Some("先"));
    assert_eq!(logs[1].get_str("level"), Some("warn"));
}

#[test]
fn activation() {
    assert_eq!(activation_params("  ").err().unwrap(), "激活码不能为空");
    assert_eq!(activation_params(" abc ").ok().unwrap().get_str("code"), Some("abc"));
    let (r, again) = activate_license(Ok(json("{\"ok\":true}")));
    assert!(r.is_ok() && again);
    let (r, again) = activate_license(Ok(json("{\"ok\":false}")));
    assert!(r.is_ok() && !again);
    let (r, again) = activate_license(Err(RpcError::Timeout));
    assert_eq!(r.err().unwrap(), "激活请求失败：RPC 超时");
    assert!(!again);
}

#[test]
fn manual_operations_and_reasons() {
    assert!(manual_execute(Ok(Json::Null)).is_ok());
    assert_eq!(manual_execute(Err(RpcError::Closed)).err().unwrap(), "sidecar 已退出");
    let f = InitFail { reason: "licensed".into(), detail: None };
    assert_eq!(get_init_fail_reason(Some(&f)), Some("licensed".to_string()));
    assert_eq!(get_init_fail_reason(None), None);
}

#[test]
fn application_is_put_together_once() {
    let mut ctx = AppStateCtx::shell();
    assert!(matches!(ctx.assemble_into(AssemblyEvent::Call), AssemblyAction::ReadConfig));
    assert!(matches!(ctx.assemble_into(AssemblyEvent::Call), AssemblyAction::Wait));
    let read = AssemblyEvent::ConfigRead(FileRead::Missing);
    assert!(matches!(ctx.assemble_into(read), AssemblyAction::StartSidecar));
    let started = AssemblyEvent::SidecarStarted(Ok(()));
    assert!(matches!(ctx.assemble_into(started), AssemblyAction::ReadOutbox));
    let file = FileRead::Failed("x".into());
    let opened = AssemblyEvent::OutboxRead { file, hostname: "h".into(), now: 1 };
    match ctx.assemble_into(opened) {
        AssemblyAction::Give(a) => assert_eq!(a.state_snapshot(), "SidecarBooting"),
        _ => panic!("expected the application"),
    }
    for _ in 0..2 {
        match ctx.assemble_into(AssemblyEvent::Call) {
            AssemblyAction::Again(r) => assert_eq!(r, Ok(())),
            _ => panic!("expected the first result"),
        }
    }
    let started = AssemblyEvent::SidecarStarted(Ok(()));
    assert!(matches!(ctx.assemble_into(started), AssemblyAction::Ignore));
}

#[test]
fn failed_assembly_is_final() {
    let mut ctx = AppStateCtx::shell();
    ctx.assemble_into(AssemblyEvent::Call);
    let words = match ctx.assemble_into(AssemblyEvent::ConfigRead(FileRead::Text("{".into()))) {
        AssemblyAction::Fail(words) => words,
        _ => panic!("expected a fault"),
    };
    assert!(words.starts_with("配置读取失败: 配置文件解析失败: "), "{words}");
    assert!(words.contains("EOF"), "{words}");
    match ctx.assemble_into(AssemblyEvent::Call) {
        AssemblyAction::Again(r) => assert_eq!(r, Err(words)),
        _ => panic!("expected the first result"),
    }
    let mut ctx = AppStateCtx::shell();
    ctx.assemble_into(AssemblyEvent::Call);
    ctx.assemble_into(AssemblyEvent::ConfigRead(FileRead::Missing));
    match ctx.assemble_into(AssemblyEvent::SidecarStarted(Err("no python".into()))) {
        AssemblyAction::Fail(words) => assert_eq!(words, "sidecar 启动失败: no python"),
        _ => panic!("expected a fault"),
    }
}

#[test]
fn link_sends_alerts_where_the_settings_say() {
    let mut cfg = Config::default();
    cfg.webhook_url = "http://hook".into();
    let mut a = assembled(cfg);
    let plan = a.start_link(None, None, StoredToken::Unavailable);
    let post = plan.link.on_health_changed(&WxHealth::Unreachable, 5).expect("post");
    assert_eq!(post.url, "http://hook");
}
