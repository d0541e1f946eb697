use wxauto_desktop::config::{
    config_text, keyring_delete_token, keyring_get_token, keyring_set_token, load_config,
    save_error, Config, RemovalAnswer, SaveStep,
};
use wxauto_desktop::files::FileRead;
use wxauto_desktop::json::{parse_json, Json};

#[test]
fn test_config_default_gap_alignment() {
    let c = Config::default();
    assert_eq!(c.delay_min_ms, 500);
    assert_eq!(c.delay_max_ms, 1000);
    assert!(!c.auto_connect);
}

#[test]
fn test_config_serde_camel_case() {
    let v = Config::default().to_json();
    assert!(v.get("serverUrl").is_some(), "字段应为 serverUrl");
    assert!(v.get("channelId").is_some(), "字段应为 channelId");
    assert!(v.get("autoConnect").is_some(), "字段应为 autoConnect");
    assert!(v.get("listenNames").is_some(), "字段应为 listenNames");
    assert!(v.get("delayMinMs").is_some(), "字段应为 delayMinMs");
    assert!(v.get("delayMaxMs").is_some(), "字段应为 delayMaxMs");
}

#[test]
fn test_webhook_fields_default_and_camel() {
    let c = Config::default();
    assert_eq!(c.webhook_url, "", "默认禁用");
    assert_eq!(c.webhook_template, "");
    let v = Config::default().to_json();
    assert_eq!(v.get_str("webhookUrl"), Some(""));
    assert!(v.get("webhook_template").is_none(), "序列化必须是 camelCase");
}

#[test]
fn test_config_roundtrip() {
    let cfg = Config {
        server_url: "ws://127.0.0.1:60021/channel-1".into(),
        channel_id: "ch-1".into(),
        auto_connect: true,
        listen_names: vec!["张三".into(), "李四".into()],
        delay_min_ms: 300,
        delay_max_ms: 800,
        webhook_url: "https://open.feishu.cn/hook/abc".into(),
        webhook_template: "{\"text\":\"{title}\"}".into(),
    };
    let loaded = load_config(FileRead::Text(config_text(&cfg))).expect("加载配置失败");
    assert_eq!(loaded.server_url, "ws://127.0.0.1:60021/channel-1");
    assert_eq!(loaded.channel_id, "ch-1");
    assert!(loaded.auto_connect);
    assert_eq!(loaded.listen_names, vec!["张三".to_string(), "李四".to_string()]);
    assert_eq!(loaded.delay_min_ms, 300);
    assert_eq!(loaded.delay_max_ms, 800);
    assert_eq!(loaded.webhook_url, "https://open.feishu.cn/hook/abc");
    assert_eq!(loaded.webhook_template, "{\"text\":\"{title}\"}");
    let copy = cfg.copy();
    assert_eq!(copy.listen_names, cfg.listen_names);
}

#[test]
fn test_load_config_missing_file_returns_default() {
    let cfg = load_config(FileRead::Missing).expect("缺文件应回默认而非报错");
    assert_eq!(cfg.delay_min_ms, 500, "默认拟人延时下限 500ms");
    assert_eq!(cfg.delay_max_ms, 1000, "默认拟人延时上限 1000ms");
    assert!(!cfg.auto_connect, "默认不自动连接");
    assert!(cfg.listen_names.is_empty());
    assert!(!cfg.server_url.is_empty(), "默认 server_url 非空");
    assert_eq!(cfg.server_url, "ws://127.0.0.1:60021");
}

#[test]
fn test_load_config_invalid_json_errors() {
    let e = load_config(FileRead::Text("{ not json !!!".into())).err().expect("坏 JSON 应报错");
    assert!(e.starts_with("配置文件解析失败: "));
    assert!(e.len() > "配置文件解析失败: ".len());
}

#[test]
fn spoilt_settings_are_an_error() {
    for text in [
        "{}",
        "[]",
        "{\"serverUrl\":1,\"channelId\":\"\",\"autoConnect\":false,\"listenNames\":[],\"delayMinMs\":1,\"delayMaxMs\":2}",
        "{\"serverUrl\":\"\",\"channelId\":\"\",\"autoConnect\":false,\"listenNames\":[1],\"delayMinMs\":1,\"delayMaxMs\":2}",
        "{\"serverUrl\":\"\",\"channelId\":\"\",\"autoConnect\":false,\"listenNames\":[],\"delayMinMs\":-1,\"delayMaxMs\":2}",
        "{\"serverUrl\":\"\",\"channelId\":\"\",\"autoConnect\":false,\"listenNames\":[],\"delayMinMs\":1,\"delayMaxMs\":2,\"webhookUrl\":null}",
    ] {
        let e = load_config(FileRead::Text(text.into())).err().expect(text);
        assert!(e.starts_with("配置文件解析失败: "), "{text}");
    }
    let e = load_config(FileRead::Failed("denied".into())).err().unwrap();
    assert_eq!(e, "配置文件读取失败: denied");
}

#[test]
fn settings_of_before_the_alerts_are_read() {
    let text = "{\"serverUrl\":\"s\",\"channelId\":\"c\",\"autoConnect\":true,\"listenNames\":[\"a\"],\"delayMinMs\":1,\"delayMaxMs\":2,\"more\":0}";
    let c = Config::from_json(&parse_json(text).unwrap()).unwrap();
    assert_eq!(c.webhook_url, "");
    assert_eq!(c.listen_names, vec!["a".to_string()]);
    assert!(Config::from_json(&Json::Null).is_none());
}

#[test]
fn saving_fails_in_words() {
    assert_eq!(save_error(SaveStep::Directory, "x"), "配置目录创建失败: x");
    assert_eq!(save_error(SaveStep::Write, "x"), "配置写入失败: x");
    assert_eq!(save_error(SaveStep::Rename, "x"), "配置落盘失败: x");
}

#[test]
fn names_are_taken_over() {
    let mut c = Config::default();
    c.set_listen_names(vec!["x".into()]);
    assert_eq!(c.listen_names, vec!["x".to_string()]);
    assert_eq!(c.delay_min_ms, 500);
}

#[test]
fn faults_of_the_store_of_secrets_are_told_in_words() {
    assert_eq!(keyring_get_token(Ok("t".into())), Ok("t".to_string()));
    assert_eq!(
        keyring_get_token(Err("x".into())),
        Err("读取 token 失败（系统凭据服务不可用或未存储）: x".to_string())
    );
    assert_eq!(keyring_set_token(Ok(())), Ok(()));
    assert_eq!(
        keyring_set_token(Err("x".into())),
        Err("写入 token 失败（系统凭据服务不可用）: x".to_string())
    );
    assert_eq!(keyring_delete_token(RemovalAnswer::Removed), Ok(()));
    assert_eq!(keyring_delete_token(RemovalAnswer::NoEntry), Ok(()));
    assert_eq!(
        keyring_delete_token(RemovalAnswer::Failed("x".into())),
        Err("删除 token 失败: x".to_string())
    );
}

#[test]
fn settings_may_be_an_array_of_their_values() {
    let text = "[\"ws://x\",\"ch\",true,[\"a\"],1,2,\"hook\"]";
    let c = load_config(FileRead::Text(text.into())).expect("settings");
    assert_eq!((c.server_url.as_str(), c.channel_id.as_str()), ("ws://x", "ch"));
    assert_eq!((c.delay_min_ms, c.delay_max_ms), (1, 2));
    assert_eq!((c.webhook_url.as_str(), c.webhook_template.as_str()), ("hook", ""));
    let long = "[\"ws://x\",\"ch\",true,[\"a\"],1,2,\"hook\",\"\",1]";
    assert!(load_config(FileRead::Text(long.into())).is_err());
    assert!(load_config(FileRead::Text("[\"ws://x\"]".into())).is_err());
}

fn fault(text: &str) -> String {
    let e = load_config(FileRead::Text(text.into())).err().expect("a fault");
    e.strip_prefix("配置文件解析失败: ").expect("prefix").to_string()
}

#[test]
fn faults_name_the_member() {
    assert_eq!(fault("{}"), "missing field `serverUrl` at line 1 column 2");
    assert_eq!(
        fault("{\n  \"serverUrl\": \"ws://x\"\n}\n"),
        "missing field `channelId` at line 3 column 1"
    );
    assert_eq!(
        fault("{\"serverUrl\":\"微信\"} "),
        "missing field `channelId` at line 1 column 22"
    );
    assert_eq!(
        fault("[\"ws\"]"),
        "invalid length 1, expected struct Config with 8 elements at line 1 column 6"
    );
    assert_eq!(fault("{\"delayMinMs\":-1}"), "invalid type for field `delayMinMs`");
    assert_eq!(fault("{\"listenNames\":[1]}"), "invalid type for field `listenNames`");
    assert_eq!(fault("5"), "expected struct Config");
    let text = config_text(&Config::default());
    let spoilt = text.replace("\"webhookUrl\": \"\"", "\"webhookUrl\": null");
    assert_eq!(fault(&spoilt), "invalid type for field `webhookUrl`");
}

#[test]
fn settings_are_written_indented() {
    let text = config_text(&Config::default());
    assert!(text.starts_with("{\n  \"serverUrl\": \"ws://127.0.0.1:60021\",\n"), "{text}");
}
