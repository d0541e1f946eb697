use wxauto_desktop::cli::{
    build_ws_url, choose_launch, graceful_shutdown, parse_sidecar_cmd, wants_cli, ShutdownWait,
    DEFAULT_SIDECAR_CMD,
};

#[test]
fn test_build_ws_url() {
    assert_eq!(build_ws_url("ws://127.0.0.1:60021", "t1"), "ws://127.0.0.1:60021/?token=t1");
    assert_eq!(build_ws_url("ws://127.0.0.1:60021", ""), "ws://127.0.0.1:60021");
}

#[test]
fn test_build_ws_url_token_handling() {
    assert_eq!(build_ws_url("ws://127.0.0.1:60021", "abc"), "ws://127.0.0.1:60021/?token=abc");
    assert_eq!(build_ws_url("ws://127.0.0.1:60021", ""), "ws://127.0.0.1:60021");
}

#[test]
fn test_parse_sidecar_cmd_quoted_path_with_spaces() {
    let (prog, args) =
        parse_sidecar_cmd("\"C:\\Program Files\\wxauto\\wxauto-sidecar.exe\" --mock");
    assert_eq!(prog, r"C:\Program Files\wxauto\wxauto-sidecar.exe");
    assert_eq!(args, vec!["--mock"]);
}

#[test]
fn test_parse_sidecar_cmd_plain() {
    let (prog, args) = parse_sidecar_cmd("python3 sidecar-python/sidecar.py");
    assert_eq!(prog, "python3");
    assert_eq!(args, vec!["sidecar-python/sidecar.py"]);
}

#[test]
fn test_parse_sidecar_cmd_empty() {
    let (prog, args) = parse_sidecar_cmd("   ");
    assert_eq!(prog, "python3");
    assert!(args.is_empty());
}

#[test]
fn test_parse_sidecar_cmd_space_inside_quotes() {
    let (prog, _args) = parse_sidecar_cmd("\"my sidecar.py\"");
    assert_eq!(prog, "my sidecar.py");
}

#[test]
fn odd_command_lines() {
    assert_eq!(parse_sidecar_cmd("a\"b c\"d  e").0, "ab cd");
    assert_eq!(parse_sidecar_cmd("a\"b c\"d  e").1, vec!["e"]);
    assert_eq!(parse_sidecar_cmd("\"\"").0, "python3");
    assert_eq!(parse_sidecar_cmd("\"open x").0, "open x");
}

#[test]
fn sidecar_is_found_in_order() {
    let l = choose_launch(Some("p --x".into()), Some("/b".into()), Some("/w".into()));
    assert_eq!(l.program, "p");
    assert_eq!(l.args, vec!["--x"]);
    assert!(l.workdir.is_none() && !l.no_window);
    let l = choose_launch(None, Some("/b".into()), Some("/w".into()));
    assert_eq!(l.program, "/b");
    assert!(l.args.is_empty() && l.no_window && l.workdir.is_none());
    let l = choose_launch(None, None, Some("/w".into()));
    assert_eq!(format!("{} {}", l.program, l.args[0]), DEFAULT_SIDECAR_CMD);
    assert_eq!(l.workdir.as_deref(), Some("/w"));
    assert!(!l.no_window);
}

#[test]
fn test_graceful_shutdown_kills_live_sidecar() {
    assert!(graceful_shutdown(ShutdownWait::Exited), "活进程的 graceful_shutdown 应成功回收");
    assert!(!graceful_shutdown(ShutdownWait::TimedOut));
}

#[test]
fn test_graceful_shutdown_idempotent_on_dead_sidecar() {
    assert!(graceful_shutdown(ShutdownWait::Exited));
    assert!(graceful_shutdown(ShutdownWait::WatchLost));
}

#[test]
fn window_or_command_line() {
    assert!(wants_cli(&vec!["exe".into(), "--cli".into()]));
    assert!(!wants_cli(&vec!["exe".into(), "--CLI".into()]));
    assert!(!wants_cli(&Vec::new()));
}
