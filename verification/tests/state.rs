use wxauto_desktop::json::{parse_json, Json};
use wxauto_desktop::sidecar::protocol::RpcError;
use wxauto_desktop::agent_link::inbound::EventIds;
use wxauto_desktop::state::{
    init_fail_event, AppState, AppStateMachine, InitAction, InitEvent, InitSequence, Supervisor,
    SupervisorAction, SupervisorEvent, INIT_RETRY_GAPS, INIT_TIMEOUT, RESTART_BACKOFF,
    SIDECAR_MIN_UPTIME,
};
use wxauto_desktop::wx::WxHealth;

fn json(text: &str) -> Json {
    parse_json(text).expect("JSON")
}

#[test]
fn test_state_transitions() {
    let mut m = AppStateMachine::new();
    assert_eq!(m.state(), AppState::SidecarBooting);
    assert_eq!(m.mark_wx_init(true), Some((AppState::SidecarBooting, AppState::WxInit)));
    assert_eq!(m.state(), AppState::WxInit);
    m.mark_ready();
    assert_eq!(m.state(), AppState::Ready);
    m.mark_busy();
    assert_eq!(m.state(), AppState::Busy);
    m.mark_idle();
    assert_eq!(m.state(), AppState::Ready);
    m.mark_sidecar_died();
    assert_eq!(m.state(), AppState::SidecarDead);
}

#[test]
fn test_license_fail_stays_booting() {
    let mut m = AppStateMachine::new();
    assert_eq!(m.mark_wx_init(false), None);
    assert_eq!(m.state(), AppState::SidecarBooting);
}

#[test]
fn test_mark_busy_only_from_ready() {
    let mut m = AppStateMachine::new();
    m.mark_busy();
    assert_eq!(m.state(), AppState::SidecarBooting, "Booting 下 mark_busy 应无效");
    m.mark_wx_init(true);
    m.mark_ready();
    m.mark_busy();
    assert_eq!(m.mark_busy(), None);
    assert_eq!(m.state(), AppState::Busy);
}

#[test]
fn test_mark_idle_only_from_busy() {
    let mut m = AppStateMachine::new();
    m.mark_wx_init(true);
    m.mark_ready();
    m.mark_idle();
    assert_eq!(m.state(), AppState::Ready, "Ready 下 mark_idle 应无效");
}

#[test]
fn test_mark_online_degraded_toggle() {
    let mut m = AppStateMachine::new();
    m.mark_wx_init(true);
    m.mark_ready();
    m.mark_online(false);
    assert_eq!(m.state(), AppState::Degraded);
    m.mark_online(true);
    assert_eq!(m.state(), AppState::Ready);
    m.mark_sidecar_died();
    m.mark_online(true);
    assert_eq!(m.state(), AppState::SidecarDead);
}

#[test]
fn test_state_sync_consistent() {
    let mut m = AppStateMachine::default();
    assert_eq!(AppStateMachine::state_sync(Some(m.state())), AppState::SidecarBooting);
    m.mark_wx_init(true);
    assert_eq!(AppStateMachine::state_sync(Some(m.state())), AppState::WxInit);
    m.mark_ready();
    m.mark_busy();
    assert_eq!(AppStateMachine::state_sync(Some(m.state())), AppState::Busy);
    assert_eq!(AppStateMachine::state_sync(None), AppState::Degraded);
}

#[test]
fn test_sidecar_dead_terminal_not_overridden() {
    let mut m = AppStateMachine::new();
    m.mark_wx_init(true);
    m.mark_ready();
    m.mark_sidecar_died();
    m.mark_online(false);
    assert_eq!(m.state(), AppState::SidecarDead, "心跳不得覆盖终态");
    m.mark_online(true);
    assert_eq!(m.state(), AppState::SidecarDead);
    m.mark_ready();
    assert_eq!(m.state(), AppState::SidecarDead, "mark_ready 不得复活终态");
    m.mark_busy();
    assert_eq!(m.state(), AppState::SidecarDead);
    m.mark_wx_init(true);
    assert_eq!(m.state(), AppState::SidecarDead, "mark_wx_init 不得复活终态");
    m.mark_degraded();
    assert_eq!(m.state(), AppState::SidecarDead, "mark_degraded 不得覆盖终态");
}

#[test]
fn test_sidecar_dead_race_with_heartbeat() {
    for death in 0..50 {
        let mut m = AppStateMachine::new();
        m.mark_wx_init(true);
        m.mark_ready();
        for beat in 0..50 {
            if beat == death {
                m.mark_sidecar_died();
            }
            m.mark_online(false);
        }
        assert_eq!(m.state(), AppState::SidecarDead);
    }
}

#[test]
fn degraded_is_left_by_a_probe() {
    let mut m = AppStateMachine::new();
    assert_eq!(m.mark_degraded(), Some((AppState::SidecarBooting, AppState::Degraded)));
    assert_eq!(m.mark_online(true), Some((AppState::Degraded, AppState::Ready)));
    assert_eq!(m.mark_online(true), None);
}

#[test]
fn test_restart_backoff_constants() {
    assert_eq!(RESTART_BACKOFF.len(), 5, "退避序列应为 5 档");
    assert_eq!(RESTART_BACKOFF[0], 1_000);
    assert_eq!(RESTART_BACKOFF[4], 16_000);
}

fn supervisor() -> Supervisor {
    Supervisor::new().with_init_retry(300, vec![50, 50])
}

/// Feeds the answers of the start-up calls, and gives every action up to the end or to the
/// resync.
fn start_up(
    s: &mut Supervisor,
    m: &mut AppStateMachine,
    answers: Vec<Result<Json, RpcError>>,
) -> (InitSequence, Vec<InitAction>) {
    let (mut seq, first) = InitSequence::begin(s);
    let mut ids = EventIds::new();
    let mut actions = vec![first];
    for answer in answers {
        if let Some(InitAction::Pause(_)) = actions.last() {
            actions.push(seq.step(InitEvent::Paused, s, m, &mut ids));
        }
        actions.push(seq.step(InitEvent::Called(answer), s, m, &mut ids));
    }
    (seq, actions)
}

fn reported(actions: &[InitAction]) -> Option<String> {
    match actions.last() {
        Some(InitAction::Report(f)) => {
            assert_eq!(f.get_str("kind"), Some("event"));
            assert_eq!(f.get_str("type"), Some("init_fail"));
            f.get("data").and_then(|d| d.get_str("reason")).map(|r| r.to_string())
        }
        _ => None,
    }
}

fn reason(s: &Supervisor) -> Option<String> {
    s.last_init_fail().map(|f| f.reason.clone())
}

#[test]
fn test_supervisor_restarts_after_crash() {
    let mut s = Supervisor::new();
    let mut m = AppStateMachine::new();
    assert_eq!(s.current_phase(), "constructed");
    assert_eq!(s.run(SupervisorEvent::Start, &mut m), (SupervisorAction::Init, None));
    assert_eq!(s.current_phase(), "init_sequence");
    let (_, actions) = start_up(&mut s, &mut m, vec![Err(RpcError::Closed)]);
    assert!(matches!(actions.last(), Some(InitAction::Nothing)));
    assert_eq!(s.run(SupervisorEvent::InitOver, &mut m), (SupervisorAction::AwaitExit, None));
    assert_eq!(s.current_phase(), "await_exit");
    assert_eq!(
        s.run(SupervisorEvent::Exited { uptime: 300 }, &mut m),
        (SupervisorAction::Wait(1_000), None)
    );
    assert_eq!(s.current_phase(), "backoff");
    assert_eq!(s.run(SupervisorEvent::Waited, &mut m), (SupervisorAction::Spawn, None));
    assert_eq!(s.current_phase(), "spawn");
    assert_eq!(
        s.run(SupervisorEvent::Spawned { started: true }, &mut m),
        (SupervisorAction::Init, None)
    );
    let answer = Ok(json("{\"licensed\":true,\"wxid\":\"t_wxid\",\"nickname\":\"测试\"}"));
    let (mut seq, actions) = start_up(&mut s, &mut m, vec![answer]);
    assert!(matches!(
        actions.last(),
        Some(InitAction::Resync(Some((AppState::SidecarBooting, AppState::WxInit))))
    ));
    let mut ids = EventIds::new();
    assert!(matches!(
        seq.step(InitEvent::Resynced, &mut s, &mut m, &mut ids),
        InitAction::Probe(Some((AppState::WxInit, AppState::Ready)))
    ));
    let probed = InitEvent::Probed { health: WxHealth::Online, listeners: 2 };
    match seq.step(probed, &mut s, &mut m, &mut ids) {
        InitAction::Announce(f) => {
            assert_eq!(f.get_str("type"), Some("status"));
            assert_eq!(f.get("data").unwrap().get("listeners").unwrap().as_u64(), Some(2));
        }
        _ => panic!("expected a status"),
    }
    assert_eq!(m.state(), AppState::Ready);
}

/// One life: the pause before the restart, `None` when supervision gives up.
fn live(s: &mut Supervisor, m: &mut AppStateMachine, uptime: u64, started: bool) -> Option<u64> {
    match s.run(SupervisorEvent::Exited { uptime }, m) {
        (SupervisorAction::Wait(ms), None) => {
            s.run(SupervisorEvent::Waited, m);
            s.run(SupervisorEvent::Spawned { started }, m);
            s.run(SupervisorEvent::InitOver, m);
            Some(ms)
        }
        (SupervisorAction::GiveUp, change) => {
            assert_eq!(change, Some((AppState::SidecarBooting, AppState::SidecarDead)));
            None
        }
        _ => panic!("unexpected"),
    }
}

fn running(s: &mut Supervisor, m: &mut AppStateMachine) {
    s.run(SupervisorEvent::Start, m);
    s.run(SupervisorEvent::InitOver, m);
}

#[test]
fn test_supervisor_dead_after_spawn_failures() {
    let mut s = Supervisor::new().with_backoff(vec![10; 5]);
    let mut m = AppStateMachine::new();
    running(&mut s, &mut m);
    let mut spawns = 0;
    while let Some(ms) = live(&mut s, &mut m, 300, false) {
        assert_eq!(ms, 10);
        spawns += 1;
    }
    assert_eq!(m.state(), AppState::SidecarDead);
    assert_eq!(spawns, 5, "恰好 5 次 spawner 调用后放弃（不再第 6 次）");
    assert_eq!(s.current_phase(), "stopped");
    assert_eq!(s.run(SupervisorEvent::Start, &mut m), (SupervisorAction::Ignore, None));
}

#[test]
fn pauses_grow_for_a_sidecar_that_dies_young() {
    let mut s = Supervisor::new();
    let mut m = AppStateMachine::new();
    running(&mut s, &mut m);
    for expected in [1_000, 2_000, 4_000, 8_000, 16_000] {
        assert_eq!(live(&mut s, &mut m, 29_999, true), Some(expected));
    }
    assert_eq!(live(&mut s, &mut m, 29_999, true), None);
}

#[test]
fn a_long_life_is_forgiven() {
    let mut s = Supervisor::new();
    let mut m = AppStateMachine::new();
    running(&mut s, &mut m);
    live(&mut s, &mut m, 0, true);
    assert_eq!(live(&mut s, &mut m, SIDECAR_MIN_UPTIME, true), Some(2_000));
    assert_eq!(live(&mut s, &mut m, 0, true), Some(1_000));
    assert_eq!(live(&mut s, &mut m, SIDECAR_MIN_UPTIME, false), Some(2_000));
    assert_eq!(live(&mut s, &mut m, 0, true), Some(4_000));
}

#[test]
fn lost_watch_gives_up() {
    let mut s = Supervisor::new();
    let mut m = AppStateMachine::new();
    running(&mut s, &mut m);
    assert_eq!(
        s.run(SupervisorEvent::WatchLost, &mut m),
        (SupervisorAction::GiveUp, Some((AppState::SidecarBooting, AppState::SidecarDead)))
    );
}

#[test]
fn timeout_retry_recovers_wechat_missing_frame() {
    let mut s = supervisor();
    let mut m = AppStateMachine::new();
    let answer = Ok(json(
        "{\"licensed\":true,\"wxid\":\"\",\"nickname\":\"\",\"failReason\":\"wechat_missing\",\
         \"failDetail\":\"RuntimeError: 慢热模拟\"}",
    ));
    let (_, actions) = start_up(&mut s, &mut m, vec![Err(RpcError::Timeout), answer]);
    assert!(matches!(actions[0], InitAction::Call(300)));
    assert!(matches!(actions[1], InitAction::Pause(50)));
    assert!(matches!(actions[2], InitAction::Call(300)));
    assert_eq!(reported(&actions).as_deref(), Some("wechat_missing"));
    assert_eq!(m.state(), AppState::SidecarBooting, "wechat_missing 应留 Booting");
    let snap = s.last_init_fail().expect("快照应含 wechat_missing");
    assert_eq!(snap.reason, "wechat_missing");
    assert_eq!(snap.detail.as_deref(), Some("RuntimeError: 慢热模拟"));
}

#[test]
fn fast_response_short_circuits_without_retry() {
    let mut s = supervisor();
    let mut m = AppStateMachine::new();
    let answer = Ok(json("{\"licensed\":true,\"failReason\":\"wechat_missing\"}"));
    let (_, actions) = start_up(&mut s, &mut m, vec![answer]);
    assert_eq!(actions.len(), 2);
    assert_eq!(reported(&actions).as_deref(), Some("wechat_missing"));
    assert_eq!(m.state(), AppState::SidecarBooting);
}

#[test]
fn timeout_exhaustion_shuts_down_sidecar() {
    let mut s = supervisor();
    let mut m = AppStateMachine::new();
    let timeouts = (0..3).map(|_| Err(RpcError::Timeout)).collect();
    let (_, actions) = start_up(&mut s, &mut m, timeouts);
    assert_eq!(actions.iter().filter(|a| matches!(a, InitAction::Call(_))).count(), 3);
    assert!(matches!(actions.last(), Some(InitAction::Shutdown)));
    assert_eq!(m.state(), AppState::SidecarBooting, "transport 级超时不改状态");
    assert!(s.last_init_fail().is_none(), "超时耗尽不得写授权失败快照（归重启域）");
}

#[test]
fn rpc_error_frame_skips_timeout_retry() {
    let mut s = supervisor();
    let mut m = AppStateMachine::new();
    let e = Err(RpcError::Sidecar("[-32603] ModuleNotFoundError".into()));
    let (_, actions) = start_up(&mut s, &mut m, vec![e]);
    assert!(matches!(actions.last(), Some(InitAction::Nothing)));
    let (_, actions) = start_up(&mut s, &mut m, vec![Err(RpcError::Io("x".into()))]);
    assert!(matches!(actions.last(), Some(InitAction::Nothing)));
}

#[test]
fn unlicensed_init_stays_booting_and_emits_init_fail() {
    let mut s = Supervisor::new();
    let mut m = AppStateMachine::new();
    let answer =
        Ok(json("{\"licensed\":false,\"wxid\":\"\",\"nickname\":\"\",\"failReason\":\"licensed\"}"));
    let (_, actions) = start_up(&mut s, &mut m, vec![answer]);
    assert_eq!(reported(&actions).as_deref(), Some("licensed"));
    assert_eq!(m.state(), AppState::SidecarBooting, "未授权必须留 Booting");
}

#[test]
fn wechat_missing_init_stays_booting_with_reason() {
    let mut s = Supervisor::new();
    let mut m = AppStateMachine::new();
    let answer = Ok(json("{\"licensed\":true,\"failReason\":\"wechat_missing\"}"));
    let (_, actions) = start_up(&mut s, &mut m, vec![answer]);
    assert_eq!(reported(&actions).as_deref(), Some("wechat_missing"));
    assert_eq!(m.state(), AppState::SidecarBooting);
}

#[test]
fn ready_script_retry_init_reaches_ready() {
    let mut s = Supervisor::new();
    let mut m = AppStateMachine::new();
    let answer = Ok(json("{\"licensed\":true,\"wxid\":\"wxid_t\",\"nickname\":\"测试\"}"));
    let (mut seq, actions) = start_up(&mut s, &mut m, vec![answer]);
    assert!(matches!(actions.last(), Some(InitAction::Resync(_))));
    seq.step(InitEvent::Resynced, &mut s, &mut m, &mut EventIds::new());
    assert_eq!(m.state(), AppState::Ready, "授权+微信在 → Ready");
    let stray = seq.step(InitEvent::Paused, &mut s, &mut m, &mut EventIds::new());
    assert!(matches!(stray, InitAction::Nothing));
}

#[test]
fn last_init_fail_caches_unlicensed_reason() {
    let mut s = Supervisor::new();
    let mut m = AppStateMachine::new();
    let answer = Ok(json("{\"licensed\":false,\"failReason\":\"licensed\"}"));
    start_up(&mut s, &mut m, vec![answer]);
    assert_eq!(reason(&s).as_deref(), Some("licensed"));
    start_up(&mut s, &mut m, vec![Ok(json("{}"))]);
    assert_eq!(reason(&s).as_deref(), Some("licensed"));
}

#[test]
fn last_init_fail_caches_wechat_missing_reason() {
    let mut s = Supervisor::new();
    let mut m = AppStateMachine::new();
    let answer = Ok(json("{\"licensed\":true,\"failReason\":\"wechat_missing\"}"));
    start_up(&mut s, &mut m, vec![answer]);
    assert_eq!(reason(&s).as_deref(), Some("wechat_missing"));
}

#[test]
fn last_init_fail_cleared_on_success() {
    let mut s = Supervisor::new();
    let mut m = AppStateMachine::new();
    start_up(&mut s, &mut m, vec![Ok(json("{\"licensed\":false}"))]);
    assert!(s.last_init_fail().is_some());
    start_up(&mut s, &mut m, vec![Ok(json("{\"licensed\":true}"))]);
    assert!(s.last_init_fail().is_none(), "授权通过（推进 WxInit 前）应清空 last_init_fail");
}

#[test]
fn last_init_fail_not_set_on_rpc_error() {
    let mut s = Supervisor::new();
    let mut m = AppStateMachine::new();
    start_up(&mut s, &mut m, vec![Err(RpcError::Closed)]);
    assert!(s.last_init_fail().is_none());
}

#[test]
fn start_up_numbers() {
    assert_eq!(INIT_TIMEOUT, 10_000);
    assert_eq!(INIT_RETRY_GAPS, [5_000, 5_000]);
    let f = init_fail_event("licensed");
    assert_eq!(f.get("data").unwrap().get_str("reason"), Some("licensed"));
}
