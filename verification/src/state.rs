//! The state of the application, and the supervision of the sidecar.
//!
//! Six states:
//! - `SidecarDead`: every restart has been used up; only a person can help.
//! - `SidecarBooting`: the sidecar runs, its start-up is not done (or not licensed).
//! - `WxInit`: started and licensed; the listeners are being registered.
//! - `Ready`: in service.
//! - `Busy`: a command is being carried out.
//! - `Degraded`: WeChat is gone, the sidecar lives.

use vstd::prelude::*;
use crate::agent_link::connection_status;
use crate::agent_link::inbound::{fresh_event, seq_after, status_data, EventIds};
use crate::json::{lemma_put_get, Json, JsonTree};
use crate::sidecar::protocol::{outcome, RpcError, RpcErrorView};
use crate::text::opt_text;
use crate::wx::WxHealth;

verus! {

/// The pauses before the restarts of the sidecar, in milliseconds.
pub const RESTART_BACKOFF: [u64; 5] = [1_000, 2_000, 4_000, 8_000, 16_000];

/// How long the sidecar's start-up call may take, in milliseconds. Shorter than for other
/// calls: a sidecar that is silent for so long is sick.
pub const INIT_TIMEOUT: u64 = 10_000;

/// The pauses before the start-up call is tried again, in milliseconds.
pub const INIT_RETRY_GAPS: [u64; 2] = [5_000, 5_000];

/// How long a sidecar must have lived for its end not to count as a failed start, in
/// milliseconds.
pub const SIDECAR_MIN_UPTIME: u64 = 30_000;

/// The states of the application.
#[derive(Debug, Clone, Copy, PartialEq, Eq, Structural)]
pub enum AppState {
    SidecarDead,
    SidecarBooting,
    WxInit,
    Ready,
    Busy,
    Degraded,
}

/// What can happen to the state.
pub enum StateEvent {
    WxInit { licensed: bool },
    Ready,
    Busy,
    Idle,
    Online(bool),
    SidecarDied,
    Degraded,
}

/// The state after an event.
pub open spec fn state_after(s: AppState, e: StateEvent) -> AppState {
    match e {
        StateEvent::WxInit { licensed } => if licensed && s != AppState::SidecarDead {
            AppState::WxInit
        } else {
            s
        },
        StateEvent::Ready => if s != AppState::SidecarDead {
            AppState::Ready
        } else {
            s
        },
        StateEvent::Busy => if s == AppState::Ready {
            AppState::Busy
        } else {
            s
        },
        StateEvent::Idle => if s == AppState::Busy {
            AppState::Ready
        } else {
            s
        },
        StateEvent::Online(online) => if s == AppState::Ready && !online {
            AppState::Degraded
        } else if s == AppState::Degraded && online {
            AppState::Ready
        } else {
            s
        },
        StateEvent::SidecarDied => AppState::SidecarDead,
        StateEvent::Degraded => if s != AppState::SidecarDead {
            AppState::Degraded
        } else {
            s
        },
    }
}

/// The state after a sequence of events.
pub open spec fn state_after_all(s: AppState, events: Seq<StateEvent>) -> AppState
    decreases events.len(),
{
    if events.len() == 0 {
        s
    } else {
        state_after(state_after_all(s, events.drop_last()), events.last())
    }
}

/// What listeners are told of a change: the old and the new state, and nothing where they
/// are the same.
pub open spec fn change(old: AppState, new: AppState) -> Option<(AppState, AppState)> {
    if old == new {
        None
    } else {
        Some((old, new))
    }
}

/// The state after a step to another state, if the step is allowed.
pub open spec fn stepped(old: AppState, next: AppState, allowed: bool) -> AppState {
    if allowed {
        next
    } else {
        old
    }
}

/// The state of the application. Each `mark_` method returns the change to report, if
/// there was one.
pub struct AppStateMachine {
    state: AppState,
}

impl AppStateMachine {
    /// The state.
    pub closed spec fn view(&self) -> AppState {
        self.state
    }

    /// The sidecar is starting.
    pub fn new() -> (r: AppStateMachine)
        ensures
            r.view() == AppState::SidecarBooting,
    {
        AppStateMachine { state: AppState::SidecarBooting }
    }

    /// The state.
    pub fn state(&self) -> (r: AppState)
        ensures
            r == self.view(),
    {
        self.state
    }

    /// Goes to another state if `allowed`, and says what changed.
    fn transition_if(&mut self, next: AppState, allowed: bool) -> (r: Option<(AppState, AppState)>)
        ensures
            final(self).view() == stepped(old(self).view(), next, allowed),
            r == change(old(self).view(), final(self).view()),
    {
        if self.state == next || !allowed {
            return None;
        }
        let before = self.state;
        self.state = next;
        Some((before, next))
    }

    /// The sidecar's start-up has answered. Without a licence it goes on booting.
    pub fn mark_wx_init(&mut self, licensed: bool) -> (r: Option<(AppState, AppState)>)
        ensures
            final(self).view() == state_after(old(self).view(), StateEvent::WxInit { licensed }),
            r == change(old(self).view(), final(self).view()),
    {
        if licensed {
            let alive = self.state != AppState::SidecarDead;
            self.transition_if(AppState::WxInit, alive)
        } else {
            None
        }
    }

    /// The listeners are registered.
    pub fn mark_ready(&mut self) -> (r: Option<(AppState, AppState)>)
        ensures
            final(self).view() == state_after(old(self).view(), StateEvent::Ready),
            r == change(old(self).view(), final(self).view()),
    {
        let alive = self.state != AppState::SidecarDead;
        self.transition_if(AppState::Ready, alive)
    }

    /// A command begins.
    pub fn mark_busy(&mut self) -> (r: Option<(AppState, AppState)>)
        ensures
            final(self).view() == state_after(old(self).view(), StateEvent::Busy),
            r == change(old(self).view(), final(self).view()),
    {
        let ready = self.state == AppState::Ready;
        self.transition_if(AppState::Busy, ready)
    }

    /// A command is done.
    pub fn mark_idle(&mut self) -> (r: Option<(AppState, AppState)>)
        ensures
            final(self).view() == state_after(old(self).view(), StateEvent::Idle),
            r == change(old(self).view(), final(self).view()),
    {
        let busy = self.state == AppState::Busy;
        self.transition_if(AppState::Ready, busy)
    }

    /// The heartbeat has probed WeChat. It moves between `Ready` and `Degraded` only.
    pub fn mark_online(&mut self, online: bool) -> (r: Option<(AppState, AppState)>)
        ensures
            final(self).view() == state_after(old(self).view(), StateEvent::Online(online)),
            r == change(old(self).view(), final(self).view()),
    {
        if online {
            let degraded = self.state == AppState::Degraded;
            self.transition_if(AppState::Ready, degraded)
        } else {
            let ready = self.state == AppState::Ready;
            self.transition_if(AppState::Degraded, ready)
        }
    }

    /// The restarts are used up. This is the only way into `SidecarDead`.
    pub fn mark_sidecar_died(&mut self) -> (r: Option<(AppState, AppState)>)
        ensures
            final(self).view() == state_after(old(self).view(), StateEvent::SidecarDied),
            r == change(old(self).view(), final(self).view()),
    {
        self.transition_if(AppState::SidecarDead, true)
    }

    /// The service is degraded.
    pub fn mark_degraded(&mut self) -> (r: Option<(AppState, AppState)>)
        ensures
            final(self).view() == state_after(old(self).view(), StateEvent::Degraded),
            r == change(old(self).view(), final(self).view()),
    {
        let alive = self.state != AppState::SidecarDead;
        self.transition_if(AppState::Degraded, alive)
    }

    /// The state for a query that must not wait: where it could not be read at once, it is
    /// given as degraded.
    pub fn state_sync(read: Option<AppState>) -> (r: AppState)
        ensures
            r == match read {
                Some(s) => s,
                None => AppState::Degraded,
            },
    {
        match read {
            Some(s) => s,
            None => AppState::Degraded,
        }
    }
}

impl Default for AppStateMachine {
    fn default() -> (r: Self)
        ensures
            r.view() == AppState::SidecarBooting,
    {
        AppStateMachine::new()
    }
}

/// A step that is allowed and leads elsewhere is made and reported once, with the old and the
/// new state; one that is not allowed, or leads nowhere, changes nothing and is not reported.
pub proof fn law_steps_are_reported_once(old: AppState, next: AppState, allowed: bool)
    ensures
        old != next && allowed ==> stepped(old, next, allowed) == next && change(
            old,
            stepped(old, next, allowed),
        ) == Some((old, next)),
        !(old != next && allowed) ==> stepped(old, next, allowed) == old && change(
            old,
            stepped(old, next, allowed),
        ) is None,
{
}

/// The step that an event asks for: the state that it leads to, and whether it is allowed.
pub open spec fn step_for(s: AppState, e: StateEvent) -> (AppState, bool) {
    match e {
        StateEvent::WxInit { licensed } => (
            AppState::WxInit,
            licensed && s != AppState::SidecarDead,
        ),
        StateEvent::Ready => (AppState::Ready, s != AppState::SidecarDead),
        StateEvent::Busy => (AppState::Busy, s == AppState::Ready),
        StateEvent::Idle => (AppState::Ready, s == AppState::Busy),
        StateEvent::Online(true) => (AppState::Ready, s == AppState::Degraded),
        StateEvent::Online(false) => (AppState::Degraded, s == AppState::Ready),
        StateEvent::SidecarDied => (AppState::SidecarDead, true),
        StateEvent::Degraded => (AppState::Degraded, s != AppState::SidecarDead),
    }
}

/// Every event is such a step: whoever listens is told of exactly the changes, each once.
pub proof fn law_every_event_is_a_step(s: AppState, e: StateEvent)
    ensures
        state_after(s, e) == stepped(s, step_for(s, e).0, step_for(s, e).1),
        state_after(s, e) != s ==> change(s, state_after(s, e)) == Some((s, state_after(s, e))),
        state_after(s, e) == s ==> change(s, state_after(s, e)) is None,
{
}

/// `SidecarDead` is final: no sequence of events leads out of it.
pub proof fn law_dead_is_final(events: Seq<StateEvent>)
    ensures
        state_after_all(AppState::SidecarDead, events) == AppState::SidecarDead,
    decreases events.len(),
{
    if events.len() > 0 {
        law_dead_is_final(events.drop_last());
    }
}

/// However events interleave, once the sidecar has died the state is and stays
/// `SidecarDead`.
pub proof fn law_death_wins(s: AppState, before: Seq<StateEvent>, after: Seq<StateEvent>)
    ensures
        state_after_all(s, before.push(StateEvent::SidecarDied) + after) == AppState::SidecarDead,
    decreases after.len(),
{
    let all = before.push(StateEvent::SidecarDied) + after;
    if after.len() == 0 {
        assert(all =~= before.push(StateEvent::SidecarDied));
    } else {
        law_death_wins(s, before, after.drop_last());
        assert(all.drop_last() =~= before.push(StateEvent::SidecarDied) + after.drop_last());
    }
}

/// Only the death of the sidecar leads into `SidecarDead`, only `Ready` leads into `Busy`,
/// and a probe leads from `Ready` to `Degraded` or back and nowhere else.
pub proof fn law_guarded_transitions(s: AppState, e: StateEvent)
    ensures
        state_after(s, e) == AppState::SidecarDead && s != AppState::SidecarDead ==> e
            is SidecarDied,
        state_after(s, e) == AppState::Busy && s != AppState::Busy ==> s == AppState::Ready && e
            is Busy,
        e is Online && state_after(s, e) != s ==> (s == AppState::Ready && state_after(s, e)
            == AppState::Degraded) || (s == AppState::Degraded && state_after(s, e)
            == AppState::Ready),
{
}

/// Where the supervision of the sidecar stands.
#[derive(Debug, Clone, Copy, PartialEq, Eq, Structural)]
pub enum Phase {
    Constructed,
    InitSequence,
    AwaitExit,
    Backoff,
    Spawn,
    Stopped,
}

impl Phase {
    /// The phase's name.
    pub open spec fn name(self) -> Seq<char> {
        match self {
            Phase::Constructed => "constructed"@,
            Phase::InitSequence => "init_sequence"@,
            Phase::AwaitExit => "await_exit"@,
            Phase::Backoff => "backoff"@,
            Phase::Spawn => "spawn"@,
            Phase::Stopped => "stopped"@,
        }
    }

    /// The phase's name.
    pub fn as_str(&self) -> (r: &'static str)
        ensures
            r@ == self.name(),
    {
        match self {
            Phase::Constructed => "constructed",
            Phase::InitSequence => "init_sequence",
            Phase::AwaitExit => "await_exit",
            Phase::Backoff => "backoff",
            Phase::Spawn => "spawn",
            Phase::Stopped => "stopped",
        }
    }
}

/// Why the last start-up of the sidecar did not lead to service.
pub struct InitFail {
    /// `licensed` or `wechat_missing`.
    pub reason: String,
    /// What the sidecar had to say about it.
    pub detail: Option<String>,
}

/// What an [`InitFail`] says.
pub struct InitFailView {
    pub reason: Seq<char>,
    pub detail: Option<Seq<char>>,
}

impl View for InitFail {
    type V = InitFailView;

    open spec fn view(&self) -> InitFailView {
        InitFailView { reason: self.reason@, detail: opt_text(self.detail) }
    }
}

/// An optional failure, as what it says.
pub open spec fn opt_fail(o: Option<InitFail>) -> Option<InitFailView> {
    match o {
        Some(f) => Some(f@),
        None => None,
    }
}

/// Why a start-up answer does not lead to service: it has no licence, or names a reason
/// of its own. A missing licence without a reason is given the reason `licensed`.
pub open spec fn init_refusal(t: JsonTree) -> Option<InitFailView> {
    let reason = t.get_str("failReason"@);
    if t.get_bool("licensed"@) == Some(true) && reason is None {
        None
    } else {
        Some(
            InitFailView {
                reason: match reason {
                    Some(r) => r,
                    None => "licensed"@,
                },
                detail: t.get_str("failDetail"@),
            },
        )
    }
}

/// The frame that tells the front end why the start-up failed.
pub open spec fn init_fail_tree(reason: Seq<char>) -> JsonTree {
    JsonTree::object().put("kind"@, JsonTree::Str("event"@)).put(
        "type"@,
        JsonTree::Str("init_fail"@),
    ).put("data"@, JsonTree::object().put("reason"@, JsonTree::Str(reason)))
}

/// What to do after a start-up call.
pub enum InitStep {
    /// Wait so many milliseconds, then call again.
    Retry(u64),
    /// Every try timed out: end the sidecar, so that the restart takes over.
    Shutdown,
    /// The call failed: leave the state alone; the restart takes over if the sidecar died.
    Abandon,
    /// The start-up was refused: send this frame, and go on booting.
    Report(Json),
    /// Licensed and running: replay the listeners. The change of state is to be reported.
    Proceed(Option<(AppState, AppState)>),
}

/// What an [`InitStep`] says.
pub enum InitStepView {
    Retry(u64),
    Shutdown,
    Abandon,
    Report(JsonTree),
    Proceed(Option<(AppState, AppState)>),
}

impl View for InitStep {
    type V = InitStepView;

    open spec fn view(&self) -> InitStepView {
        match self {
            InitStep::Retry(ms) => InitStepView::Retry(*ms),
            InitStep::Shutdown => InitStepView::Shutdown,
            InitStep::Abandon => InitStepView::Abandon,
            InitStep::Report(j) => InitStepView::Report(j@),
            InitStep::Proceed(c) => InitStepView::Proceed(*c),
        }
    }
}

/// What follows start-up call number `attempt`, counted from 0, that ended in `r`, in state
/// `s`, with the given pauses before further tries. Only a timeout is worth another try.
pub open spec fn init_step(
    gaps: Seq<u64>,
    attempt: nat,
    r: Result<JsonTree, RpcErrorView>,
    s: AppState,
) -> InitStepView {
    match r {
        Err(RpcErrorView::Timeout) => if attempt < gaps.len() {
            InitStepView::Retry(gaps[attempt as int])
        } else {
            InitStepView::Shutdown
        },
        Err(_) => InitStepView::Abandon,
        Ok(t) => match init_refusal(t) {
            Some(f) => InitStepView::Report(init_fail_tree(f.reason)),
            None => InitStepView::Proceed(
                change(s, state_after(s, StateEvent::WxInit { licensed: true })),
            ),
        },
    }
}

/// What happens to the supervision.
#[derive(Debug, Clone, Copy, PartialEq, Eq, Structural)]
pub enum SupervisorEvent {
    /// It begins. The first sidecar is running already.
    Start,
    /// The start-up of the sidecar is over, however it ended.
    InitOver,
    /// The sidecar has ended after so many milliseconds.
    Exited { uptime: u64 },
    /// The sidecar's end can no longer be observed.
    WatchLost,
    /// The pause before a restart is over.
    Waited,
    /// A new sidecar has been started, or could not be.
    Spawned { started: bool },
}

/// What the supervision does next.
#[derive(Debug, Clone, Copy, PartialEq, Eq, Structural)]
pub enum SupervisorAction {
    /// Go through the start-up of the sidecar.
    Init,
    /// Wait for the sidecar's end.
    AwaitExit,
    /// Wait so many milliseconds.
    Wait(u64),
    /// Start a new sidecar, in the place of the old one.
    Spawn,
    /// Give up: the sidecar is dead, and the supervision ends.
    GiveUp,
    /// Nothing: the event does not belong here.
    Ignore,
}

/// Supervision: how often the sidecar has failed in a row, and what it will bear.
pub struct Supervisor {
    failures: usize,
    lived_long: bool,
    phase: Phase,
    backoff: Vec<u64>,
    init_timeout: u64,
    init_gaps: Vec<u64>,
    last_init_fail: Option<InitFail>,
}

/// What supervision knows.
pub struct SupervisorState {
    /// Failures in a row.
    pub failures: nat,
    /// Whether the last sidecar lived long enough for its end to be an accident.
    pub lived_long: bool,
    pub phase: Phase,
    /// The pauses before restarts.
    pub backoff: Seq<u64>,
    pub init_timeout: u64,
    /// The pauses before further start-up calls.
    pub init_gaps: Seq<u64>,
    pub last_init_fail: Option<InitFailView>,
}

impl SupervisorState {
    /// The end of a sidecar that lived for `uptime` milliseconds: one failure more, and
    /// with it the pause before the restart, or the end of all restarts.
    pub open spec fn after_exit(self, uptime: u64) -> (SupervisorState, SupervisorAction) {
        let next = SupervisorState {
            failures: self.failures + 1,
            lived_long: uptime >= SIDECAR_MIN_UPTIME,
            ..self
        };
        if next.failures <= self.backoff.len() {
            (
                SupervisorState { phase: Phase::Backoff, ..next },
                SupervisorAction::Wait(self.backoff[next.failures - 1]),
            )
        } else {
            (SupervisorState { phase: Phase::Stopped, ..next }, SupervisorAction::GiveUp)
        }
    }

    /// The outcome of a start: the count begins anew only if a new sidecar runs and the
    /// last one lived long enough.
    pub open spec fn after_spawn(self, started: bool) -> SupervisorState {
        SupervisorState {
            failures: if started && self.lived_long {
                0
            } else {
                self.failures
            },
            phase: Phase::InitSequence,
            ..self
        }
    }

    /// What an event leads to. One that does not belong into the phase changes nothing.
    pub open spec fn step(self, e: SupervisorEvent) -> (SupervisorState, SupervisorAction) {
        match (self.phase, e) {
            (Phase::Constructed, SupervisorEvent::Start) => (
                SupervisorState { phase: Phase::InitSequence, ..self },
                SupervisorAction::Init,
            ),
            (Phase::InitSequence, SupervisorEvent::InitOver) => (
                SupervisorState { phase: Phase::AwaitExit, ..self },
                SupervisorAction::AwaitExit,
            ),
            (Phase::AwaitExit, SupervisorEvent::Exited { uptime }) => self.after_exit(uptime),
            (Phase::AwaitExit, SupervisorEvent::WatchLost) => (
                SupervisorState { phase: Phase::Stopped, ..self },
                SupervisorAction::GiveUp,
            ),
            (Phase::Backoff, SupervisorEvent::Waited) => (
                SupervisorState { phase: Phase::Spawn, ..self },
                SupervisorAction::Spawn,
            ),
            (Phase::Spawn, SupervisorEvent::Spawned { started }) => (
                self.after_spawn(started),
                SupervisorAction::Init,
            ),
            _ => (self, SupervisorAction::Ignore),
        }
    }

    /// The failures are within what the pauses allow.
    pub open spec fn valid(self) -> bool {
        self.phase != Phase::Stopped ==> self.failures <= self.backoff.len()
    }
}

/// Copies a table of pauses.
fn copy_table(t: &[u64]) -> (r: Vec<u64>)
    ensures
        r@ == t@,
{
    let mut out: Vec<u64> = Vec::new();
    let mut i: usize = 0;
    while i < t.len()
        invariant
            i <= t@.len(),
            out@ == t@.take(i as int),
        decreases t.len() - i,
    {
        out.push(t[i]);
        i = i + 1;
        assert(out@ =~= t@.take(i as int));
    }
    assert(t@.take(i as int) =~= t@);
    out
}

impl Supervisor {
    /// What supervision knows.
    pub closed spec fn view(&self) -> SupervisorState {
        SupervisorState {
            failures: self.failures as nat,
            lived_long: self.lived_long,
            phase: self.phase,
            backoff: self.backoff@,
            init_timeout: self.init_timeout,
            init_gaps: self.init_gaps@,
            last_init_fail: opt_fail(self.last_init_fail),
        }
    }

    /// Supervision with the usual pauses.
    pub fn new() -> (r: Supervisor)
        ensures
            r.view() == (SupervisorState {
                failures: 0,
                lived_long: false,
                phase: Phase::Constructed,
                backoff: RESTART_BACKOFF@,
                init_timeout: INIT_TIMEOUT,
                init_gaps: INIT_RETRY_GAPS@,
                last_init_fail: None,
            }),
            r.view().valid(),
    {
        Supervisor {
            failures: 0,
            lived_long: false,
            phase: Phase::Constructed,
            backoff: copy_table(&RESTART_BACKOFF),
            init_timeout: INIT_TIMEOUT,
            init_gaps: copy_table(&INIT_RETRY_GAPS),
            last_init_fail: None,
        }
    }

    /// The same supervision with other pauses before restarts; there are as many restarts
    /// as pauses.
    pub fn with_backoff(self, backoff: Vec<u64>) -> (r: Supervisor)
        requires
            self.view().failures == 0,
        ensures
            r.view() == (SupervisorState { backoff: backoff@, ..self.view() }),
            r.view().valid(),
    {
        Supervisor { backoff, ..self }
    }

    /// The same supervision with another time and other pauses for the start-up call.
    pub fn with_init_retry(self, timeout: u64, gaps: Vec<u64>) -> (r: Supervisor)
        ensures
            r.view() == (SupervisorState { init_timeout: timeout, init_gaps: gaps@, ..self.view() }),
    {
        Supervisor { init_timeout: timeout, init_gaps: gaps, ..self }
    }

    /// The name of the current phase.
    pub fn current_phase(&self) -> (r: &'static str)
        ensures
            r@ == self.view().phase.name(),
    {
        self.phase.as_str()
    }

    /// How long the start-up call may take, in milliseconds.
    pub fn init_timeout(&self) -> (r: u64)
        ensures
            r == self.view().init_timeout,
    {
        self.init_timeout
    }

    /// Why the last start-up did not lead to service.
    pub fn last_init_fail(&self) -> (r: Option<&InitFail>)
        ensures
            match r {
                Some(f) => self.view().last_init_fail == Some(f@),
                None => self.view().last_init_fail is None,
            },
    {
        match &self.last_init_fail {
            Some(f) => Some(f),
            None => None,
        }
    }

    /// Takes in an event and says what to do next. When supervision gives up, the state
    /// becomes `SidecarDead`; the change is to be reported.
    pub fn run(&mut self, event: SupervisorEvent, machine: &mut AppStateMachine) -> (r: (
        SupervisorAction,
        Option<(AppState, AppState)>,
    ))
        requires
            old(self).view().valid(),
            old(self).view().backoff.len() < usize::MAX,
        ensures
            (final(self).view(), r.0) == old(self).view().step(event),
            final(self).view().valid(),
            final(machine).view() == if r.0 == SupervisorAction::GiveUp {
                state_after(old(machine).view(), StateEvent::SidecarDied)
            } else {
                old(machine).view()
            },
            r.1 == change(old(machine).view(), final(machine).view()),
    {
        match (self.phase, event) {
            (Phase::Constructed, SupervisorEvent::Start) => {
                self.phase = Phase::InitSequence;
                (SupervisorAction::Init, None)
            },
            (Phase::InitSequence, SupervisorEvent::InitOver) => {
                self.phase = Phase::AwaitExit;
                (SupervisorAction::AwaitExit, None)
            },
            (Phase::AwaitExit, SupervisorEvent::Exited { uptime }) => {
                self.lived_long = uptime >= SIDECAR_MIN_UPTIME;
                self.failures = self.failures + 1;
                if self.failures <= self.backoff.len() {
                    self.phase = Phase::Backoff;
                    (SupervisorAction::Wait(self.backoff[self.failures - 1]), None)
                } else {
                    self.phase = Phase::Stopped;
                    (SupervisorAction::GiveUp, machine.mark_sidecar_died())
                }
            },
            (Phase::AwaitExit, SupervisorEvent::WatchLost) => {
                self.phase = Phase::Stopped;
                (SupervisorAction::GiveUp, machine.mark_sidecar_died())
            },
            (Phase::Backoff, SupervisorEvent::Waited) => {
                self.phase = Phase::Spawn;
                (SupervisorAction::Spawn, None)
            },
            (Phase::Spawn, SupervisorEvent::Spawned { started }) => {
                if started && self.lived_long {
                    self.failures = 0;
                }
                self.phase = Phase::InitSequence;
                (SupervisorAction::Init, None)
            },
            _ => (SupervisorAction::Ignore, None),
        }
    }

    /// What follows start-up call number `attempt`, counted from 0.
    fn after_init_call(
        &mut self,
        attempt: usize,
        result: &Result<Json, RpcError>,
        machine: &mut AppStateMachine,
    ) -> (r: InitStep)
        ensures
            r@ == init_step(
                old(self).view().init_gaps,
                attempt as nat,
                outcome(*result),
                old(machine).view(),
            ),
            final(self).view() == (SupervisorState {
                last_init_fail: match outcome(*result) {
                    Ok(t) => init_refusal(t),
                    Err(_) => old(self).view().last_init_fail,
                },
                ..old(self).view()
            }),
            final(machine).view() == if r is Proceed {
                state_after(old(machine).view(), StateEvent::WxInit { licensed: true })
            } else {
                old(machine).view()
            },
    {
        match result {
            Err(RpcError::Timeout) => if attempt < self.init_gaps.len() {
                InitStep::Retry(self.init_gaps[attempt])
            } else {
                InitStep::Shutdown
            },
            Err(_) => InitStep::Abandon,
            Ok(answer) => {
                let licensed = match answer.get_bool("licensed") {
                    Some(b) => b,
                    None => false,
                };
                let reason = answer.get_str("failReason");
                if licensed && reason.is_none() {
                    self.last_init_fail = None;
                    InitStep::Proceed(machine.mark_wx_init(true))
                } else {
                    let reason = match reason {
                        Some(s) => s.to_owned(),
                        None => "licensed".to_owned(),
                    };
                    let detail = match answer.get_str("failDetail") {
                        Some(s) => Some(s.to_owned()),
                        None => None,
                    };
                    let frame = init_fail_event(reason.as_str());
                    self.last_init_fail = Some(InitFail { reason, detail });
                    InitStep::Report(frame)
                }
            },
        }
    }
}

/// How far the start-up of a sidecar has come.
#[derive(Debug, Clone, Copy, PartialEq, Eq, Structural)]
pub enum InitStage {
    Calling,
    Pausing,
    Resyncing,
    Probing,
    Over,
}

/// The start-up of a sidecar: the start-up call, tried again after a timeout; then the
/// listeners; then a look at WeChat, for the status.
pub struct InitSequence {
    attempt: usize,
    stage: InitStage,
}

/// How far the start-up has come, and how many calls have timed out.
pub struct InitSequenceState {
    pub attempt: nat,
    pub stage: InitStage,
}

/// What happens in the start-up.
pub enum InitEvent {
    /// The start-up call has ended.
    Called(Result<Json, RpcError>),
    /// The pause is over.
    Paused,
    /// The sidecar has been asked to listen to every chat on the list.
    Resynced,
    /// WeChat has been looked at; so many chats are listened to.
    Probed { health: WxHealth, listeners: usize },
}

/// What the start-up does next.
pub enum InitAction {
    /// Make the start-up call, within so many milliseconds.
    Call(u64),
    /// Wait so many milliseconds.
    Pause(u64),
    /// End the sidecar; the start-up is over.
    Shutdown,
    /// Send this frame; the start-up is over.
    Report(Json),
    /// Ask the sidecar to listen to every chat on the list. The change of state is to be
    /// reported.
    Resync(Option<(AppState, AppState)>),
    /// Look at WeChat. The change of state is to be reported.
    Probe(Option<(AppState, AppState)>),
    /// Send this status; the start-up is over.
    Announce(Json),
    /// Nothing; the start-up is over, or the event does not belong here.
    Nothing,
}

/// The start-up after its call has ended in a way that calls for a step.
pub open spec fn init_after_call(s: InitSequenceState, step: InitStepView) -> InitSequenceState {
    match step {
        InitStepView::Retry(_) => InitSequenceState {
            attempt: s.attempt + 1,
            stage: InitStage::Pausing,
        },
        InitStepView::Proceed(_) => InitSequenceState { stage: InitStage::Resyncing, ..s },
        _ => InitSequenceState { stage: InitStage::Over, ..s },
    }
}

/// Whether an action is what a step calls for.
pub open spec fn action_for_step(a: InitAction, step: InitStepView) -> bool {
    match step {
        InitStepView::Retry(ms) => a == InitAction::Pause(ms),
        InitStepView::Shutdown => a == InitAction::Shutdown,
        InitStepView::Abandon => a == InitAction::Nothing,
        InitStepView::Report(t) => a matches InitAction::Report(j) && j@ == t,
        InitStepView::Proceed(c) => a == InitAction::Resync(c),
    }
}

impl InitSequence {
    /// How far the start-up has come.
    pub closed spec fn view(&self) -> InitSequenceState {
        InitSequenceState { attempt: self.attempt as nat, stage: self.stage }
    }

    /// The start-up begins with its call.
    pub fn begin(supervisor: &Supervisor) -> (r: (InitSequence, InitAction))
        ensures
            r.0.view() == (InitSequenceState { attempt: 0, stage: InitStage::Calling }),
            r.1 == InitAction::Call(supervisor.view().init_timeout),
    {
        (
            InitSequence { attempt: 0, stage: InitStage::Calling },
            InitAction::Call(supervisor.init_timeout()),
        )
    }

    /// Takes in an event and says what to do next. An event that does not belong here
    /// changes nothing.
    pub fn step(
        &mut self,
        event: InitEvent,
        supervisor: &mut Supervisor,
        machine: &mut AppStateMachine,
        ids: &mut EventIds,
    ) -> (r: InitAction)
        requires
            old(self).view().attempt < usize::MAX,
        ensures
            match (old(self).view().stage, event) {
                (InitStage::Calling, InitEvent::Called(result)) => {
                    let step = init_step(
                        old(supervisor).view().init_gaps,
                        old(self).view().attempt,
                        outcome(result),
                        old(machine).view(),
                    );
                    &&& action_for_step(r, step)
                    &&& final(self).view() == init_after_call(old(self).view(), step)
                    &&& final(supervisor).view() == (SupervisorState {
                        last_init_fail: match outcome(result) {
                            Ok(t) => init_refusal(t),
                            Err(_) => old(supervisor).view().last_init_fail,
                        },
                        ..old(supervisor).view()
                    })
                    &&& final(machine).view() == if step is Proceed {
                        state_after(old(machine).view(), StateEvent::WxInit { licensed: true })
                    } else {
                        old(machine).view()
                    }
                    &&& final(ids).view() == old(ids).view()
                },
                (InitStage::Pausing, InitEvent::Paused) => {
                    &&& r == InitAction::Call(old(supervisor).view().init_timeout)
                    &&& final(self).view() == (InitSequenceState {
                        stage: InitStage::Calling,
                        ..old(self).view()
                    })
                    &&& final(supervisor).view() == old(supervisor).view()
                    &&& final(machine).view() == old(machine).view()
                    &&& final(ids).view() == old(ids).view()
                },
                (InitStage::Resyncing, InitEvent::Resynced) => {
                    &&& r == InitAction::Probe(change(old(machine).view(), final(machine).view()))
                    &&& final(self).view() == (InitSequenceState {
                        stage: InitStage::Probing,
                        ..old(self).view()
                    })
                    &&& final(supervisor).view() == old(supervisor).view()
                    &&& final(machine).view() == state_after(
                        old(machine).view(),
                        StateEvent::Ready,
                    )
                    &&& final(ids).view() == old(ids).view()
                },
                (InitStage::Probing, InitEvent::Probed { health, listeners }) => {
                    &&& r matches InitAction::Announce(f) && fresh_event(
                        f@,
                        "status"@,
                        status_data(health.online(), health.name(), listeners as nat, true),
                        old(ids).view(),
                    )
                    &&& final(self).view() == (InitSequenceState {
                        stage: InitStage::Over,
                        ..old(self).view()
                    })
                    &&& final(supervisor).view() == old(supervisor).view()
                    &&& final(machine).view() == old(machine).view()
                    &&& final(ids).view() == seq_after(old(ids).view())
                },
                _ => {
                    &&& r == InitAction::Nothing
                    &&& final(self).view() == old(self).view()
                    &&& final(supervisor).view() == old(supervisor).view()
                    &&& final(machine).view() == old(machine).view()
                    &&& final(ids).view() == old(ids).view()
                },
            },
    {
        match (self.stage, event) {
            (InitStage::Calling, InitEvent::Called(result)) => {
                match supervisor.after_init_call(self.attempt, &result, machine) {
                    InitStep::Retry(ms) => {
                        self.attempt = self.attempt + 1;
                        self.stage = InitStage::Pausing;
                        InitAction::Pause(ms)
                    },
                    InitStep::Shutdown => {
                        self.stage = InitStage::Over;
                        InitAction::Shutdown
                    },
                    InitStep::Abandon => {
                        self.stage = InitStage::Over;
                        InitAction::Nothing
                    },
                    InitStep::Report(f) => {
                        self.stage = InitStage::Over;
                        InitAction::Report(f)
                    },
                    InitStep::Proceed(c) => {
                        self.stage = InitStage::Resyncing;
                        InitAction::Resync(c)
                    },
                }
            },
            (InitStage::Pausing, InitEvent::Paused) => {
                self.stage = InitStage::Calling;
                InitAction::Call(supervisor.init_timeout())
            },
            (InitStage::Resyncing, InitEvent::Resynced) => {
                self.stage = InitStage::Probing;
                InitAction::Probe(machine.mark_ready())
            },
            (InitStage::Probing, InitEvent::Probed { health, listeners }) => {
                self.stage = InitStage::Over;
                InitAction::Announce(connection_status(&health, listeners, ids))
            },
            _ => InitAction::Nothing,
        }
    }
}

/// The frame that tells the front end why the start-up failed.
pub fn init_fail_event(reason: &str) -> (r: Json)
    ensures
        r@ == init_fail_tree(reason@),
{
    Json::object().put("kind", Json::text("event")).put("type", Json::text("init_fail")).put(
        "data",
        Json::object().put("reason", Json::text(reason)),
    )
}

/// One life of a sidecar: how long it lived, and whether its successor could be started.
pub struct Life {
    pub uptime: u64,
    pub started: bool,
}

/// What supervision knows after a life, which begins with waiting for its end and ends with
/// waiting for the next one's, and the pause that it made: none where it gave up.
pub open spec fn live(s: SupervisorState, life: Life) -> (SupervisorState, Option<u64>) {
    let (s1, a1) = s.step(SupervisorEvent::Exited { uptime: life.uptime });
    match a1 {
        SupervisorAction::Wait(ms) => {
            let (s2, _a2) = s1.step(SupervisorEvent::Waited);
            let (s3, _a3) = s2.step(SupervisorEvent::Spawned { started: life.started });
            let (s4, _a4) = s3.step(SupervisorEvent::InitOver);
            (s4, Some(ms))
        },
        _ => (s1, None),
    }
}

/// What supervision knows after a number of lives, and the pauses that it has made: each
/// with one restart behind it.
pub open spec fn supervise(s: SupervisorState, lives: Seq<Life>) -> (SupervisorState, Seq<u64>)
    decreases lives.len(),
{
    if lives.len() == 0 {
        (s, Seq::empty())
    } else {
        let (before, pauses) = supervise(s, lives.drop_last());
        match live(before, lives.last()) {
            (after, Some(ms)) => (after, pauses.push(ms)),
            (after, None) => (after, pauses),
        }
    }
}

/// A sidecar that never lives long, or can never be started, is restarted exactly as often
/// as there are pauses, with the pauses in order, and then given up for good: the number of
/// restarts is the number of pauses and never one more.
pub proof fn law_restarts_are_bounded(s: SupervisorState, lives: Seq<Life>)
    requires
        s.failures == 0,
        s.phase == Phase::AwaitExit,
        forall|i: int|
            0 <= i < lives.len() ==> (#[trigger] lives[i]).uptime < SIDECAR_MIN_UPTIME
                || !lives[i].started,
    ensures
        ({
            let (end, pauses) = supervise(s, lives);
            &&& end.backoff == s.backoff
            &&& if lives.len() <= s.backoff.len() {
                &&& pauses == s.backoff.take(lives.len() as int)
                &&& end.phase == Phase::AwaitExit
                &&& end.failures == lives.len()
            } else {
                &&& pauses == s.backoff
                &&& end.phase == Phase::Stopped
            }
        }),
    decreases lives.len(),
{
    if lives.len() == 0 {
        assert(s.backoff.take(0) =~= Seq::empty());
    } else {
        let init = lives.drop_last();
        assert forall|i: int| 0 <= i < init.len() implies (#[trigger] init[i]).uptime
            < SIDECAR_MIN_UPTIME || !init[i].started by {
            assert(init[i] == lives[i]);
        }
        law_restarts_are_bounded(s, init);
        assert(lives.last() == lives[lives.len() - 1]);
        if lives.len() <= s.backoff.len() {
            assert(s.backoff.take(init.len() as int).push(s.backoff[init.len() as int])
                =~= s.backoff.take(lives.len() as int));
        } else if init.len() == s.backoff.len() {
            assert(s.backoff.take(init.len() as int) =~= s.backoff);
        }
    }
}

/// Supervision that has given up does nothing more, whatever happens.
pub proof fn law_giving_up_is_final(s: SupervisorState, e: SupervisorEvent)
    requires
        s.phase == Phase::Stopped,
    ensures
        s.step(e) == (s, SupervisorAction::Ignore),
{
}

/// A sidecar that lived long, and whose successor starts, counts from the beginning again.
pub proof fn law_long_life_is_forgiven(s: SupervisorState, uptime: u64)
    requires
        uptime >= SIDECAR_MIN_UPTIME,
        s.phase == Phase::AwaitExit,
        s.failures < s.backoff.len(),
    ensures
        live(s, Life { uptime, started: true }).0.failures == 0,
        live(s, Life { uptime, started: true }).1 == Some(s.backoff[s.failures as int]),
{
}

/// Nothing but a timeout is tried again or has the sidecar ended.
pub proof fn law_only_timeouts_are_tried_again(
    gaps: Seq<u64>,
    attempt: nat,
    r: Result<JsonTree, RpcErrorView>,
    s: AppState,
)
    ensures
        init_step(gaps, attempt, r, s) is Retry ==> r == Err::<JsonTree, RpcErrorView>(
            RpcErrorView::Timeout,
        ),
        init_step(gaps, attempt, r, s) is Shutdown ==> r == Err::<JsonTree, RpcErrorView>(
            RpcErrorView::Timeout,
        ),
{
}

/// How many start-up calls are made, from number `attempt` on, when they would end one after
/// the other in the given ways.
pub open spec fn init_calls(
    gaps: Seq<u64>,
    attempt: nat,
    ends: Seq<Result<JsonTree, RpcErrorView>>,
    s: AppState,
) -> nat
    decreases ends.len(),
{
    if ends.len() == 0 {
        0
    } else if init_step(gaps, attempt, ends[0], s) is Retry {
        1 + init_calls(gaps, attempt + 1, ends.drop_first(), s)
    } else {
        1
    }
}

/// The start-up call is made at most once more than there are pauses, counted from the first;
/// and exactly as often if every call times out.
pub proof fn law_init_tries_are_bounded(
    gaps: Seq<u64>,
    attempt: nat,
    ends: Seq<Result<JsonTree, RpcErrorView>>,
    s: AppState,
)
    requires
        attempt <= gaps.len(),
    ensures
        init_calls(gaps, attempt, ends, s) <= gaps.len() + 1 - attempt,
        ends.len() > gaps.len() - attempt && (forall|i: int|
            0 <= i < ends.len() ==> #[trigger] ends[i] == Err::<JsonTree, RpcErrorView>(
                RpcErrorView::Timeout,
            )) ==> init_calls(gaps, attempt, ends, s) == gaps.len() + 1 - attempt,
    decreases ends.len(),
{
    if ends.len() > 0 {
        let rest = ends.drop_first();
        assert forall|i: int| 0 <= i < rest.len() implies rest[i] == ends[i + 1] by {}
        if attempt < gaps.len() {
            law_init_tries_are_bounded(gaps, attempt + 1, rest, s);
        }
    }
}

/// Where each event leads: a licensed start-up to `WxInit`, registered listeners to `Ready`, a
/// command from `Ready` to `Busy` and its end back, a WeChat that is gone from `Ready` to
/// `Degraded` and its return back. From everywhere else an event of these leads nowhere, and
/// nothing but the end of all restarts touches a dead sidecar.
pub proof fn law_events_lead_where_they_should(s: AppState, e: StateEvent)
    ensures
        ({
            let t = state_after(s, e);
            match e {
                StateEvent::WxInit { licensed } => if s == AppState::SidecarDead || !licensed {
                    t == s
                } else {
                    t == AppState::WxInit
                },
                StateEvent::Ready => if s == AppState::SidecarDead {
                    t == s
                } else {
                    t == AppState::Ready
                },
                StateEvent::Busy => (s == AppState::Ready ==> t == AppState::Busy) && (s
                    != AppState::Ready ==> t == s),
                StateEvent::Idle => (s == AppState::Busy ==> t == AppState::Ready) && (s
                    != AppState::Busy ==> t == s),
                StateEvent::Online(online) => {
                    &&& s == AppState::Ready ==> t == if online {
                        AppState::Ready
                    } else {
                        AppState::Degraded
                    }
                    &&& s == AppState::Degraded ==> t == if online {
                        AppState::Ready
                    } else {
                        AppState::Degraded
                    }
                    &&& s != AppState::Ready && s != AppState::Degraded ==> t == s
                },
                StateEvent::SidecarDied => t == AppState::SidecarDead,
                StateEvent::Degraded => if s == AppState::SidecarDead {
                    t == s
                } else {
                    t == AppState::Degraded
                },
            }
        }),
{
}

/// A command that begins in service and ends leads back into service, and so does WeChat that
/// goes and comes back; doing either twice in a row changes nothing more.
pub proof fn law_service_is_resumed(s: AppState)
    requires
        s == AppState::Ready,
    ensures
        state_after(state_after(s, StateEvent::Busy), StateEvent::Idle) == s,
        state_after(state_after(s, StateEvent::Online(false)), StateEvent::Online(true)) == s,
        state_after(state_after(s, StateEvent::Busy), StateEvent::Online(false))
            == AppState::Busy,
        state_after(state_after(s, StateEvent::Busy), StateEvent::Busy) == AppState::Busy,
        change(s, state_after(s, StateEvent::Busy)) == Some((AppState::Ready, AppState::Busy)),
        change(s, state_after(s, StateEvent::Online(false))) == Some(
            (AppState::Ready, AppState::Degraded),
        ),
        change(s, state_after(s, StateEvent::Online(true))) is None,
{
}

/// The end of a sidecar is followed by the pause that belongs to the number of failures in a row,
/// then by a restart; where there is no such pause, by the end of all restarts. Whatever else
/// supervision was told stays as it was.
pub proof fn law_restart_follows_its_pause(s: SupervisorState, uptime: u64, started: bool)
    requires
        s.phase == Phase::AwaitExit,
    ensures
        ({
            let (s1, a1) = s.step(SupervisorEvent::Exited { uptime });
            let (s2, a2) = s1.step(SupervisorEvent::Waited);
            let (s3, a3) = s2.step(SupervisorEvent::Spawned { started });
            let (s4, a4) = s3.step(SupervisorEvent::InitOver);
            if s.failures < s.backoff.len() {
                &&& a1 == SupervisorAction::Wait(s.backoff[s.failures as int])
                &&& a2 == SupervisorAction::Spawn
                &&& a3 == SupervisorAction::Init
                &&& a4 == SupervisorAction::AwaitExit
                &&& s1.phase == Phase::Backoff && s2.phase == Phase::Spawn
                &&& s3.phase == Phase::InitSequence && s4.phase == Phase::AwaitExit
                &&& s4.failures == if started && uptime >= 30_000 {
                    0
                } else {
                    s.failures + 1
                }
                &&& s4.backoff == s.backoff && s4.init_timeout == s.init_timeout
                &&& s4.init_gaps == s.init_gaps && s4.last_init_fail == s.last_init_fail
            } else {
                &&& a1 == SupervisorAction::GiveUp
                &&& s1.phase == Phase::Stopped
                &&& a2 == SupervisorAction::Ignore && a3 == SupervisorAction::Ignore && a4
                    == SupervisorAction::Ignore
            }
        }),
{
}

/// The usual pauses before restarts double from one second to sixteen, five of them, and a life of
/// half a minute is a long one; a start-up call may take ten seconds, and is tried again twice,
/// after five seconds each.
pub proof fn law_usual_pauses(i: int)
    ensures
        RESTART_BACKOFF@.len() == 5,
        RESTART_BACKOFF@[0] == 1_000,
        0 < i < 5 ==> RESTART_BACKOFF@[i] == 2 * RESTART_BACKOFF@[i - 1],
        SIDECAR_MIN_UPTIME == 30_000,
        INIT_TIMEOUT == 10_000,
        INIT_RETRY_GAPS@.len() == 2,
        0 <= i < 2 ==> INIT_RETRY_GAPS@[i] == 5_000,
{
}

/// Supervision goes round in its order: start-up, wait for the end, pause, restart. An event that
/// does not belong where it stands changes nothing, and it gives up only when the pauses are used
/// up or the sidecar can no longer be observed.
pub proof fn law_supervision_keeps_its_order(s: SupervisorState, e: SupervisorEvent)
    ensures
        ({
            let (t, a) = s.step(e);
            &&& a == SupervisorAction::Init <==> (s.phase == Phase::Constructed && e is Start) || (
            s.phase == Phase::Spawn && e is Spawned)
            &&& a == SupervisorAction::AwaitExit <==> s.phase == Phase::InitSequence && e is InitOver
            &&& a is Wait <==> s.phase == Phase::AwaitExit && e is Exited && s.failures
                < s.backoff.len()
            &&& a == SupervisorAction::Spawn <==> s.phase == Phase::Backoff && e is Waited
            &&& a == SupervisorAction::GiveUp <==> s.phase == Phase::AwaitExit && (e is WatchLost || (e
                is Exited && s.failures >= s.backoff.len()))
            &&& a == SupervisorAction::GiveUp <==> s.phase != Phase::Stopped && t.phase
                == Phase::Stopped
            &&& a == SupervisorAction::Ignore ==> t == s
            &&& a == SupervisorAction::Init ==> t.phase == Phase::InitSequence
            &&& a == SupervisorAction::AwaitExit ==> t.phase == Phase::AwaitExit && t.failures
                == s.failures
            &&& t.backoff == s.backoff && t.init_timeout == s.init_timeout && t.init_gaps
                == s.init_gaps && t.last_init_fail == s.last_init_fail
        }),
{
}

/// A start-up leads to service exactly where the answer has a licence and names no reason against
/// it. Otherwise the reason that it names is the reason, word for word, and a missing licence is
/// one of its own.
pub proof fn law_start_up_needs_a_licence_and_no_reason(t: JsonTree)
    ensures
        init_refusal(t) is None <==> t.get("licensed"@) == Some(JsonTree::Bool(true)) && !(t.get(
            "failReason"@,
        ) matches Some(JsonTree::Str(_))),
        init_refusal(t) matches Some(f) ==> {
            &&& match t.get("failReason"@) {
                Some(JsonTree::Str(r)) => f.reason == r,
                _ => f.reason == "licensed"@,
            }
            &&& match t.get("failDetail"@) {
                Some(JsonTree::Str(d)) => f.detail == Some(d),
                _ => f.detail is None,
            }
        },
{
}

/// What follows a start-up call: after a timeout the next pause and another try, or, where there
/// is no pause left, the end of the sidecar; after any other failure nothing; after a refusal the
/// frame with its reason; after a success the replay of the listeners, in state `WxInit`.
pub proof fn law_start_up_call_is_followed_up(
    gaps: Seq<u64>,
    attempt: nat,
    r: Result<JsonTree, RpcErrorView>,
    s: AppState,
)
    ensures
        ({
            let step = init_step(gaps, attempt, r, s);
            match r {
                Err(e) => if e == RpcErrorView::Timeout {
                    &&& attempt < gaps.len() ==> step == InitStepView::Retry(gaps[attempt as int])
                    &&& attempt >= gaps.len() ==> step == InitStepView::Shutdown
                } else {
                    step == InitStepView::Abandon
                },
                Ok(t) => if t.get("licensed"@) == Some(JsonTree::Bool(true)) && !(t.get(
                    "failReason"@,
                ) matches Some(JsonTree::Str(_))) {
                    if s == AppState::SidecarDead || s == AppState::WxInit {
                        step == InitStepView::Proceed(None)
                    } else {
                        step == InitStepView::Proceed(Some((s, AppState::WxInit)))
                    }
                } else {
                    step matches InitStepView::Report(f) && {
                        &&& f.get("kind"@) == Some(JsonTree::Str("event"@))
                        &&& f.get("type"@) == Some(JsonTree::Str("init_fail"@))
                        &&& f.get("data"@) matches Some(d) && match t.get("failReason"@) {
                            Some(JsonTree::Str(reason)) => d.get("reason"@) == Some(
                                JsonTree::Str(reason),
                            ),
                            _ => d.get("reason"@) == Some(JsonTree::Str("licensed"@)),
                        }
                    }
                },
            }
        }),
{
    broadcast use lemma_put_get;

    reveal_strlit("kind");
    reveal_strlit("type");
    reveal_strlit("data");
    reveal_strlit("reason");
    assert("kind"@.len() == 4);
    assert("type"@.len() == 4);
    assert("data"@.len() == 4);
    assert("reason"@.len() == 6);
    assert("kind"@[0] != "type"@[0]);
    assert("kind"@[0] != "data"@[0]);
    assert("type"@[0] != "data"@[0]);
}

/// The frame about a failed start-up names its reason, and nothing else.
pub proof fn law_failed_start_up_names_its_reason(reason: Seq<char>, k: Seq<char>)
    ensures
        ({
            let f = init_fail_tree(reason);
            &&& f.get("kind"@) == Some(JsonTree::Str("event"@))
            &&& f.get("type"@) == Some(JsonTree::Str("init_fail"@))
            &&& f.get("data"@) matches Some(d) && d.get("reason"@) == Some(JsonTree::Str(reason))
                && (d.get(k) is Some ==> k == "reason"@)
            &&& f.get(k) is Some ==> k == "kind"@ || k == "type"@ || k == "data"@
        }),
{
    broadcast use lemma_put_get;

    reveal_strlit("kind");
    reveal_strlit("type");
    reveal_strlit("data");
    reveal_strlit("reason");
    assert("kind"@.len() == 4);
    assert("type"@.len() == 4);
    assert("data"@.len() == 4);
    assert("reason"@.len() == 6);
    assert("kind"@[0] != "type"@[0]);
    assert("kind"@[0] != "data"@[0]);
    assert("type"@[0] != "data"@[0]);
}

/// The start-up does what its call has led to, and counts only the calls that are tried again.
pub proof fn law_start_up_goes_its_way(s: InitSequenceState, step: InitStepView, a: InitAction)
    requires
        action_for_step(a, step),
    ensures
        ({
            let t = init_after_call(s, step);
            match step {
                InitStepView::Retry(ms) => a == InitAction::Pause(ms) && t.stage
                    == InitStage::Pausing && t.attempt == s.attempt + 1,
                InitStepView::Shutdown => a == InitAction::Shutdown && t.stage == InitStage::Over,
                InitStepView::Abandon => a == InitAction::Nothing && t.stage == InitStage::Over,
                InitStepView::Report(frame) => (a matches InitAction::Report(j) && j@ == frame)
                    && t.stage == InitStage::Over,
                InitStepView::Proceed(c) => a == InitAction::Resync(c) && t.stage
                    == InitStage::Resyncing,
            }
        }),
{
}

/// A failed start-up says what it holds: its reason, and its detail where there is one.
pub proof fn law_failure_says_what_it_holds(f: InitFail)
    ensures
        f@.reason == f.reason@,
        match f.detail {
            Some(d) => f@.detail == Some(d@),
            None => f@.detail is None,
        },
        opt_fail(Some(f)) == Some(f@),
        opt_fail(None) is None,
{
}

} // verus!
