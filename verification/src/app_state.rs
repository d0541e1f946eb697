//! What the window's application is put together from, and how its settings and its
//! connection are managed.

use vstd::prelude::*;
use vstd::string::*;
use crate::agent_link::inbound::{
    fresh_event, law_fresh_event_carries_its_data, law_status_says_what_is_known, seq_after,
    status_data, EventIds,
};
use crate::agent_link::{connection_status, AgentLink, AgentLinkState, LatchState};
use crate::alert::{AlertClient, AlertClientView};
use crate::cli::{build_ws_url, law_address_carries_the_token, ws_url};
use crate::config::{config_fault, config_in, config_text, load_config, Config, ConfigView};
use crate::files::FileRead;
use crate::json::{tree_pretty_text, Json, JsonTree};
use crate::outbox::{opened, EntryView, Outbox};
use crate::sidecar::protocol::{outcome, RpcError};
use crate::state::{
    AppState, AppStateMachine, Phase, Supervisor, SupervisorState, INIT_RETRY_GAPS, INIT_TIMEOUT,
    RESTART_BACKOFF,
};
use crate::text::{copy_texts, join2, opt_text, same_text, texts};
use crate::ui_events::{
    app_state_name, connected_tree, law_connection_is_put_into_the_frame, state_name,
    with_ws_connected,
};
use crate::wx::listener::{ascending, ListenerRegistry};
use crate::wx::{health_after, pause_bounds, WxHealth, WxSession};

verus! {

/// What the front end submits of the settings.
pub struct SettingsPatch {
    pub server_url: String,
    pub channel_id: String,
    pub auto_connect: bool,
    pub webhook_url: String,
    pub webhook_template: String,
}

/// What a submission says.
pub struct SettingsPatchView {
    pub server_url: Seq<char>,
    pub channel_id: Seq<char>,
    pub auto_connect: bool,
    pub webhook_url: Seq<char>,
    pub webhook_template: Seq<char>,
}

impl View for SettingsPatch {
    type V = SettingsPatchView;

    open spec fn view(&self) -> SettingsPatchView {
        SettingsPatchView {
            server_url: self.server_url@,
            channel_id: self.channel_id@,
            auto_connect: self.auto_connect,
            webhook_url: self.webhook_url@,
            webhook_template: self.webhook_template@,
        }
    }
}

/// A text, empty where there is none.
pub open spec fn or_empty(o: Option<Seq<char>>) -> Seq<char> {
    match o {
        Some(s) => s,
        None => ""@,
    }
}

/// What a submitted value says: a member that is missing or of another kind counts as empty
/// or as `false`.
pub open spec fn patch_of(t: JsonTree) -> SettingsPatchView {
    SettingsPatchView {
        server_url: or_empty(t.get_str("serverUrl"@)),
        channel_id: or_empty(t.get_str("channelId"@)),
        auto_connect: t.get_bool("autoConnect"@) == Some(true),
        webhook_url: or_empty(t.get_str("webhookUrl"@)),
        webhook_template: or_empty(t.get_str("webhookTemplate"@)),
    }
}

/// A string member, empty where there is none.
fn text_member(config: &Json, key: &str) -> (r: String)
    ensures
        r@ == or_empty(config@.get_str(key@)),
{
    match config.get_str(key) {
        Some(s) => s.to_owned(),
        None => "".to_owned(),
    }
}

/// Takes out of a submission the settings that the front end submits.
pub fn extract_settings_patch(config: &Json) -> (r: SettingsPatch)
    ensures
        r@ == patch_of(config@),
{
    let auto_connect = match config.get_bool("autoConnect") {
        Some(b) => b,
        None => false,
    };
    SettingsPatch {
        server_url: text_member(config, "serverUrl"),
        channel_id: text_member(config, "channelId"),
        auto_connect,
        webhook_url: text_member(config, "webhookUrl"),
        webhook_template: text_member(config, "webhookTemplate"),
    }
}

/// The settings with a submission taken over: the chats that are listened to and the pauses
/// are not submitted, and stay.
pub open spec fn merged(c: ConfigView, p: SettingsPatchView) -> ConfigView {
    ConfigView {
        server_url: p.server_url,
        channel_id: p.channel_id,
        auto_connect: p.auto_connect,
        webhook_url: p.webhook_url,
        webhook_template: p.webhook_template,
        ..c
    }
}

/// The token that is to be stored: an empty one is none.
pub fn token_to_store(token: Option<String>) -> (r: Option<String>)
    ensures
        match token {
            Some(t) => if t@.len() > 0 {
                r == Some(t)
            } else {
                r is None
            },
            None => r is None,
        },
{
    match token {
        Some(t) => if t.as_str().unicode_len() > 0 {
            Some(t)
        } else {
            None
        },
        None => None,
    }
}

/// Saves the chats that are listened to: the text that the settings' file is to hold.
pub fn save_listen_names(cfg: &mut Config, names: Vec<String>) -> (r: String)
    ensures
        final(cfg)@ == (ConfigView { listen_names: texts(names@), ..old(cfg)@ }),
        config_in(r@) == Some(final(cfg)@),
        r@ == tree_pretty_text(final(cfg)@.tree()),
{
    cfg.set_listen_names(names);
    config_text(cfg)
}

/// The two writers of the settings do not undo each other: whichever comes first, the
/// settings end up with the submission and with the chats.
pub proof fn law_writers_do_not_undo_each_other(
    c: ConfigView,
    p: SettingsPatchView,
    names: Seq<Seq<char>>,
)
    ensures
        merged(ConfigView { listen_names: names, ..c }, p) == (ConfigView {
            listen_names: names,
            ..merged(c, p)
        }),
        merged(ConfigView { listen_names: names, ..c }, p).listen_names == names,
        merged(ConfigView { listen_names: names, ..c }, p).server_url == p.server_url,
        merged(c, p).listen_names == c.listen_names,
        merged(c, p).delay_min_ms == c.delay_min_ms,
        merged(c, p).delay_max_ms == c.delay_max_ms,
{
}

/// The settings for the front end.
pub fn config_to_json(cfg: &Config) -> (r: Json)
    ensures
        r@ == cfg@.tree(),
{
    cfg.to_json()
}

/// What the store of secrets said about the token.
pub enum StoredToken {
    Found(String),
    /// It could not be asked, or has none.
    Unavailable,
}

/// The token to connect with.
pub open spec fn token_of(env: Option<Seq<char>>, stored: StoredToken) -> Seq<char> {
    match env {
        Some(t) => t,
        None => match stored {
            StoredToken::Found(t) => t@,
            StoredToken::Unavailable => ""@,
        },
    }
}

/// The address to connect to: the environment goes before the settings, for the server, and
/// before the store of secrets, for the token.
pub fn build_url(
    env_server: Option<String>,
    cfg: &Config,
    env_token: Option<String>,
    stored: StoredToken,
) -> (r: String)
    ensures
        r@ == ws_url(
            match env_server {
                Some(s) => s@,
                None => cfg@.server_url,
            },
            token_of(
                match env_token {
                    Some(t) => Some(t@),
                    None => None,
                },
                stored,
            ),
        ),
{
    let server = match env_server {
        Some(s) => s,
        None => cfg.server_url.clone(),
    };
    let token = match env_token {
        Some(t) => t,
        None => match stored {
            StoredToken::Found(t) => t,
            StoredToken::Unavailable => "".to_owned(),
        },
    };
    build_ws_url(server.as_str(), token.as_str())
}

/// The link that is in use. Links are numbered, and a number is never used again; what is
/// handed out is the number's last 64 bits, which tell the link in use from the next.
pub struct LinkSlot {
    current: Option<u64>,
    next: u64,
    state: Ghost<LinkSlotState>,
}

/// What the slot holds: the link in use, and how many have been started.
pub struct LinkSlotState {
    pub current: Option<nat>,
    pub next: nat,
}

/// What can be done with the slot.
pub enum SlotOp {
    Start,
    Stop,
    Reload,
}

/// The slot after an operation, and the link that it halts.
pub open spec fn slot_after(s: LinkSlotState, op: SlotOp) -> (LinkSlotState, Option<nat>) {
    match op {
        SlotOp::Start => (LinkSlotState { current: Some(s.next), next: s.next + 1 }, s.current),
        SlotOp::Stop => (LinkSlotState { current: None, ..s }, s.current),
        SlotOp::Reload => if s.current is Some {
            (LinkSlotState { current: Some(s.next), next: s.next + 1 }, s.current)
        } else {
            (s, None)
        },
    }
}

/// The last 64 bits of a link's number.
pub open spec fn label(n: nat) -> u64 {
    (n % 0x1_0000_0000_0000_0000) as u64
}

/// The last 64 bits of a link's number, where there is one.
pub open spec fn opt_label(o: Option<nat>) -> Option<u64> {
    match o {
        Some(n) => Some(label(n)),
        None => None,
    }
}

/// What starting a link comes to.
#[derive(Debug, Clone, Copy, PartialEq, Eq, Structural)]
pub struct LinkStart {
    /// The link to halt first.
    pub halt: Option<u64>,
    /// The link to run.
    pub run: u64,
}

impl LinkSlot {
    /// What the slot holds.
    pub closed spec fn view(&self) -> LinkSlotState {
        self.state@
    }

    /// The numbers are those of the links.
    #[verifier::type_invariant]
    spec fn wf(self) -> bool {
        &&& self.current == opt_label(self.state@.current)
        &&& self.next == label(self.state@.next)
    }

    /// No link.
    pub fn new() -> (r: LinkSlot)
        ensures
            r.view() == (LinkSlotState { current: None, next: 0 }),
    {
        LinkSlot { current: None, next: 0, state: Ghost(LinkSlotState { current: None, next: 0 }) }
    }

    /// Whether a link is in use.
    pub fn is_running(&self) -> (r: bool)
        ensures
            r == (self.view().current is Some),
    {
        proof {
            use_type_invariant(self);
        }
        self.current.is_some()
    }

    /// Starts a link: the one in use, if any, is halted, and the new one takes its place.
    pub fn start_link(&mut self) -> (r: LinkStart)
        ensures
            ({
                let (after, halted) = slot_after(old(self).view(), SlotOp::Start);
                &&& final(self).view() == after
                &&& r.halt == opt_label(halted)
                &&& Some(r.run) == opt_label(after.current)
            }),
    {
        proof {
            use_type_invariant(&*self);
        }
        let halt = self.current;
        let run = self.next;
        let next = if run == u64::MAX {
            0
        } else {
            run + 1
        };
        let ghost before = self.state@;
        *self = LinkSlot {
            current: Some(run),
            next,
            state: Ghost(LinkSlotState { current: Some(before.next), next: before.next + 1 }),
        };
        LinkStart { halt, run }
    }

    /// Stops the link in use: the one to halt, or an error where there is none.
    pub fn stop_link(&mut self) -> (r: Result<u64, String>)
        ensures
            final(self).view() == slot_after(old(self).view(), SlotOp::Stop).0,
            match slot_after(old(self).view(), SlotOp::Stop).1 {
                Some(n) => r matches Ok(halt) && halt == label(n),
                None => r matches Err(text) && text@ == "当前未连接"@,
            },
    {
        proof {
            use_type_invariant(&*self);
        }
        match self.current {
            Some(n) => {
                let ghost before = self.state@;
                *self = LinkSlot {
                    current: None,
                    next: self.next,
                    state: Ghost(LinkSlotState { current: None, ..before }),
                };
                Ok(n)
            },
            None => Err("当前未连接".to_owned()),
        }
    }

    /// Has the link in use, if there is one, replaced by a new one, so that it works by the
    /// settings as they are now.
    pub fn reload_link_if_running(&mut self) -> (r: Option<LinkStart>)
        ensures
            ({
                let (after, halted) = slot_after(old(self).view(), SlotOp::Reload);
                &&& final(self).view() == after
                &&& match halted {
                    Some(n) => r matches Some(start) && start.halt == Some(label(n)) && Some(
                        start.run,
                    ) == opt_label(after.current),
                    None => r is None,
                }
            }),
    {
        if self.is_running() {
            Some(self.start_link())
        } else {
            None
        }
    }
}

/// The slot after a number of operations on an empty one, and the links that have been
/// halted.
pub open spec fn slot_run(ops: Seq<SlotOp>) -> (LinkSlotState, Set<nat>)
    decreases ops.len(),
{
    if ops.len() == 0 {
        (LinkSlotState { current: None, next: 0 }, Set::empty())
    } else {
        let (s, halted) = slot_run(ops.drop_last());
        let (t, halt) = slot_after(s, ops.last());
        (
            t,
            match halt {
                Some(n) => halted.insert(n),
                None => halted,
            },
        )
    }
}

/// However connecting and disconnecting follow one another, no link is left over: of all the
/// links that were ever started, every one but the one in use has been halted, and the one
/// in use has not.
pub proof fn law_no_link_is_left_over(ops: Seq<SlotOp>)
    ensures
        ({
            let (s, halted) = slot_run(ops);
            &&& s.current matches Some(n) ==> n < s.next
            &&& forall|n: nat|
                #[trigger] halted.contains(n) <==> n < s.next && s.current != Some(n)
        }),
    decreases ops.len(),
{
    if ops.len() > 0 {
        law_no_link_is_left_over(ops.drop_last());
    }
}

/// A status frame that says whether the link in use is connected to the server; other frames
/// stay as they are. `None` stands for no link, which is not connected.
pub fn with_ws_connected_from_slot(frame: &Json, connected: Option<bool>) -> (r: Json)
    ensures
        r@ == if frame@.get_str("type"@) == Some("status"@) {
            connected_tree(frame@, connected == Some(true))
        } else {
            frame@
        },
{
    let is_status = match frame.get_str("type") {
        Some(s) => same_text(s, "status"),
        None => false,
    };
    if is_status {
        let ws = match connected {
            Some(b) => b,
            None => false,
        };
        with_ws_connected(frame, ws)
    } else {
        frame.copy()
    }
}

/// The alert for a change of state, a title and a detail: only the death of the sidecar has
/// one.
pub fn state_alert(new: &AppState) -> (r: Option<(&'static str, &'static str)>)
    ensures
        *new != AppState::SidecarDead ==> r is None,
        *new == AppState::SidecarDead ==> (r matches Some(a) && a.0@ == "sidecar 瘫痪"@ && a.1@
            == "退避重启耗尽进入终态——设备需人工介入（重启 App 或检查微信环境）"@),
{
    if *new == AppState::SidecarDead {
        Some(
            (
                "sidecar 瘫痪",
                "退避重启耗尽进入终态——设备需人工介入（重启 App 或检查微信环境）",
            ),
        )
    } else {
        None
    }
}

/// Everything that the application works with.
pub struct Assembled {
    pub config: Config,
    pub listeners: ListenerRegistry,
    pub session: WxSession,
    pub alert: AlertClient,
    pub outbox: Outbox,
    pub state_machine: AppStateMachine,
    pub supervisor: Supervisor,
    pub link: LinkSlot,
}

/// The settings for the application, out of what was read of their file, or why there are
/// none.
pub open spec fn loaded(file: FileRead) -> Result<ConfigView, Seq<char>> {
    match file {
        FileRead::Missing => Ok(ConfigView::initial()),
        FileRead::Failed(e) => Err("配置读取失败: "@ + ("配置文件读取失败: "@ + e@)),
        FileRead::Text(t) => match config_in(t@) {
            Some(c) => Ok(c),
            None => Err("配置读取失败: "@ + config_fault(t@)),
        },
    }
}

/// The settings for the application: without them it does not start.
pub fn load_for_assembly(file: FileRead) -> (r: Result<Config, String>)
    ensures
        match r {
            Ok(c) => loaded(file) == Ok::<ConfigView, Seq<char>>(c@),
            Err(text) => loaded(file) == Err::<ConfigView, Seq<char>>(text@),
        },
{
    match load_config(file) {
        Ok(c) => Ok(c),
        Err(e) => Err(join2("配置读取失败: ", e.as_str())),
    }
}

/// Whether an application is the one that settings, an outbox's file and the name of the
/// machine lead to at a time. An outbox that cannot be opened is done without.
pub open spec fn assembled_from(
    a: Assembled,
    c: ConfigView,
    outbox_file: FileRead,
    hostname: Seq<char>,
    now: u64,
) -> bool {
    &&& a.config@ == c
    &&& a.listeners.wf()
    &&& a.listeners.view().to_set() == c.listen_names.to_set()
    &&& a.session.view() == pause_bounds(c.delay_min_ms, c.delay_max_ms)
    &&& a.alert.view() == (AlertClientView {
        url: c.webhook_url,
        template: c.webhook_template,
        device: hostname,
    })
    &&& a.outbox.wf()
    &&& a.outbox.is_enabled() == !(outbox_file is Failed)
    &&& a.outbox.view() == match outbox_file {
        FileRead::Text(t) => opened(t@, now),
        _ => Seq::<EntryView>::empty(),
    }
    &&& a.state_machine.view() == AppState::SidecarBooting
    &&& a.supervisor.view() == (SupervisorState {
        failures: 0,
        lived_long: false,
        phase: Phase::Constructed,
        backoff: RESTART_BACKOFF@,
        init_timeout: INIT_TIMEOUT,
        init_gaps: INIT_RETRY_GAPS@,
        last_init_fail: None,
    })
    &&& a.link.view() == (LinkSlotState { current: None, next: 0 })
}

/// Puts the application together, once its settings are there and its first sidecar has been
/// started, or could not be: without a sidecar it does not start.
pub fn assemble_into(
    cfg: Config,
    sidecar_started: Result<(), String>,
    outbox_file: FileRead,
    hostname: String,
    now: u64,
) -> (r: Result<Assembled, String>)
    ensures
        match sidecar_started {
            Err(e) => r matches Err(text) && text@ == "sidecar 启动失败: "@ + e@,
            Ok(_) => r matches Ok(a) && assembled_from(a, cfg@, outbox_file, hostname@, now),
        },
{
    match sidecar_started {
        Err(e) => return Err(join2("sidecar 启动失败: ", e.as_str())),
        Ok(_) => {},
    }
    let session = WxSession::with_gaps(cfg.delay_min_ms, cfg.delay_max_ms);
    let listeners = ListenerRegistry::new_seeded(copy_texts(&cfg.listen_names));
    let alert = AlertClient::new(
        cfg.webhook_url.clone(),
        cfg.webhook_template.clone(),
        hostname,
    );
    let outbox = match Outbox::open(outbox_file, now) {
        Ok(o) => o,
        Err(_) => Outbox::disabled(),
    };
    Ok(
        Assembled {
            config: cfg,
            listeners,
            session,
            alert,
            outbox,
            state_machine: AppStateMachine::new(),
            supervisor: Supervisor::new(),
            link: LinkSlot::new(),
        },
    )
}

/// How far the application has been put together.
pub enum AssemblyStage {
    /// Nobody has asked for it.
    Idle,
    /// Its settings are being read.
    Reading,
    /// Its first sidecar is being started.
    Starting(Config),
    /// Its outbox is being read.
    Opening(Config),
    /// It is there, or will never be.
    Done(Result<(), String>),
}

/// What an [`AssemblyStage`] says.
pub enum AssemblyView {
    Idle,
    Reading,
    Starting(ConfigView),
    Opening(ConfigView),
    Done(Result<(), Seq<char>>),
}

/// What happens while the application is put together.
pub enum AssemblyEvent {
    /// Somebody asks for it.
    Call,
    /// The file of its settings has been read.
    ConfigRead(FileRead),
    /// Its first sidecar has been started, or could not be.
    SidecarStarted(Result<(), String>),
    /// The file of its outbox has been read.
    OutboxRead { file: FileRead, hostname: String, now: u64 },
}

/// What is done next to put the application together.
pub enum AssemblyAction {
    ReadConfig,
    StartSidecar,
    ReadOutbox,
    /// Here it is.
    Give(Assembled),
    /// It cannot be put together.
    Fail(String),
    /// It has been put together before, or could not be: this is what came of it.
    Again(Result<(), String>),
    /// It is being put together: wait for it.
    Wait,
    /// Nothing: the event does not belong here.
    Ignore,
}

/// What came of putting the application together, in characters.
pub open spec fn told(r: Result<(), String>) -> Result<(), Seq<char>> {
    match r {
        Ok(_) => Ok(()),
        Err(text) => Err(text@),
    }
}

impl AssemblyView {
    /// How far things are after an event. One that does not belong here changes nothing.
    pub open spec fn after(self, e: AssemblyEvent) -> AssemblyView {
        match (self, e) {
            (AssemblyView::Idle, AssemblyEvent::Call) => AssemblyView::Reading,
            (AssemblyView::Reading, AssemblyEvent::ConfigRead(file)) => match loaded(file) {
                Ok(c) => AssemblyView::Starting(c),
                Err(text) => AssemblyView::Done(Err(text)),
            },
            (AssemblyView::Starting(c), AssemblyEvent::SidecarStarted(started)) => match started {
                Ok(_) => AssemblyView::Opening(c),
                Err(e) => AssemblyView::Done(Err("sidecar 启动失败: "@ + e@)),
            },
            (AssemblyView::Opening(_), AssemblyEvent::OutboxRead { .. }) => AssemblyView::Done(
                Ok(()),
            ),
            _ => self,
        }
    }

    /// Whether an action is what an event calls for.
    pub open spec fn calls_for(self, e: AssemblyEvent, a: AssemblyAction) -> bool {
        match (self, e) {
            (AssemblyView::Idle, AssemblyEvent::Call) => a is ReadConfig,
            (AssemblyView::Done(r), AssemblyEvent::Call) => a matches AssemblyAction::Again(again)
                && told(again) == r,
            (_, AssemblyEvent::Call) => a is Wait,
            (AssemblyView::Reading, AssemblyEvent::ConfigRead(file)) => match loaded(file) {
                Ok(_) => a is StartSidecar,
                Err(text) => a matches AssemblyAction::Fail(words) && words@ == text,
            },
            (AssemblyView::Starting(_), AssemblyEvent::SidecarStarted(started)) => match started {
                Ok(_) => a is ReadOutbox,
                Err(e) => a matches AssemblyAction::Fail(words) && words@ == "sidecar 启动失败: "@
                    + e@,
            },
            (AssemblyView::Opening(c), AssemblyEvent::OutboxRead { file, hostname, now }) => {
                a matches AssemblyAction::Give(app) && assembled_from(app, c, file, hostname@, now)
            },
            _ => a is Ignore,
        }
    }

    /// Whether an event has a sidecar started.
    pub open spec fn starts_sidecar(self, e: AssemblyEvent) -> bool {
        self is Reading && (e matches AssemblyEvent::ConfigRead(file) && loaded(file) is Ok)
    }
}

/// The application's place: from the first moment on it can be asked for, and it is put
/// together once.
pub struct AppStateCtx {
    stage: AssemblyStage,
}

impl AppStateCtx {
    /// How far the application has been put together.
    pub closed spec fn view(&self) -> AssemblyView {
        match self.stage {
            AssemblyStage::Idle => AssemblyView::Idle,
            AssemblyStage::Reading => AssemblyView::Reading,
            AssemblyStage::Starting(c) => AssemblyView::Starting(c@),
            AssemblyStage::Opening(c) => AssemblyView::Opening(c@),
            AssemblyStage::Done(r) => AssemblyView::Done(told(r)),
        }
    }

    /// Nobody has asked for the application yet.
    pub fn shell() -> (r: AppStateCtx)
        ensures
            r.view() == AssemblyView::Idle,
    {
        AppStateCtx { stage: AssemblyStage::Idle }
    }

    /// Takes in an event and says what to do next.
    pub fn assemble_into(&mut self, event: AssemblyEvent) -> (r: AssemblyAction)
        ensures
            final(self).view() == old(self).view().after(event),
            old(self).view().calls_for(event, r),
    {
        let mut stage = AssemblyStage::Idle;
        std::mem::swap(&mut stage, &mut self.stage);
        match (stage, event) {
            (AssemblyStage::Idle, AssemblyEvent::Call) => {
                self.stage = AssemblyStage::Reading;
                AssemblyAction::ReadConfig
            },
            (AssemblyStage::Done(r), AssemblyEvent::Call) => {
                let again = match &r {
                    Ok(_) => Ok(()),
                    Err(text) => Err(text.clone()),
                };
                self.stage = AssemblyStage::Done(r);
                AssemblyAction::Again(again)
            },
            (stage, AssemblyEvent::Call) => {
                self.stage = stage;
                AssemblyAction::Wait
            },
            (AssemblyStage::Reading, AssemblyEvent::ConfigRead(file)) => {
                match load_for_assembly(file) {
                    Ok(c) => {
                        self.stage = AssemblyStage::Starting(c);
                        AssemblyAction::StartSidecar
                    },
                    Err(text) => {
                        self.stage = AssemblyStage::Done(Err(text.clone()));
                        AssemblyAction::Fail(text)
                    },
                }
            },
            (AssemblyStage::Starting(c), AssemblyEvent::SidecarStarted(started)) => {
                match started {
                    Ok(_) => {
                        self.stage = AssemblyStage::Opening(c);
                        AssemblyAction::ReadOutbox
                    },
                    Err(e) => {
                        let text = join2("sidecar 启动失败: ", e.as_str());
                        self.stage = AssemblyStage::Done(Err(text.clone()));
                        AssemblyAction::Fail(text)
                    },
                }
            },
            (AssemblyStage::Opening(c), AssemblyEvent::OutboxRead { file, hostname, now }) => {
                match assemble_into(c, Ok(()), file, hostname, now) {
                    Ok(app) => {
                        self.stage = AssemblyStage::Done(Ok(()));
                        AssemblyAction::Give(app)
                    },
                    Err(text) => {
                        self.stage = AssemblyStage::Done(Err(text.clone()));
                        AssemblyAction::Fail(text)
                    },
                }
            },
            (stage, _) => {
                self.stage = stage;
                AssemblyAction::Ignore
            },
        }
    }
}

/// How far things are after a number of events, and how many sidecars have been started.
pub open spec fn assembly_run(events: Seq<AssemblyEvent>) -> (AssemblyView, nat)
    decreases events.len(),
{
    if events.len() == 0 {
        (AssemblyView::Idle, 0)
    } else {
        let (s, n) = assembly_run(events.drop_last());
        (
            s.after(events.last()),
            if s.starts_sidecar(events.last()) {
                n + 1
            } else {
                n
            },
        )
    }
}

/// However often and from wherever the application is asked for, it is put together once: at
/// most one sidecar is started on the way, and none where the settings cannot be read.
pub proof fn law_assembled_once(events: Seq<AssemblyEvent>)
    ensures
        assembly_run(events).1 <= 1,
        assembly_run(events).0 is Idle || assembly_run(events).0 is Reading ==> assembly_run(
            events,
        ).1 == 0,
        forall|i: int|
            0 <= i < events.len() && assembly_run(events.take(i)).0 is Reading && (
            #[trigger] events[i] matches AssemblyEvent::ConfigRead(f) && loaded(f) is Err)
                ==> assembly_run(events).1 == 0,
    decreases events.len(),
{
    if events.len() > 0 {
        let init = events.drop_last();
        law_assembled_once(init);
        assert forall|i: int|
            0 <= i < events.len() && assembly_run(events.take(i)).0 is Reading && (
            #[trigger] events[i] matches AssemblyEvent::ConfigRead(f) && loaded(f) is Err)
            implies assembly_run(events).1 == 0 by {
            if i < init.len() {
                assert(init.take(i) =~= events.take(i));
                assert(init[i] == events[i]);
                let upto = events.take(i + 1);
                assert(upto.drop_last() =~= events.take(i));
                assert(assembly_run(upto).0 is Done);
                law_first_result_stays(upto, init.skip(i + 1));
                assert(upto + init.skip(i + 1) =~= init);
            } else {
                assert(events.take(i) =~= init);
            }
        }
    }
}

/// What came of the first call is what every later call is told, a fault included.
pub proof fn law_first_result_stays(before: Seq<AssemblyEvent>, after: Seq<AssemblyEvent>)
    requires
        assembly_run(before).0 is Done,
    ensures
        assembly_run(before + after) == assembly_run(before),
        forall|a: AssemblyAction|
            #[trigger] assembly_run(before + after).0.calls_for(AssemblyEvent::Call, a) ==> (a
                matches AssemblyAction::Again(r) && told(r) == assembly_run(before).0->Done_0),
    decreases after.len(),
{
    if after.len() == 0 {
        assert(before + after =~= before);
    } else {
        law_first_result_stays(before, after.drop_last());
        assert((before + after).drop_last() =~= before + after.drop_last());
    }
}

/// A link to start.
pub struct LinkPlan {
    /// The number of the link to halt first.
    pub halt: Option<u64>,
    /// The number of the link to run.
    pub number: u64,
    /// The link itself.
    pub link: AgentLink,
}

/// The address that the settings, the environment and the store of secrets lead to.
pub open spec fn address(
    env_server: Option<String>,
    c: ConfigView,
    env_token: Option<String>,
    stored: StoredToken,
) -> Seq<char> {
    ws_url(
        match env_server {
            Some(s) => s@,
            None => c.server_url,
        },
        token_of(opt_text(env_token), stored),
    )
}

/// A fresh link to an address, for a channel, whose alerts go where the client says.
pub open spec fn fresh_link(
    url: Seq<char>,
    channel_id: Seq<char>,
    alert: AlertClientView,
) -> AgentLinkState {
    AgentLinkState {
        url,
        channel_id,
        ws_connected: false,
        halted: false,
        latch: LatchState { pending: false, buffer: Seq::empty() },
        running: Set::empty(),
        alert: Some(alert),
    }
}

impl Assembled {
    /// Saves the settings, once the token has been stored, if there was one to store. Where
    /// that failed nothing is changed. Otherwise the submission is taken over, and the text
    /// that the settings' file is to hold comes back.
    pub fn save_settings(
        &mut self,
        patch: SettingsPatch,
        token_stored: Result<(), String>,
    ) -> (r: Result<String, String>)
        ensures
            match token_stored {
                Err(e) => {
                    &&& r matches Err(text) && text@ == e@
                    &&& *final(self) == *old(self)
                },
                Ok(_) => {
                    &&& final(self).config@ == merged(old(self).config@, patch@)
                    &&& r matches Ok(text) && config_in(text@) == Some(final(self).config@)
                        && text@ == tree_pretty_text(final(self).config@.tree())
                    &&& *final(self) == (Assembled { config: final(self).config, ..*old(self) })
                },
            },
    {
        match token_stored {
            Err(e) => Err(e),
            Ok(_) => {
                self.config.server_url = patch.server_url;
                self.config.channel_id = patch.channel_id;
                self.config.auto_connect = patch.auto_connect;
                self.config.webhook_url = patch.webhook_url;
                self.config.webhook_template = patch.webhook_template;
                Ok(config_text(&self.config))
            },
        }
    }

    /// The settings' file has been written, or could not be. Once it has, alerts go where
    /// the settings say; otherwise they go where they went before, and the fault is passed
    /// on.
    pub fn settings_saved(&mut self, written: Result<(), String>, hostname: String) -> (r: Result<
        (),
        String,
    >)
        ensures
            r == written,
            *final(self) == (Assembled { alert: final(self).alert, ..*old(self) }),
            match written {
                Ok(_) => final(self).alert.view() == (AlertClientView {
                    url: old(self).config@.webhook_url,
                    template: old(self).config@.webhook_template,
                    device: hostname@,
                }),
                Err(_) => final(self).alert == old(self).alert,
            },
    {
        if written.is_ok() {
            self.alert = AlertClient::new(
                self.config.webhook_url.clone(),
                self.config.webhook_template.clone(),
                hostname,
            );
        }
        written
    }

    /// The address to connect to: the environment goes before the settings, for the server,
    /// and before the store of secrets, for the token.
    pub fn build_url(
        &self,
        env_server: Option<String>,
        env_token: Option<String>,
        stored: StoredToken,
    ) -> (r: String)
        ensures
            r@ == address(env_server, self.config@, env_token, stored),
    {
        build_url(env_server, &self.config, env_token, stored)
    }

    /// Connects: the link in use, if any, is to be halted, and a new one takes its place. It
    /// goes where the settings say now, names their channel, and sends its alerts where they
    /// say.
    pub fn start_link(
        &mut self,
        env_server: Option<String>,
        env_token: Option<String>,
        stored: StoredToken,
    ) -> (r: LinkPlan)
        ensures
            ({
                let (after, halted) = slot_after(old(self).link.view(), SlotOp::Start);
                &&& final(self).link.view() == after
                &&& r.halt == opt_label(halted)
                &&& Some(r.number) == opt_label(after.current)
            }),
            r.link.view() == fresh_link(
                address(env_server, old(self).config@, env_token, stored),
                old(self).config@.channel_id,
                old(self).alert.view(),
            ),
            *final(self) == (Assembled { link: final(self).link, ..*old(self) }),
    {
        let start = self.link.start_link();
        let url = self.build_url(env_server, env_token, stored);
        let mut link = AgentLink::new(url);
        link.set_channel_id(self.config.channel_id.clone());
        link.set_alert_sink(self.alert.copy());
        LinkPlan { halt: start.halt, number: start.run, link }
    }

    /// Disconnects: the link to halt, and the status that tells the front end that the
    /// server is no longer connected. An error where nothing is connected.
    pub fn stop_link(&mut self, probe: &Result<Json, RpcError>, ids: &mut EventIds) -> (r: Result<
        (u64, Json),
        String,
    >)
        ensures
            final(self).link.view() == slot_after(old(self).link.view(), SlotOp::Stop).0,
            match slot_after(old(self).link.view(), SlotOp::Stop).1 {
                Some(n) => {
                    &&& r matches Ok(out) && out.0 == label(n) && stop_status(
                        out.1@,
                        health_after(outcome(*probe)),
                        old(self).listeners.view().len(),
                        old(ids).view(),
                    )
                    &&& final(ids).view() == seq_after(old(ids).view())
                },
                None => {
                    &&& r matches Err(text) && text@ == "当前未连接"@
                    &&& final(ids).view() == old(ids).view()
                },
            },
            *final(self) == (Assembled { link: final(self).link, ..*old(self) }),
    {
        let halt = match self.link.stop_link() {
            Ok(n) => n,
            Err(e) => return Err(e),
        };
        let health = WxSession::probe_health(probe);
        let names = self.listeners.list();
        assert(names@.len() == texts(names@).len());
        let status = connection_status(&health, names.len(), ids);
        let ghost s = status@;
        proof {
            lemma_event_is_object(s);
        }
        Ok((halt, with_ws_connected(&status, false)))
    }

    /// Has the link in use, if there is one, replaced by a new one, so that it works by the
    /// settings as they are now.
    pub fn reload_link_if_running(
        &mut self,
        env_server: Option<String>,
        env_token: Option<String>,
        stored: StoredToken,
    ) -> (r: Option<LinkPlan>)
        ensures
            final(self).link.view() == slot_after(old(self).link.view(), SlotOp::Reload).0,
            match slot_after(old(self).link.view(), SlotOp::Reload).1 {
                Some(n) => r matches Some(plan) && plan.halt == Some(label(n)) && Some(
                    plan.number,
                ) == opt_label(final(self).link.view().current)
                    && plan.link.view() == fresh_link(
                    address(env_server, old(self).config@, env_token, stored),
                    old(self).config@.channel_id,
                    old(self).alert.view(),
                ),
                None => r is None,
            },
            *final(self) == (Assembled { link: final(self).link, ..*old(self) }),
    {
        if self.link.is_running() {
            Some(self.start_link(env_server, env_token, stored))
        } else {
            None
        }
    }

    /// The name of the state.
    pub fn state_snapshot(&self) -> (r: &'static str)
        ensures
            r@ == state_name(self.state_machine.view()),
    {
        app_state_name(&self.state_machine.state())
    }
}

/// Whether a frame is the status that goes with a disconnect.
pub open spec fn stop_status(t: JsonTree, health: WxHealth, listeners: nat, seq: u64) -> bool {
    exists|inner: JsonTree|
        t == #[trigger] connected_tree(inner, false) && fresh_event(
            inner,
            "status"@,
            status_data(health.online(), health.name(), listeners, true),
            seq,
        )
}

/// An event is an object.
proof fn lemma_event_is_object(t: JsonTree)
    ensures
        forall|kind: Seq<char>, data: JsonTree, seq: u64|
            #[trigger] fresh_event(t, kind, data, seq) ==> t is Obj,
{
}

/// Restarting restores the chats that were listened to: the list that was saved is, entered
/// again, the same list.
pub proof fn law_saved_listeners_are_restored(saved: Seq<Seq<char>>, restored: Seq<Seq<char>>)
    requires
        ascending(saved),
        ascending(restored),
        restored.to_set() == saved.to_set(),
    ensures
        restored == saved,
{
    crate::wx::listener::law_order_is_determined(saved, restored);
}

/// A submission is taken as it was made: each text under its own name, empty where there is none,
/// and connecting at the start only where it says so.
pub proof fn law_submission_is_taken_as_it_was_made(t: JsonTree)
    ensures
        ({
            let p = patch_of(t);
            &&& match t.get("serverUrl"@) {
                Some(JsonTree::Str(s)) => p.server_url == s,
                _ => p.server_url == ""@,
            }
            &&& match t.get("channelId"@) {
                Some(JsonTree::Str(s)) => p.channel_id == s,
                _ => p.channel_id == ""@,
            }
            &&& p.auto_connect <==> t.get("autoConnect"@) == Some(JsonTree::Bool(true))
            &&& match t.get("webhookUrl"@) {
                Some(JsonTree::Str(s)) => p.webhook_url == s,
                _ => p.webhook_url == ""@,
            }
            &&& match t.get("webhookTemplate"@) {
                Some(JsonTree::Str(s)) => p.webhook_template == s,
                _ => p.webhook_template == ""@,
            }
        }),
{
}

/// Saving takes over every setting that was submitted and leaves the others alone; submitting the
/// same once more changes nothing.
pub proof fn law_saving_takes_over_what_was_submitted(c: ConfigView, p: SettingsPatchView)
    ensures
        merged(c, p).server_url == p.server_url,
        merged(c, p).channel_id == p.channel_id,
        merged(c, p).auto_connect == p.auto_connect,
        merged(c, p).webhook_url == p.webhook_url,
        merged(c, p).webhook_template == p.webhook_template,
        merged(c, p).listen_names == c.listen_names,
        merged(c, p).delay_min_ms == c.delay_min_ms,
        merged(c, p).delay_max_ms == c.delay_max_ms,
        merged(merged(c, p), p) == merged(c, p),
{
}

/// The environment goes before the settings, for the server, and before the store of secrets, for
/// the token; where neither has a token the address has none.
pub proof fn law_environment_goes_first(
    env_server: Option<String>,
    c: ConfigView,
    env_token: Option<String>,
    stored: StoredToken,
)
    ensures
        ({
            let server = match env_server {
                Some(s) => s@,
                None => c.server_url,
            };
            let token = match (env_token, stored) {
                (Some(t), _) => t@,
                (None, StoredToken::Found(t)) => t@,
                (None, StoredToken::Unavailable) => Seq::empty(),
            };
            address(env_server, c, env_token, stored) == if token.len() == 0 {
                server
            } else {
                server + "/?token="@ + token
            }
        }),
{
    reveal_strlit("");
    reveal_strlit("/?token=");
    assert(""@ =~= Seq::<char>::empty());
    let url = address(env_server, c, env_token, stored);
    let server = match env_server {
        Some(s) => s@,
        None => c.server_url,
    };
    let token = token_of(opt_text(env_token), stored);
    law_address_carries_the_token(server, token);
    if token.len() > 0 {
        assert(url =~= url.take(server.len() as int) + url.subrange(
            server.len() as int,
            server.len() as int + 8,
        ) + url.skip(server.len() as int + 8));
    }
}

/// A link that is started is a new one, and the one before it, if there is one, is halted; a link
/// that is stopped is halted and gone; only a link that is there is replaced.
pub proof fn law_links_replace_one_another(s: LinkSlotState)
    ensures
        ({
            let (t, halted) = slot_after(s, SlotOp::Start);
            t.current == Some(s.next) && t.next == s.next + 1 && halted == s.current
        }),
        ({
            let (t, halted) = slot_after(s, SlotOp::Stop);
            t.current is None && t.next == s.next && halted == s.current
        }),
        s.current is Some ==> slot_after(s, SlotOp::Reload) == slot_after(s, SlotOp::Start),
        s.current is None ==> slot_after(s, SlotOp::Reload) == (s, None::<nat>),
{
}

/// A link is handed out under its own number, and the next one under the next, round the 64 bits.
pub proof fn law_links_are_handed_out_by_number(n: nat)
    ensures
        n <= u64::MAX ==> label(n) == n,
        label(n + 1) == (label(n) + 1) % 0x1_0000_0000_0000_0000,
        label(n) != label(n + 1),
        opt_label(Some(n)) == Some(label(n)),
        opt_label(None) is None,
{
}

/// The settings for the application are those of a fresh installation where there is no file, and
/// those that the file holds where there is one. Where it cannot be read, or holds none, the
/// application is told why.
pub proof fn law_spoilt_settings_are_not_passed_over(file: FileRead)
    ensures
        match file {
            FileRead::Missing => loaded(file) == Ok::<ConfigView, Seq<char>>(ConfigView::initial()),
            FileRead::Failed(e) => loaded(file) matches Err(text) && text =~= "配置读取失败: "@
                + "配置文件读取失败: "@ + e@,
            FileRead::Text(t) => match config_in(t@) {
                Some(c) => loaded(file) == Ok::<ConfigView, Seq<char>>(c),
                None => loaded(file) == Err::<ConfigView, Seq<char>>(
                    "配置读取失败: "@ + config_fault(t@),
                ),
            },
        },
{
}

/// An application that has been put together works by its settings: it listens to their chats,
/// pauses as they say, and sends alerts where they say, under the name of the machine. Its outbox
/// holds what its file holds, or is done without where that could not be read. The sidecar is
/// starting, nothing has failed, and nothing is connected.
pub proof fn law_application_works_by_its_settings(
    a: Assembled,
    c: ConfigView,
    outbox_file: FileRead,
    hostname: Seq<char>,
    now: u64,
    name: Seq<char>,
)
    requires
        assembled_from(a, c, outbox_file, hostname, now),
    ensures
        a.config@ == c,
        a.listeners.view().contains(name) <==> c.listen_names.contains(name),
        a.listeners.wf(),
        c.delay_min_ms <= c.delay_max_ms ==> a.session.view() == (c.delay_min_ms, c.delay_max_ms),
        c.delay_min_ms > c.delay_max_ms ==> a.session.view() == (500u64, 1000u64),
        a.alert.view().url == c.webhook_url,
        a.alert.view().template == c.webhook_template,
        a.alert.view().device == hostname,
        match outbox_file {
            FileRead::Text(t) => a.outbox.is_enabled() && a.outbox.view() == opened(t@, now),
            FileRead::Missing => a.outbox.is_enabled() && a.outbox.view().len() == 0,
            FileRead::Failed(_) => !a.outbox.is_enabled() && a.outbox.view().len() == 0,
        },
        a.state_machine.view() == AppState::SidecarBooting,
        a.supervisor.view().failures == 0,
        a.supervisor.view().phase == Phase::Constructed,
        a.supervisor.view().backoff == RESTART_BACKOFF@,
        a.supervisor.view().init_timeout == INIT_TIMEOUT,
        a.supervisor.view().init_gaps == INIT_RETRY_GAPS@,
        a.supervisor.view().last_init_fail is None,
        a.link.view().current is None,
{
    assert(a.listeners.view().to_set().contains(name) <==> c.listen_names.to_set().contains(name));
}

/// The application is put together in its order: settings, sidecar, outbox. Each step waits for
/// the one before it; a step that fails ends it, with words that say why; whoever asks on the way
/// waits, and whoever asks afterwards is told what came of it. An event that does not belong where
/// things stand changes nothing.
pub proof fn law_assembly_keeps_its_order(s: AssemblyView, e: AssemblyEvent, a: AssemblyAction)
    requires
        s.calls_for(e, a),
    ensures
        a is ReadConfig <==> s is Idle && e is Call,
        a is ReadConfig ==> s.after(e) is Reading,
        a is StartSidecar <==> s is Reading && (e matches AssemblyEvent::ConfigRead(f) && loaded(f)
            is Ok),
        a is StartSidecar ==> (e matches AssemblyEvent::ConfigRead(f) && s.after(e)
            == AssemblyView::Starting(loaded(f)->Ok_0)),
        a is StartSidecar <==> s.starts_sidecar(e),
        a is ReadOutbox <==> s is Starting && (e matches AssemblyEvent::SidecarStarted(r) && r
            is Ok),
        a is ReadOutbox ==> (s matches AssemblyView::Starting(c) && s.after(e)
            == AssemblyView::Opening(c)),
        a is Give <==> s is Opening && e is OutboxRead,
        a is Give ==> s.after(e) == AssemblyView::Done(Ok(())),
        a matches AssemblyAction::Give(app) ==> (s matches AssemblyView::Opening(c) && e
            matches AssemblyEvent::OutboxRead { file, hostname, now } && assembled_from(
            app,
            c,
            file,
            hostname@,
            now,
        )),
        a matches AssemblyAction::Fail(words) ==> s.after(e) == AssemblyView::Done(Err(words@)),
        a is Fail <==> (s is Reading && (e matches AssemblyEvent::ConfigRead(f) && loaded(f) is Err))
            || (s is Starting && (e matches AssemblyEvent::SidecarStarted(r) && r is Err)),
        a matches AssemblyAction::Fail(words) ==> match e {
            AssemblyEvent::ConfigRead(f) => loaded(f) == Err::<ConfigView, Seq<char>>(words@),
            AssemblyEvent::SidecarStarted(r) => r matches Err(why) && words@
                == "sidecar 启动失败: "@ + why@,
            _ => false,
        },
        a is Again <==> s is Done && e is Call,
        a matches AssemblyAction::Again(r) ==> match r {
            Ok(_) => s == AssemblyView::Done(Ok(())),
            Err(words) => s == AssemblyView::Done(Err(words@)),
        },
        a is Wait <==> (s is Reading || s is Starting || s is Opening) && e is Call,
        a is Again || a is Wait || a is Ignore ==> s.after(e) == s,
{
}

/// A fresh link goes where it was told, names its channel and sends its alerts where it was told;
/// it is not connected, nothing waits in it, and it carries out nothing.
pub proof fn law_fresh_link_has_done_nothing(
    url: Seq<char>,
    channel_id: Seq<char>,
    alert: AlertClientView,
    id: Seq<char>,
)
    ensures
        ({
            let l = fresh_link(url, channel_id, alert);
            &&& l.url == url
            &&& l.channel_id == channel_id
            &&& l.alert == Some(alert)
            &&& !l.ws_connected
            &&& !l.halted
            &&& !l.latch.pending
            &&& l.latch.buffer.len() == 0
            &&& !l.running.contains(id)
        }),
{
}

/// The status that goes with a disconnect says that the server is not connected, and of WeChat and
/// the listeners what was found.
pub proof fn law_disconnect_is_shown(t: JsonTree, health: WxHealth, listeners: nat, seq: u64)
    requires
        stop_status(t, health, listeners, seq),
    ensures
        t.get("wsConnected"@) == Some(JsonTree::Bool(false)),
        t.get("kind"@) == Some(JsonTree::Str("event"@)),
        t.get("type"@) == Some(JsonTree::Str("status"@)),
        t.get("data"@) matches Some(d) && {
            &&& d.get("wxOnline"@) == Some(JsonTree::Bool(health is Online))
            &&& d.get("wxState"@) == Some(JsonTree::Str(health.name()))
            &&& d.get("listeners"@) == Some(JsonTree::Int(listeners as int))
            &&& d.get("sidecarAlive"@) == Some(JsonTree::Bool(true))
        },
{
    let inner = choose|inner: JsonTree|
        t == #[trigger] connected_tree(inner, false) && fresh_event(
            inner,
            "status"@,
            status_data(health.online(), health.name(), listeners, true),
            seq,
        );
    let data = status_data(health.online(), health.name(), listeners, true);
    lemma_event_is_object(inner);
    law_fresh_event_carries_its_data(inner, "status"@, data, seq);
    law_status_says_what_is_known(health.online(), health.name(), listeners, true, "kind"@);
    law_connection_is_put_into_the_frame(inner, false, "kind"@);
    law_connection_is_put_into_the_frame(inner, false, "type"@);
    law_connection_is_put_into_the_frame(inner, false, "data"@);
    reveal_strlit("wsConnected");
    reveal_strlit("kind");
    reveal_strlit("type");
    reveal_strlit("data");
    assert("wsConnected"@.len() == 11);
    assert("kind"@.len() == 4);
    assert("type"@.len() == 4);
    assert("data"@.len() == 4);
    assert("kind"@[0] != "type"@[0]);
    assert("kind"@[0] != "data"@[0]);
    assert("type"@[0] != "data"@[0]);
}

/// A submission says what it holds, each member of its own.
pub proof fn law_submission_says_what_it_holds(p: SettingsPatch)
    ensures
        p@.server_url == p.server_url@,
        p@.channel_id == p.channel_id@,
        p@.auto_connect == p.auto_connect,
        p@.webhook_url == p.webhook_url@,
        p@.webhook_template == p.webhook_template@,
{
}

} // verus!
