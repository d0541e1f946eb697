//! The link to the server: what is sent when, and what is done about what comes in.
//!
//! - On every connection the first frame is `hello`; whatever is to be sent before it waits
//!   behind a latch. Then come the frames that waited, then the events that the server has
//!   not acknowledged.
//! - A command is carried out once per id, answered by a result, and logged.
//! - Messages from the sidecar go up as events, a picture with its file, a voice message
//!   with its transcript.
//! - A heartbeat probes WeChat; a change of health is reported.
//! - New friend requests are asked for every now and then.

use vstd::prelude::*;
use crate::agent_link::inbound::{
    fresh_event, friend_request_data, friend_request_event, law_friend_request_names_who_asks,
    message_data, message_event_from_notification, seq_after, status_data, status_event, text_or,
    EventIds,
};
use crate::agent_link::pending::CommandTracker;
use crate::alert::{post_fits, AlertClient, AlertClientView, AlertPost};
use crate::json::{lemma_put_get, trees_of, Json, JsonTree};
use crate::outbox::{
    belongs, entry_for, frames, json_views, newest, without, EntryView, Outbox,
};
use crate::sidecar::protocol::{member_or_null, outcome, RpcError, RpcErrorView};
use crate::text::{same_text, texts};
use crate::text_set::TextSet;
use crate::wx::{law_operations_say_what_was_asked, random_upto, sidecar_params, WxHealth};

pub mod inbound;
pub mod pending;

verus! {

/// The time between two heartbeats, in milliseconds.
pub const HEARTBEAT_INTERVAL: u64 = 30_000;

/// The first part of the time between two heartbeats, after which a halt is looked for.
pub const HEARTBEAT_SLICE: u64 = 1_000;

/// The shortest time between two looks for friend requests, in seconds.
pub const FRIEND_POLL_MIN_SECS: u64 = 60;

/// How much longer the time may be, in seconds.
pub const FRIEND_POLL_JITTER_SECS: u64 = 240;

/// How long to wait before subscribing to a restarted sidecar, in milliseconds.
pub const RESUBSCRIBE_BACKOFF: u64 = 500;

/// The words of a friend request.
pub const FRIEND_REQUEST_WORDS: &'static str = "请求添加好友";

/// The version of the protocol.
pub const PROTOCOL_VERSION: u64 = 1;

/// The words of an alert about WeChat's health: a title and a detail.
pub open spec fn health_words(h: WxHealth) -> (Seq<char>, Seq<char>) {
    match h {
        WxHealth::Online => ("微信已恢复"@, "心跳探测恢复在线"@),
        WxHealth::Offline => (
            "微信掉线"@,
            "心跳探测离线（微信关闭/掉登录/窗口不可操作）"@,
        ),
        WxHealth::Unreachable => (
            "sidecar 无响应"@,
            "心跳探测超时——sidecar 疑似 UIA 卡死，watchdog 将自动重启恢复"@,
        ),
    }
}

/// The words of an alert about WeChat's health: one that hangs is told apart from one that
/// is gone.
pub fn health_alert_text(h: &WxHealth) -> (r: (&'static str, &'static str))
    ensures
        (r.0@, r.1@) == health_words(*h),
{
    match h {
        WxHealth::Online => ("微信已恢复", "心跳探测恢复在线"),
        WxHealth::Offline => (
            "微信掉线",
            "心跳探测离线（微信关闭/掉登录/窗口不可操作）",
        ),
        WxHealth::Unreachable => (
            "sidecar 无响应",
            "心跳探测超时——sidecar 疑似 UIA 卡死，watchdog 将自动重启恢复",
        ),
    }
}

/// The latch before `hello`: while it is shut, frames wait in it.
pub struct Latch {
    pending: bool,
    buffer: Vec<Json>,
}

/// What the latch holds.
pub struct LatchState {
    /// Whether `hello` is still to come.
    pub pending: bool,
    /// The frames that wait.
    pub buffer: Seq<JsonTree>,
}

/// What can happen at the latch.
pub enum LatchEvent {
    /// A connection has been made.
    Connected,
    /// A frame is to be sent.
    Frame(JsonTree),
    /// `hello` is ready.
    Hello(JsonTree),
}

/// The latch after an event, and what is sent because of it.
pub open spec fn latch_after(g: LatchState, e: LatchEvent) -> (LatchState, Seq<JsonTree>) {
    match e {
        LatchEvent::Connected => (LatchState { pending: true, ..g }, Seq::empty()),
        LatchEvent::Frame(f) => if g.pending {
            (LatchState { buffer: g.buffer.push(f), ..g }, Seq::empty())
        } else {
            (g, seq![f])
        },
        LatchEvent::Hello(h) => (
            LatchState { pending: false, buffer: Seq::empty() },
            seq![h] + g.buffer,
        ),
    }
}

/// The frames that are sent at once: one or none.
pub open spec fn sent(o: Option<Json>) -> Seq<JsonTree> {
    match o {
        Some(j) => seq![j@],
        None => Seq::empty(),
    }
}

impl Latch {
    /// What the latch holds.
    pub closed spec fn view(&self) -> LatchState {
        LatchState { pending: self.pending, buffer: json_views(self.buffer@) }
    }

    /// An open latch.
    pub fn new() -> (r: Latch)
        ensures
            r.view() == (LatchState { pending: false, buffer: Seq::empty() }),
    {
        let r = Latch { pending: false, buffer: Vec::new() };
        assert(r.view().buffer =~= Seq::empty());
        r
    }

    /// Shuts the latch: a connection has been made, its `hello` is being prepared.
    pub fn arm(&mut self)
        ensures
            final(self).view() == latch_after(old(self).view(), LatchEvent::Connected).0,
    {
        self.pending = true;
    }

    /// Whether `hello` is still to come.
    pub fn is_hello_pending(&self) -> (r: bool)
        ensures
            r == self.view().pending,
    {
        self.pending
    }

    /// Brings a frame to the latch: it comes back if it can be sent at once, and waits
    /// otherwise.
    pub fn send_frame(&mut self, frame: Json) -> (r: Option<Json>)
        ensures
            (final(self).view(), sent(r)) == latch_after(
                old(self).view(),
                LatchEvent::Frame(frame@),
            ),
    {
        if self.pending {
            let ghost before = self.view();
            self.buffer.push(frame);
            assert(self.view().buffer =~= before.buffer.push(frame@));
            None
        } else {
            Some(frame)
        }
    }

    /// Opens the latch and lets out what waited, in order.
    pub fn open(&mut self) -> (r: Vec<Json>)
        ensures
            final(self).view() == (LatchState { pending: false, buffer: Seq::empty() }),
            json_views(r@) == old(self).view().buffer,
    {
        self.pending = false;
        let mut out: Vec<Json> = Vec::new();
        std::mem::swap(&mut out, &mut self.buffer);
        assert(self.view().buffer =~= Seq::empty());
        out
    }
}

/// The latch after a number of frames, and what is sent because of them.
pub open spec fn latch_after_frames(g: LatchState, fs: Seq<JsonTree>) -> (LatchState, Seq<JsonTree>)
    decreases fs.len(),
{
    if fs.len() == 0 {
        (g, Seq::empty())
    } else {
        let (g1, first) = latch_after_frames(g, fs.drop_last());
        let (g2, more) = latch_after(g1, LatchEvent::Frame(fs.last()));
        (g2, first + more)
    }
}

/// At an open latch every frame is sent, in order; at a shut one all of them wait, in order.
proof fn lemma_latch_after_frames(g: LatchState, fs: Seq<JsonTree>)
    ensures
        g.pending ==> latch_after_frames(g, fs) == (
            LatchState { buffer: g.buffer + fs, ..g },
            Seq::<JsonTree>::empty(),
        ),
        !g.pending ==> latch_after_frames(g, fs) == (g, fs),
    decreases fs.len(),
{
    if fs.len() == 0 {
        assert(g.buffer + fs =~= g.buffer);
        assert(fs =~= Seq::<JsonTree>::empty());
    } else {
        lemma_latch_after_frames(g, fs.drop_last());
        assert((g.buffer + fs.drop_last()).push(fs.last()) =~= g.buffer + fs);
        assert(fs.drop_last() + seq![fs.last()] =~= fs);
        assert(Seq::<JsonTree>::empty() + Seq::<JsonTree>::empty() =~= Seq::<JsonTree>::empty());
    }
}

/// On every connection `hello` is the first frame; the frames that were to be sent before
/// it follow, then those that come after it: none is lost, none is sent twice, none
/// overtakes another.
pub proof fn law_hello_comes_first(
    g: LatchState,
    before: Seq<JsonTree>,
    hello: JsonTree,
    after: Seq<JsonTree>,
)
    ensures
        ({
            let (g1, s1) = latch_after(g, LatchEvent::Connected);
            let (g2, s2) = latch_after_frames(g1, before);
            let (g3, s3) = latch_after(g2, LatchEvent::Hello(hello));
            let (g4, s4) = latch_after_frames(g3, after);
            &&& s1 + s2 + s3 + s4 == seq![hello] + g.buffer + before + after
            &&& g4 == (LatchState { pending: false, buffer: Seq::empty() })
        }),
{
    let g1 = latch_after(g, LatchEvent::Connected).0;
    lemma_latch_after_frames(g1, before);
    let g2 = latch_after_frames(g1, before).0;
    let g3 = latch_after(g2, LatchEvent::Hello(hello)).0;
    lemma_latch_after_frames(g3, after);
    let s1 = latch_after(g, LatchEvent::Connected).1;
    let s2 = latch_after_frames(g1, before).1;
    let s3 = latch_after(g2, LatchEvent::Hello(hello)).1;
    let s4 = latch_after_frames(g3, after).1;
    assert(s1 + s2 + s3 + s4 =~= seq![hello] + g.buffer + before + after);
}

/// The `hello` frame, for what `get_my_info` gave.
pub open spec fn hello_tree(
    info: Result<JsonTree, RpcErrorView>,
    app_version: Seq<char>,
    hostname: Seq<char>,
    channel_id: Seq<char>,
    ts: u64,
) -> JsonTree {
    let me = match info {
        Ok(t) => t,
        Err(_) => JsonTree::object(),
    };
    JsonTree::object().put("kind"@, JsonTree::Str("hello"@)).put(
        "protocolVersion"@,
        JsonTree::Int(PROTOCOL_VERSION as int),
    ).put("appVersion"@, JsonTree::Str(app_version)).put(
        "wxid"@,
        JsonTree::Str(text_or(me.get_str("wxid"@), ""@)),
    ).put("nickname"@, JsonTree::Str(text_or(me.get_str("nickname"@), ""@))).put(
        "hostname"@,
        JsonTree::Str(hostname),
    ).put("channelId"@, JsonTree::Str(channel_id)).put("ts"@, JsonTree::Int(ts as int))
}

/// A string member of an answer, empty where there is none.
fn answer_text(info: &Result<Json, RpcError>, key: &str) -> (r: Json)
    ensures
        r@ == JsonTree::Str(
            text_or(
                match outcome(*info) {
                    Ok(t) => t.get_str(key@),
                    Err(_) => None,
                },
                ""@,
            ),
        ),
{
    match info {
        Ok(j) => match j.get_str(key) {
            Some(s) => Json::text(s),
            None => Json::text(""),
        },
        Err(_) => Json::text(""),
    }
}

/// The `hello` frame. Where the sidecar could not be asked, the names are empty.
pub fn hello_frame(
    info: &Result<Json, RpcError>,
    app_version: &str,
    hostname: &str,
    channel_id: &str,
    ts: u64,
) -> (r: Json)
    ensures
        r@ == hello_tree(outcome(*info), app_version@, hostname@, channel_id@, ts),
{
    Json::object().put("kind", Json::text("hello")).put(
        "protocolVersion",
        Json::Uint(PROTOCOL_VERSION),
    ).put("appVersion", Json::text(app_version)).put("wxid", answer_text(info, "wxid")).put(
        "nickname",
        answer_text(info, "nickname"),
    ).put("hostname", Json::text(hostname)).put("channelId", Json::text(channel_id)).put(
        "ts",
        Json::Uint(ts),
    )
}

/// The link: where it goes, whether it is connected, what it holds back before `hello`, and
/// which commands it is carrying out. The outbox and the numbers of events outlive it.
pub struct AgentLink {
    url: String,
    channel_id: String,
    ws_connected: bool,
    halted: bool,
    latch: Latch,
    tracker: CommandTracker,
    alert: Option<AlertClient>,
}

/// What a link knows.
pub struct AgentLinkState {
    pub url: Seq<char>,
    pub channel_id: Seq<char>,
    /// Whether the server is connected.
    pub ws_connected: bool,
    /// Whether the link has been told to stop, for good.
    pub halted: bool,
    pub latch: LatchState,
    /// The ids of the commands that are being carried out.
    pub running: Set<Seq<char>>,
    /// Where alerts go.
    pub alert: Option<AlertClientView>,
}

/// What the link does next to greet the server.
pub enum GreetAction {
    /// Ask the sidecar who is logged in.
    AskInfo,
    /// Send these frames, then ask the sidecar to listen to every chat on the list.
    Send(Vec<Json>),
    /// Look at WeChat.
    Probe,
    /// Send this event.
    Announce(Json),
    /// Nothing: the greeting is over, or the event does not belong here.
    Nothing,
}

/// What happens while the link greets the server.
pub enum GreetEvent {
    /// The sidecar has answered who is logged in, or has not.
    Info { info: Result<Json, RpcError>, app_version: String, hostname: String, ts: u64 },
    /// The sidecar has been asked to listen to every chat on the list.
    Resynced,
    /// WeChat has been looked at; so many chats are listened to.
    Probed { health: WxHealth, listeners: usize },
}

/// How far the greeting has come.
#[derive(Debug, Clone, Copy, PartialEq, Eq, Structural)]
pub enum GreetStage {
    Asking,
    Resyncing,
    Probing,
    Over,
}

/// The greeting of the server on a new connection: `hello`, what waited, what was not
/// acknowledged; then the listeners; then the status.
pub struct Greeting {
    stage: GreetStage,
}

impl AgentLink {
    /// What the link knows.
    pub closed spec fn view(&self) -> AgentLinkState {
        AgentLinkState {
            url: self.url@,
            channel_id: self.channel_id@,
            ws_connected: self.ws_connected,
            halted: self.halted,
            latch: self.latch.view(),
            running: self.tracker.view(),
            alert: match self.alert {
                Some(c) => Some(c.view()),
                None => None,
            },
        }
    }

    /// A link to an address, not connected.
    pub fn new(url: String) -> (r: AgentLink)
        ensures
            r.view() == (AgentLinkState {
                url: url@,
                channel_id: ""@,
                ws_connected: false,
                halted: false,
                latch: LatchState { pending: false, buffer: Seq::empty() },
                running: Set::empty(),
                alert: None,
            }),
    {
        AgentLink {
            url,
            channel_id: "".to_owned(),
            ws_connected: false,
            halted: false,
            latch: Latch::new(),
            tracker: CommandTracker::new(),
            alert: None,
        }
    }

    /// The address.
    pub fn url(&self) -> (r: &str)
        ensures
            r@ == self.view().url,
    {
        self.url.as_str()
    }

    /// Sets the channel that `hello` names.
    pub fn set_channel_id(&mut self, channel_id: String)
        ensures
            final(self).view() == (AgentLinkState {
                channel_id: channel_id@,
                ..old(self).view()
            }),
    {
        self.channel_id = channel_id;
    }

    /// Sets where alerts go.
    pub fn set_alert_sink(&mut self, client: AlertClient)
        ensures
            final(self).view() == (AgentLinkState {
                alert: Some(client.view()),
                ..old(self).view()
            }),
    {
        self.alert = Some(client);
    }

    /// The request for the alert about a change of health: none where alerts go nowhere.
    pub fn on_health_changed(&self, health: &WxHealth, ts: u64) -> (r: Option<AlertPost>)
        ensures
            match self.view().alert {
                Some(c) => post_fits(r, c, health_words(*health).0, health_words(*health).1, ts),
                None => r is None,
            },
    {
        match &self.alert {
            Some(client) => {
                let (title, detail) = health_alert_text(health);
                client.send(title, detail, ts)
            },
            None => None,
        }
    }

    /// Whether the server is connected.
    pub fn ws_connected(&self) -> (r: bool)
        ensures
            r == self.view().ws_connected,
    {
        self.ws_connected
    }

    /// Whether `hello` is still to come.
    pub fn is_hello_pending(&self) -> (r: bool)
        ensures
            r == self.view().latch.pending,
    {
        self.latch.is_hello_pending()
    }

    /// Whether the link has been told to stop.
    pub fn is_halted(&self) -> (r: bool)
        ensures
            r == self.view().halted,
    {
        self.halted
    }

    /// The link stops: it is no longer connected, and will not run again.
    pub fn halt(&mut self)
        ensures
            final(self).view() == (AgentLinkState {
                ws_connected: false,
                halted: true,
                ..old(self).view()
            }),
    {
        self.halted = true;
        self.ws_connected = false;
    }

    /// A connection has been made: from now on frames wait until `hello` is sent.
    pub fn on_connect(&mut self) -> (r: (Greeting, GreetAction))
        ensures
            final(self).view() == (AgentLinkState {
                ws_connected: true,
                latch: latch_after(old(self).view().latch, LatchEvent::Connected).0,
                ..old(self).view()
            }),
            r.0.view() == GreetStage::Asking,
            r.1 == GreetAction::AskInfo,
    {
        self.ws_connected = true;
        self.latch.arm();
        (Greeting { stage: GreetStage::Asking }, GreetAction::AskInfo)
    }

    /// The connection is gone.
    pub fn on_disconnect(&mut self)
        ensures
            final(self).view() == (AgentLinkState { ws_connected: false, ..old(self).view() }),
    {
        self.ws_connected = false;
    }

    /// Sends a frame: it comes back if it can be sent at once, and waits for `hello`
    /// otherwise.
    pub fn send_frame(&mut self, frame: Json) -> (r: Option<Json>)
        ensures
            final(self).view() == (AgentLinkState {
                latch: latch_after(old(self).view().latch, LatchEvent::Frame(frame@)).0,
                ..old(self).view()
            }),
            sent(r) == latch_after(old(self).view().latch, LatchEvent::Frame(frame@)).1,
    {
        self.latch.send_frame(frame)
    }

    /// Sends an event: first it goes into the outbox, then to the latch, so that one that is
    /// lost on the way is sent again after a reconnect.
    pub fn emit_event(&mut self, outbox: &mut Outbox, frame: Json, now: u64) -> (r: Emission)
        requires
            old(outbox).wf(),
        ensures
            final(outbox).wf(),
            final(outbox).is_enabled() == old(outbox).is_enabled(),
            if old(outbox).is_enabled() && belongs(frame@) {
                let e = entry_for(frame@, now);
                &&& final(outbox).view() == newest(old(outbox).view().push(e))
                &&& r.append matches Some(line) && line@ == e.line()
            } else {
                r.append is None && final(outbox).view() == old(outbox).view()
            },
            final(self).view() == (AgentLinkState {
                latch: latch_after(old(self).view().latch, LatchEvent::Frame(frame@)).0,
                ..old(self).view()
            }),
            sent(r.send) == latch_after(old(self).view().latch, LatchEvent::Frame(frame@)).1,
    {
        let append = outbox.enqueue(&frame, now);
        let send = self.send_frame(frame);
        Emission { append, send }
    }

    /// Takes in a command: `None` where it is incomplete, or where one with its id is being
    /// carried out already. Otherwise it is to be carried out, and its id is taken.
    pub fn on_command(&mut self, frame: &Json) -> (r: Option<Command>)
        ensures
            match r {
                Some(c) => {
                    &&& is_command(frame@)
                    &&& frame@.get_str("requestId"@) == Some(c.request_id@)
                    &&& frame@.get_str("action"@) == Some(c.action@)
                    &&& c.params@ == member_or_null(frame@, "params"@)
                    &&& !old(self).view().running.contains(c.request_id@)
                    &&& final(self).view() == (AgentLinkState {
                        running: old(self).view().running.insert(c.request_id@),
                        ..old(self).view()
                    })
                },
                None => {
                    &&& !is_command(frame@) || (frame@.get_str("requestId"@) matches Some(id)
                        && old(self).view().running.contains(id))
                    &&& final(self).view() == old(self).view()
                },
            },
    {
        proof {
            reveal_strlit("");
        }
        let request_id = match frame.get_str("requestId") {
            Some(s) => s.to_owned(),
            None => return None,
        };
        let action = match frame.get_str("action") {
            Some(s) => s.to_owned(),
            None => return None,
        };
        if same_text(request_id.as_str(), "") || same_text(action.as_str(), "") {
            return None;
        }
        proof {
            lemma_not_empty(request_id@);
            lemma_not_empty(action@);
        }
        if !self.tracker.begin(request_id.clone()) {
            assert(old(self).view().running.insert(request_id@) =~= old(self).view().running);
            return None;
        }
        let params = match frame.get("params") {
            Some(p) => p.copy(),
            None => Json::Null,
        };
        Some(Command { request_id, action, params })
    }

    /// Ends a command: its id is free again before the result is sent, since the server may
    /// send the same id as soon as it has the result. Gives the result, if it can be sent at
    /// once, and the entry for the log.
    pub fn finish_command(
        &mut self,
        command: &Command,
        result: Result<Json, RpcError>,
        duration_ms: u64,
        ts: u64,
    ) -> (r: (Option<Json>, Json))
        ensures
            ({
                let answer = result_tree(command.request_id@, outcome(result), ts);
                let (latch, out) = latch_after(old(self).view().latch, LatchEvent::Frame(answer));
                &&& sent(r.0) == out
                &&& final(self).view() == (AgentLinkState {
                    latch,
                    running: old(self).view().running.remove(command.request_id@),
                    ..old(self).view()
                })
            }),
            r.1@ == command_log_tree(
                command.request_id@,
                command.action@,
                outcome(result),
                duration_ms,
                ts,
            ),
    {
        self.tracker.finish(command.request_id.as_str());
        let success = result.is_ok();
        let (data, error) = match result {
            Ok(j) => (j, Json::Null),
            Err(e) => (Json::Null, Json::Str(e.message())),
        };
        let log = Json::object().put("requestId", Json::text(command.request_id.as_str())).put(
            "action",
            Json::text(command.action.as_str()),
        ).put("success", Json::Bool(success)).put("durationMs", Json::Uint(duration_ms)).put(
            "ts",
            Json::Uint(ts),
        );
        let log = if success {
            log
        } else {
            log.put("error", error.copy())
        };
        let frame = Json::object().put("kind", Json::text("result")).put(
            "requestId",
            Json::text(command.request_id.as_str()),
        ).put("success", Json::Bool(success)).put("data", data).put("error", error).put(
            "ts",
            Json::Uint(ts),
        );
        (self.latch.send_frame(frame), log)
    }

    /// What a frame from the server is.
    pub fn on_frame(frame: &Json) -> (r: Route)
        ensures
            r == route_of(frame@),
    {
        match frame.get_str("kind") {
            Some(k) => if same_text(k, "command") {
                Route::Command
            } else if same_text(k, "ack") {
                Route::Ack
            } else {
                Route::Ignore
            },
            None => Route::Ignore,
        }
    }

    /// Takes in an acknowledgement: the event leaves the outbox, and the text that the file
    /// is to hold comes back. One without an id, or for an event that is not there, changes
    /// nothing.
    pub fn on_ack(outbox: &mut Outbox, frame: &Json) -> (r: Option<String>)
        requires
            old(outbox).wf(),
        ensures
            final(outbox).wf(),
            final(outbox).is_enabled() == old(outbox).is_enabled(),
            final(outbox).view() == match frame@.get_str("eventId"@) {
                Some(id) => if id.len() > 0 {
                    without(old(outbox).view(), id)
                } else {
                    old(outbox).view()
                },
                None => old(outbox).view(),
            },
            match r {
                Some(text) => text@ == crate::outbox::body(final(outbox).view()),
                None => final(outbox).view() == old(outbox).view(),
            },
            r is Some <==> (frame@.get_str("eventId"@) matches Some(id) && id.len() > 0
                && exists|i: int|
                0 <= i < old(outbox).view().len() && (#[trigger] old(outbox).view()[i]).event_id
                    == id),
    {
        proof {
            reveal_strlit("");
        }
        match frame.get_str("eventId") {
            Some(id) => {
                if same_text(id, "") {
                    None
                } else {
                    proof {
                        lemma_not_empty(id@);
                    }
                    outbox.ack(id)
                }
            },
            None => None,
        }
    }
}

/// A text that is not the empty one is not empty.
proof fn lemma_not_empty(s: Seq<char>)
    requires
        s != ""@,
    ensures
        s.len() > 0,
{
    reveal_strlit("");
    if s.len() == 0 {
        assert(s =~= ""@);
    }
}

impl Greeting {
    /// How far the greeting has come.
    pub closed spec fn view(&self) -> GreetStage {
        self.stage
    }

    /// Takes in an event and says what to do next. The frames to send are, in order, `hello`,
    /// those that waited for it, and the events that the server has not acknowledged. An
    /// event that does not belong here changes nothing.
    pub fn step(
        &mut self,
        event: GreetEvent,
        link: &mut AgentLink,
        outbox: &Outbox,
        ids: &mut EventIds,
    ) -> (r: GreetAction)
        ensures
            match (old(self).view(), event) {
                (GreetStage::Asking, GreetEvent::Info { info, app_version, hostname, ts }) => {
                    let hello = hello_tree(
                        outcome(info),
                        app_version@,
                        hostname@,
                        old(link).view().channel_id,
                        ts,
                    );
                    let (latch, out) = latch_after(old(link).view().latch, LatchEvent::Hello(hello));
                    &&& r matches GreetAction::Send(fs) && json_views(fs@) == out + frames(
                        outbox.view(),
                    )
                    &&& final(self).view() == GreetStage::Resyncing
                    &&& final(link).view() == (AgentLinkState { latch, ..old(link).view() })
                    &&& final(ids).view() == old(ids).view()
                },
                (GreetStage::Resyncing, GreetEvent::Resynced) => {
                    &&& r == GreetAction::Probe
                    &&& final(self).view() == GreetStage::Probing
                    &&& final(link).view() == old(link).view()
                    &&& final(ids).view() == old(ids).view()
                },
                (GreetStage::Probing, GreetEvent::Probed { health, listeners }) => {
                    &&& r matches GreetAction::Announce(f) && fresh_event(
                        f@,
                        "status"@,
                        status_data(health.online(), health.name(), listeners as nat, true),
                        old(ids).view(),
                    )
                    &&& final(self).view() == GreetStage::Over
                    &&& final(link).view() == old(link).view()
                    &&& final(ids).view() == seq_after(old(ids).view())
                },
                _ => {
                    &&& r == GreetAction::Nothing
                    &&& final(self).view() == old(self).view()
                    &&& final(link).view() == old(link).view()
                    &&& final(ids).view() == old(ids).view()
                },
            },
    {
        match (self.stage, event) {
            (GreetStage::Asking, GreetEvent::Info { info, app_version, hostname, ts }) => {
                self.stage = GreetStage::Resyncing;
                let hello = hello_frame(
                    &info,
                    app_version.as_str(),
                    hostname.as_str(),
                    link.channel_id.as_str(),
                    ts,
                );
                let ghost h = hello@;
                let mut out: Vec<Json> = Vec::new();
                out.push(hello);
                let mut buffered = link.latch.open();
                let mut replay = outbox.pending();
                let ghost b = buffered@;
                let ghost p = replay@;
                out.append(&mut buffered);
                out.append(&mut replay);
                assert(json_views(out@) =~= seq![h] + json_views(b) + json_views(p));
                GreetAction::Send(out)
            },
            (GreetStage::Resyncing, GreetEvent::Resynced) => {
                self.stage = GreetStage::Probing;
                GreetAction::Probe
            },
            (GreetStage::Probing, GreetEvent::Probed { health, listeners }) => {
                self.stage = GreetStage::Over;
                GreetAction::Announce(connection_status(&health, listeners, ids))
            },
            _ => GreetAction::Nothing,
        }
    }
}

/// The status of WeChat and of the listeners, for an event.
pub fn connection_status(health: &WxHealth, listeners: usize, ids: &mut EventIds) -> (r: Json)
    ensures
        fresh_event(
            r@,
            "status"@,
            status_data(health.online(), health.name(), listeners as nat, true),
            old(ids).view(),
        ),
        final(ids).view() == seq_after(old(ids).view()),
{
    status_event(health.is_online(), health.as_str(), listeners, true, ids)
}

/// What a frame from the server is.
#[derive(Debug, Clone, Copy, PartialEq, Eq, Structural)]
pub enum Route {
    Command,
    Ack,
    Ignore,
}

/// What a frame from the server is, by its kind.
pub open spec fn route_of(frame: JsonTree) -> Route {
    if frame.get_str("kind"@) == Some("command"@) {
        Route::Command
    } else if frame.get_str("kind"@) == Some("ack"@) {
        Route::Ack
    } else {
        Route::Ignore
    }
}

/// A command from the server.
pub struct Command {
    pub request_id: String,
    pub action: String,
    pub params: Json,
}

/// Whether a frame is a complete command: it has an id and an action, and neither is empty.
pub open spec fn is_command(frame: JsonTree) -> bool {
    &&& text_or(frame.get_str("requestId"@), ""@).len() > 0
    &&& text_or(frame.get_str("action"@), ""@).len() > 0
}

/// The data and the error that a result carries.
pub open spec fn result_parts(r: Result<JsonTree, RpcErrorView>) -> (bool, JsonTree, JsonTree) {
    match r {
        Ok(t) => (true, t, JsonTree::Null),
        Err(e) => (false, JsonTree::Null, JsonTree::Str(e.text())),
    }
}

/// The frame that answers a command.
pub open spec fn result_tree(
    request_id: Seq<char>,
    r: Result<JsonTree, RpcErrorView>,
    ts: u64,
) -> JsonTree {
    let (success, data, error) = result_parts(r);
    JsonTree::object().put("kind"@, JsonTree::Str("result"@)).put(
        "requestId"@,
        JsonTree::Str(request_id),
    ).put("success"@, JsonTree::Bool(success)).put("data"@, data).put("error"@, error).put(
        "ts"@,
        JsonTree::Int(ts as int),
    )
}

/// The entry of a command in the log of commands; a failure has an error.
pub open spec fn command_log_tree(
    request_id: Seq<char>,
    action: Seq<char>,
    r: Result<JsonTree, RpcErrorView>,
    duration_ms: u64,
    ts: u64,
) -> JsonTree {
    let (success, _data, error) = result_parts(r);
    let log = JsonTree::object().put("requestId"@, JsonTree::Str(request_id)).put(
        "action"@,
        JsonTree::Str(action),
    ).put("success"@, JsonTree::Bool(success)).put(
        "durationMs"@,
        JsonTree::Int(duration_ms as int),
    ).put("ts"@, JsonTree::Int(ts as int));
    if success {
        log
    } else {
        log.put("error"@, error)
    }
}

/// What sending an event comes to.
pub struct Emission {
    /// The line to append to the outbox's file, before anything is sent.
    pub append: Option<String>,
    /// The frame to send now, where the latch is open.
    pub send: Option<Json>,
}

/// An event that belongs into the outbox and is sent is among those that are sent again
/// after a reconnect, until the server has acknowledged it: it is the newest entry.
pub proof fn law_event_waits_for_its_ack(s: Seq<EntryView>, frame: JsonTree, now: u64)
    requires
        s.len() <= crate::outbox::MAX_ENTRIES,
        belongs(frame),
    ensures
        ({
            let after = newest(s.push(entry_for(frame, now)));
            &&& after.len() > 0
            &&& after.last() == entry_for(frame, now)
            &&& frames(after).last() == frame
        }),
{
}

/// What the pump of notifications sees.
pub enum PumpEvent {
    /// A notification.
    Note(Json),
    /// Notifications were missed.
    Lagged,
    /// The sidecar is gone.
    Closed,
    /// The link is to stop.
    Halt,
}

/// What the pump of notifications does.
pub enum PumpAction {
    /// Nothing.
    Skip,
    /// Download the picture of a message, then send it.
    Download { msg_id: String, params: Json },
    /// Transcribe the voice of a message, then send it.
    Transcribe { msg_id: String, params: Json },
    /// Send the message.
    Emit { params: Json },
    /// Wait so many milliseconds, then subscribe to the sidecar that is there then.
    Resubscribe(u64),
    /// Stop.
    Exit,
}

/// What the pump of notifications does, as what it means.
pub enum PumpActionView {
    Skip,
    Download { msg_id: Seq<char>, params: JsonTree },
    Transcribe { msg_id: Seq<char>, params: JsonTree },
    Emit { params: JsonTree },
    Resubscribe(u64),
    Exit,
}

impl View for PumpAction {
    type V = PumpActionView;

    open spec fn view(&self) -> PumpActionView {
        match self {
            PumpAction::Skip => PumpActionView::Skip,
            PumpAction::Download { msg_id, params } => PumpActionView::Download {
                msg_id: msg_id@,
                params: params@,
            },
            PumpAction::Transcribe { msg_id, params } => PumpActionView::Transcribe {
                msg_id: msg_id@,
                params: params@,
            },
            PumpAction::Emit { params } => PumpActionView::Emit { params: params@ },
            PumpAction::Resubscribe(ms) => PumpActionView::Resubscribe(*ms),
            PumpAction::Exit => PumpActionView::Exit,
        }
    }
}

/// What a notification calls for.
pub open spec fn note_action(note: JsonTree) -> PumpActionView {
    if note.get_str("method"@) != Some("message.received"@) {
        PumpActionView::Skip
    } else {
        let params = member_or_null(note, "params"@);
        let kind = text_or(params.get_str("msg_type"@), "text"@);
        let msg_id = text_or(params.get_str("msg_id"@), ""@);
        if kind == "image"@ {
            PumpActionView::Download { msg_id, params }
        } else if kind == "voice"@ {
            PumpActionView::Transcribe { msg_id, params }
        } else {
            PumpActionView::Emit { params }
        }
    }
}

/// What the pump does about an event: it goes on, whatever happens to the sidecar, until it
/// is halted.
pub open spec fn pump_action(e: PumpEvent) -> PumpActionView {
    match e {
        PumpEvent::Note(j) => note_action(j@),
        PumpEvent::Lagged => PumpActionView::Skip,
        PumpEvent::Closed => PumpActionView::Resubscribe(RESUBSCRIBE_BACKOFF),
        PumpEvent::Halt => PumpActionView::Exit,
    }
}

/// What the pump of notifications does about an event.
pub fn notification_pump(event: PumpEvent) -> (r: PumpAction)
    ensures
        r@ == pump_action(event),
{
    match event {
        PumpEvent::Halt => PumpAction::Exit,
        PumpEvent::Lagged => PumpAction::Skip,
        PumpEvent::Closed => PumpAction::Resubscribe(RESUBSCRIBE_BACKOFF),
        PumpEvent::Note(note) => {
            let is_message = match note.get_str("method") {
                Some(m) => same_text(m, "message.received"),
                None => false,
            };
            if !is_message {
                return PumpAction::Skip;
            }
            let params = match note.get("params") {
                Some(p) => p.copy(),
                None => Json::Null,
            };
            let msg_id = match params.get_str("msg_id") {
                Some(s) => s.to_owned(),
                None => "".to_owned(),
            };
            let kind = match params.get_str("msg_type") {
                Some(s) => s.to_owned(),
                None => "text".to_owned(),
            };
            if same_text(kind.as_str(), "image") {
                PumpAction::Download { msg_id, params }
            } else if same_text(kind.as_str(), "voice") {
                PumpAction::Transcribe { msg_id, params }
            } else {
                PumpAction::Emit { params }
            }
        },
    }
}

/// The pump stops only when it is halted: a sidecar that is gone makes it subscribe again.
pub proof fn law_pump_outlives_the_sidecar(e: PumpEvent)
    ensures
        pump_action(e) is Exit <==> e is Halt,
        e is Closed ==> pump_action(e) == PumpActionView::Resubscribe(RESUBSCRIBE_BACKOFF),
{
}

/// The parameters that name a message.
pub fn message_params(msg_id: &str) -> (r: Json)
    ensures
        r@ == JsonTree::object().put("msgId"@, JsonTree::Str(msg_id@)),
        r@.get("msgId"@) == Some(JsonTree::Str(msg_id@)),
{
    proof {
        lemma_put_get(JsonTree::object(), "msgId"@, JsonTree::Str(msg_id@), "msgId"@);
    }
    Json::object().put("msgId", Json::text(msg_id))
}

/// The text that a follow-up call gave under a key: none where the call failed.
pub open spec fn follow_up_text(r: Result<JsonTree, RpcErrorView>, key: Seq<char>) -> Option<
    Seq<char>,
> {
    match r {
        Ok(t) => t.get_str(key),
        Err(_) => None,
    }
}

/// The data of a message once the follow-up call is done.
pub open spec fn follow_up_data(
    params: JsonTree,
    image: bool,
    r: Result<JsonTree, RpcErrorView>,
) -> JsonTree {
    if image {
        message_data(params, follow_up_text(r, "path"@), None)
    } else {
        message_data(params, None, follow_up_text(r, "text"@))
    }
}

/// The message event once the follow-up call is done. A picture comes with the `path` of its
/// file, a voice message with the `text` of its transcript; where the call failed, the message
/// goes up without.
pub fn message_after_follow_up(
    params: &Json,
    image: bool,
    result: &Result<Json, RpcError>,
    ids: &mut EventIds,
) -> (r: Json)
    ensures
        fresh_event(
            r@,
            "message"@,
            follow_up_data(params@, image, outcome(*result)),
            old(ids).view(),
        ),
        final(ids).view() == seq_after(old(ids).view()),
{
    let key = if image {
        "path"
    } else {
        "text"
    };
    let text = match result {
        Ok(j) => j.get_str(key),
        Err(_) => None,
    };
    if image {
        message_event_from_notification(params, text, None, ids)
    } else {
        message_event_from_notification(params, None, text, ids)
    }
}

/// Where the heartbeat stands.
#[derive(Debug, Clone, Copy, PartialEq, Eq, Structural)]
pub enum HeartbeatStage {
    /// A beat is over, or none has been.
    Idle,
    /// In the first part of the sleep between two beats.
    FirstSleep,
    /// In the rest of it.
    SecondSleep,
    /// WeChat is being looked at.
    Probing,
    Stopped,
}

/// The heartbeat: where it stands, and what it knew of WeChat last.
pub struct Heartbeat {
    stage: HeartbeatStage,
    last: Option<WxHealth>,
}

/// What the heartbeat knows.
pub struct HeartbeatState {
    pub stage: HeartbeatStage,
    pub last: Option<WxHealth>,
}

/// What happens to the heartbeat.
#[derive(Debug, Clone, Copy, PartialEq, Eq, Structural)]
pub enum HeartbeatEvent {
    /// It begins, or goes on after a beat.
    Begin,
    /// A sleep is over; whether the link has been told to stop.
    Slept { halted: bool },
    /// The link has been told to stop.
    Halt,
    /// WeChat has been looked at.
    Probed { health: WxHealth, ts: u64 },
}

/// What the heartbeat does next.
pub enum HeartbeatAction {
    /// Sleep so many milliseconds.
    Sleep(u64),
    /// Look at WeChat.
    Probe,
    /// Send the ping; where there is an alert, raise it and send a status event with it.
    Beat(Beat),
    /// Stop.
    Exit,
    /// Nothing: the event does not belong here.
    Ignore,
}

/// The frame of a heartbeat.
pub open spec fn ping_tree(online: bool, ts: u64) -> JsonTree {
    JsonTree::object().put("kind"@, JsonTree::Str("ping"@)).put(
        "wxOnline"@,
        JsonTree::Bool(online),
    ).put("ts"@, JsonTree::Int(ts as int))
}

/// Whether a probe has found something else than was known last.
pub open spec fn health_changed(last: Option<WxHealth>, health: WxHealth) -> bool {
    last != Some(health)
}

/// What a beat of the heart comes to.
pub struct Beat {
    /// The frame to send.
    pub ping: Json,
    /// The alert to raise, where the health has changed: a title and a detail. A status
    /// event goes with it.
    pub alert: Option<(&'static str, &'static str)>,
}

impl Beat {
    /// A ping every time, an alert only when the health has changed.
    pub open spec fn fits(self, last: Option<WxHealth>, health: WxHealth, ts: u64) -> bool {
        &&& self.ping@ == ping_tree(health.online(), ts)
        &&& self.alert is Some <==> health_changed(last, health)
        &&& self.alert matches Some(words) ==> (words.0@, words.1@) == health_words(health)
    }
}

impl HeartbeatState {
    /// What the heartbeat knows after an event. One that does not belong here changes
    /// nothing.
    pub open spec fn after(self, e: HeartbeatEvent) -> HeartbeatState {
        match (self.stage, e) {
            (HeartbeatStage::Stopped, _) => self,
            (_, HeartbeatEvent::Halt) => HeartbeatState { stage: HeartbeatStage::Stopped, ..self },
            (HeartbeatStage::Idle, HeartbeatEvent::Begin) => HeartbeatState {
                stage: HeartbeatStage::FirstSleep,
                ..self
            },
            (HeartbeatStage::FirstSleep, HeartbeatEvent::Slept { halted }) => HeartbeatState {
                stage: if halted {
                    HeartbeatStage::Stopped
                } else {
                    HeartbeatStage::SecondSleep
                },
                ..self
            },
            (HeartbeatStage::SecondSleep, HeartbeatEvent::Slept { halted }) => HeartbeatState {
                stage: if halted {
                    HeartbeatStage::Stopped
                } else {
                    HeartbeatStage::Probing
                },
                ..self
            },
            (HeartbeatStage::Probing, HeartbeatEvent::Probed { health, .. }) => HeartbeatState {
                stage: HeartbeatStage::Idle,
                last: Some(health),
            },
            _ => self,
        }
    }

    /// Whether an action is what an event calls for.
    pub open spec fn calls_for(self, e: HeartbeatEvent, a: HeartbeatAction) -> bool {
        match (self.stage, e) {
            (HeartbeatStage::Stopped, _) => a == HeartbeatAction::Ignore,
            (_, HeartbeatEvent::Halt) => a == HeartbeatAction::Exit,
            (HeartbeatStage::Idle, HeartbeatEvent::Begin) => a == HeartbeatAction::Sleep(
                HEARTBEAT_SLICE,
            ),
            (HeartbeatStage::FirstSleep, HeartbeatEvent::Slept { halted }) => a == if halted {
                HeartbeatAction::Exit
            } else {
                HeartbeatAction::Sleep((HEARTBEAT_INTERVAL - HEARTBEAT_SLICE) as u64)
            },
            (HeartbeatStage::SecondSleep, HeartbeatEvent::Slept { halted }) => a == if halted {
                HeartbeatAction::Exit
            } else {
                HeartbeatAction::Probe
            },
            (HeartbeatStage::Probing, HeartbeatEvent::Probed { health, ts }) => a matches
                HeartbeatAction::Beat(b) && b.fits(self.last, health, ts),
            _ => a == HeartbeatAction::Ignore,
        }
    }
}

impl Heartbeat {
    /// What the heartbeat knows.
    pub closed spec fn view(&self) -> HeartbeatState {
        HeartbeatState { stage: self.stage, last: self.last }
    }

    /// Nothing is known yet.
    pub fn new() -> (r: Heartbeat)
        ensures
            r.view() == (HeartbeatState { stage: HeartbeatStage::Idle, last: None }),
    {
        Heartbeat { stage: HeartbeatStage::Idle, last: None }
    }

    /// A beat, for what a probe has found.
    fn beat(&mut self, health: WxHealth, ts: u64) -> (r: Beat)
        ensures
            final(self).view() == (HeartbeatState { last: Some(health), ..old(self).view() }),
            r.fits(old(self).view().last, health, ts),
    {
        let ping = Json::object().put("kind", Json::text("ping")).put(
            "wxOnline",
            Json::Bool(health.is_online()),
        ).put("ts", Json::Uint(ts));
        let changed = match self.last {
            Some(h) => h != health,
            None => true,
        };
        self.last = Some(health);
        let alert = if changed {
            Some(health_alert_text(&health))
        } else {
            None
        };
        Beat { ping, alert }
    }

    /// Takes in an event and says what to do next.
    pub fn heartbeat_loop(&mut self, event: HeartbeatEvent) -> (r: HeartbeatAction)
        ensures
            final(self).view() == old(self).view().after(event),
            old(self).view().calls_for(event, r),
    {
        match (self.stage, event) {
            (HeartbeatStage::Stopped, _) => HeartbeatAction::Ignore,
            (_, HeartbeatEvent::Halt) => {
                self.stage = HeartbeatStage::Stopped;
                HeartbeatAction::Exit
            },
            (HeartbeatStage::Idle, HeartbeatEvent::Begin) => {
                self.stage = HeartbeatStage::FirstSleep;
                HeartbeatAction::Sleep(HEARTBEAT_SLICE)
            },
            (HeartbeatStage::FirstSleep, HeartbeatEvent::Slept { halted }) => {
                if halted {
                    self.stage = HeartbeatStage::Stopped;
                    HeartbeatAction::Exit
                } else {
                    self.stage = HeartbeatStage::SecondSleep;
                    HeartbeatAction::Sleep(HEARTBEAT_INTERVAL - HEARTBEAT_SLICE)
                }
            },
            (HeartbeatStage::SecondSleep, HeartbeatEvent::Slept { halted }) => {
                if halted {
                    self.stage = HeartbeatStage::Stopped;
                    HeartbeatAction::Exit
                } else {
                    self.stage = HeartbeatStage::Probing;
                    HeartbeatAction::Probe
                }
            },
            (HeartbeatStage::Probing, HeartbeatEvent::Probed { health, ts }) => {
                self.stage = HeartbeatStage::Idle;
                HeartbeatAction::Beat(self.beat(health, ts))
            },
            _ => HeartbeatAction::Ignore,
        }
    }
}

/// Told to stop, the heartbeat stops, wherever it stands, and stays stopped.
pub proof fn law_heartbeat_stops_when_halted(s: HeartbeatState, e: HeartbeatEvent)
    ensures
        s.after(HeartbeatEvent::Halt).stage == HeartbeatStage::Stopped,
        s.stage == HeartbeatStage::Stopped ==> s.after(e) == s,
        (s.stage == HeartbeatStage::FirstSleep || s.stage == HeartbeatStage::SecondSleep)
            ==> s.after(HeartbeatEvent::Slept { halted: true }).stage == HeartbeatStage::Stopped,
{
}

/// How often the health changes in a sequence of probes.
pub open spec fn alerts_raised(last: Option<WxHealth>, probes: Seq<WxHealth>) -> nat
    decreases probes.len(),
{
    if probes.len() == 0 {
        0
    } else {
        (if health_changed(last, probes[0]) {
            1nat
        } else {
            0nat
        }) + alerts_raised(Some(probes[0]), probes.drop_first())
    }
}

/// As long as the health stays what it was, no alert is raised, however often it is probed.
pub proof fn law_steady_health_raises_no_alert(h: WxHealth, probes: Seq<WxHealth>)
    requires
        forall|i: int| 0 <= i < probes.len() ==> probes[i] == h,
    ensures
        alerts_raised(Some(h), probes) == 0,
    decreases probes.len(),
{
    if probes.len() > 0 {
        law_steady_health_raises_no_alert(h, probes.drop_first());
    }
}

/// Where the look for friend requests stands.
#[derive(Debug, Clone, Copy, PartialEq, Eq, Structural)]
pub enum FriendPollStage {
    /// A look is over, or none has been.
    Idle,
    /// Waiting for the next look.
    Waiting,
    /// The sidecar is being asked.
    Asking,
    Stopped,
}

/// The look for friend requests: where it stands, and who has asked so far.
pub struct FriendPoll {
    stage: FriendPollStage,
    seen: TextSet,
}

/// What the look for friend requests knows.
pub struct FriendPollState {
    pub stage: FriendPollStage,
    pub seen: Set<Seq<char>>,
}

/// What happens to the look for friend requests.
pub enum FriendPollEvent {
    /// It begins, or goes on after a look.
    Begin,
    /// So many milliseconds are left until the next look; whether the link has been told to
    /// stop.
    Left { ms: u64, halted: bool },
    /// The link has been told to stop.
    Halt,
    /// The sidecar has answered, or has not.
    Answered(Result<Json, RpcError>),
}

/// What the look for friend requests does next.
pub enum FriendPollAction {
    /// The next look is so many seconds away.
    Schedule(u64),
    /// Sleep so many milliseconds: a second at most, so that a halt is seen soon.
    Sleep(u64),
    /// Ask the sidecar.
    Ask,
    /// Send a friend request event for each of these names, in order.
    Announce(Vec<String>),
    /// Stop.
    Exit,
    /// Nothing: the event does not belong here.
    Ignore,
}

/// The names in an answer that have not been seen, each once, in order; and all that have
/// been seen then.
pub open spec fn new_names(seen: Set<Seq<char>>, reqs: Seq<JsonTree>) -> (
    Seq<Seq<char>>,
    Set<Seq<char>>,
)
    decreases reqs.len(),
{
    if reqs.len() == 0 {
        (Seq::empty(), seen)
    } else {
        let (names, so_far) = new_names(seen, reqs.drop_last());
        let name = text_or(reqs.last().get_str("name"@), ""@);
        if name.len() > 0 && !so_far.contains(name) {
            (names.push(name), so_far.insert(name))
        } else {
            (names, so_far)
        }
    }
}

/// The requests in an answer: none where the call failed or the answer has none.
pub open spec fn requests_of(r: Result<JsonTree, RpcErrorView>) -> Seq<JsonTree> {
    match r {
        Ok(t) => match t.get("requests"@) {
            Some(v) => match v.as_array() {
                Some(a) => a,
                None => Seq::empty(),
            },
            None => Seq::empty(),
        },
        Err(_) => Seq::empty(),
    }
}

impl FriendPollState {
    /// What the look for friend requests knows after an event. One that does not belong here
    /// changes nothing.
    pub open spec fn after(self, e: FriendPollEvent) -> FriendPollState {
        match (self.stage, e) {
            (FriendPollStage::Stopped, _) => self,
            (_, FriendPollEvent::Halt) => FriendPollState {
                stage: FriendPollStage::Stopped,
                ..self
            },
            (FriendPollStage::Idle, FriendPollEvent::Begin) => FriendPollState {
                stage: FriendPollStage::Waiting,
                ..self
            },
            (FriendPollStage::Waiting, FriendPollEvent::Left { ms, halted }) => FriendPollState {
                stage: if halted {
                    FriendPollStage::Stopped
                } else if ms == 0 {
                    FriendPollStage::Asking
                } else {
                    FriendPollStage::Waiting
                },
                ..self
            },
            (FriendPollStage::Asking, FriendPollEvent::Answered(result)) => FriendPollState {
                stage: FriendPollStage::Idle,
                seen: new_names(self.seen, requests_of(outcome(result))).1,
            },
            _ => self,
        }
    }

    /// Whether an action is what an event calls for.
    pub open spec fn calls_for(self, e: FriendPollEvent, a: FriendPollAction) -> bool {
        match (self.stage, e) {
            (FriendPollStage::Stopped, _) => a == FriendPollAction::Ignore,
            (_, FriendPollEvent::Halt) => a == FriendPollAction::Exit,
            (FriendPollStage::Idle, FriendPollEvent::Begin) => a matches FriendPollAction::Schedule(
                secs,
            ) && FRIEND_POLL_MIN_SECS <= secs <= FRIEND_POLL_MIN_SECS + FRIEND_POLL_JITTER_SECS,
            (FriendPollStage::Waiting, FriendPollEvent::Left { ms, halted }) => a == if halted {
                FriendPollAction::Exit
            } else if ms == 0 {
                FriendPollAction::Ask
            } else {
                FriendPollAction::Sleep(
                    if ms < 1000 {
                        ms
                    } else {
                        1000
                    },
                )
            },
            (FriendPollStage::Asking, FriendPollEvent::Answered(result)) => a matches
                FriendPollAction::Announce(names) && texts(names@) == new_names(
                self.seen,
                requests_of(outcome(result)),
            ).0,
            _ => a == FriendPollAction::Ignore,
        }
    }
}

impl FriendPoll {
    /// What the look for friend requests knows.
    pub closed spec fn view(&self) -> FriendPollState {
        FriendPollState { stage: self.stage, seen: self.seen.view() }
    }

    /// Nobody has asked yet.
    pub fn new() -> (r: FriendPoll)
        ensures
            r.view() == (FriendPollState { stage: FriendPollStage::Idle, seen: Set::empty() }),
    {
        FriendPoll { stage: FriendPollStage::Idle, seen: TextSet::new() }
    }

    /// Takes in an event and says what to do next.
    pub fn friend_poll_loop(&mut self, event: FriendPollEvent) -> (r: FriendPollAction)
        ensures
            final(self).view() == old(self).view().after(event),
            old(self).view().calls_for(event, r),
    {
        match (self.stage, event) {
            (FriendPollStage::Stopped, _) => FriendPollAction::Ignore,
            (_, FriendPollEvent::Halt) => {
                self.stage = FriendPollStage::Stopped;
                FriendPollAction::Exit
            },
            (FriendPollStage::Idle, FriendPollEvent::Begin) => {
                self.stage = FriendPollStage::Waiting;
                FriendPollAction::Schedule(friend_poll_gap())
            },
            (FriendPollStage::Waiting, FriendPollEvent::Left { ms, halted }) => {
                if halted {
                    self.stage = FriendPollStage::Stopped;
                    FriendPollAction::Exit
                } else if ms == 0 {
                    self.stage = FriendPollStage::Asking;
                    FriendPollAction::Ask
                } else if ms < 1000 {
                    FriendPollAction::Sleep(ms)
                } else {
                    FriendPollAction::Sleep(1000)
                }
            },
            (FriendPollStage::Asking, FriendPollEvent::Answered(result)) => {
                self.stage = FriendPollStage::Idle;
                FriendPollAction::Announce(self.on_answer(&result))
            },
            _ => FriendPollAction::Ignore,
        }
    }

    /// Takes in an answer, and gives the names that are new, in order. Each becomes a
    /// friend request event.
    fn on_answer(&mut self, result: &Result<Json, RpcError>) -> (r: Vec<String>)
        ensures
            (texts(r@), final(self).view().seen) == new_names(
                old(self).view().seen,
                requests_of(outcome(*result)),
            ),
            final(self).view().stage == old(self).view().stage,
    {
        let mut out: Vec<String> = Vec::new();
        assert(texts(out@) =~= Seq::empty());
        let answer = match result {
            Ok(j) => j,
            Err(_) => return out,
        };
        let reqs = match answer.get("requests") {
            Some(v) => match v.as_array() {
                Some(a) => a,
                None => return out,
            },
            None => return out,
        };
        let ghost all = trees_of(reqs@);
        let ghost before = self.view().seen;
        let ghost stage = self.view().stage;
        let mut i: usize = 0;
        assert(all.take(0) =~= Seq::empty());
        while i < reqs.len()
            invariant
                i <= reqs@.len(),
                all == trees_of(reqs@),
                (texts(out@), self.view().seen) == new_names(before, all.take(i as int)),
                self.view().stage == stage,
            decreases reqs.len() - i,
        {
            let ghost upto = all.take(i as int + 1);
            assert(upto.drop_last() =~= all.take(i as int));
            assert(upto.last() == reqs@[i as int]@);
            proof {
                reveal_strlit("");
            }
            match reqs[i].get_str("name") {
                Some(s) => {
                    let name = s.to_owned();
                    if !same_text(name.as_str(), "") {
                        proof {
                            lemma_not_empty(name@);
                        }
                        let ghost so_far = self.view().seen;
                        if self.seen.insert(name.clone()) {
                            let ghost o = out@;
                            out.push(name);
                            assert(texts(out@) =~= texts(o).push(name@));
                        } else {
                            assert(so_far.insert(name@) =~= so_far);
                        }
                    }
                },
                None => {},
            }
            i = i + 1;
        }
        assert(all.take(i as int) =~= all);
        out
    }
}

/// The number of seconds until the next look for friend requests, for a number that chance
/// has picked.
pub fn friend_poll_gap_for(pick: u64) -> (r: u64)
    requires
        pick <= FRIEND_POLL_JITTER_SECS,
    ensures
        r == FRIEND_POLL_MIN_SECS + pick,
{
    FRIEND_POLL_MIN_SECS + pick
}

/// A random number of seconds until the next look for friend requests.
pub fn friend_poll_gap() -> (r: u64)
    ensures
        FRIEND_POLL_MIN_SECS <= r <= FRIEND_POLL_MIN_SECS + FRIEND_POLL_JITTER_SECS,
{
    friend_poll_gap_for(random_upto(FRIEND_POLL_JITTER_SECS))
}

/// The event for a name that has asked to become a friend.
pub fn announce_friend(name: &str, ids: &mut EventIds) -> (r: Json)
    ensures
        fresh_event(
            r@,
            "friend_request"@,
            friend_request_data(name@, FRIEND_REQUEST_WORDS@),
            old(ids).view(),
        ),
        final(ids).view() == seq_after(old(ids).view()),
{
    friend_request_event(name, FRIEND_REQUEST_WORDS, ids)
}

/// Nobody is announced twice: of the names that an answer gives as new, none was seen
/// before and none occurs twice; and afterwards all of them have been seen.
pub proof fn law_friends_are_announced_once(seen: Set<Seq<char>>, reqs: Seq<JsonTree>)
    ensures
        ({
            let (names, after) = new_names(seen, reqs);
            &&& names.no_duplicates()
            &&& forall|i: int|
                0 <= i < names.len() ==> !seen.contains(#[trigger] names[i]) && after.contains(
                    names[i],
                )
            &&& seen.subset_of(after)
        }),
    decreases reqs.len(),
{
    if reqs.len() > 0 {
        law_friends_are_announced_once(seen, reqs.drop_last());
        let (names, so_far) = new_names(seen, reqs.drop_last());
        let name = text_or(reqs.last().get_str("name"@), ""@);
        if name.len() > 0 && !so_far.contains(name) {
            assert forall|i: int, j: int|
                0 <= i < j < names.push(name).len() implies names.push(name)[i] != names.push(
                name,
            )[j] by {
                if j == names.len() {
                    assert(so_far.contains(names[i]));
                }
            }
            assert forall|i: int| 0 <= i < names.push(name).len() implies !seen.contains(
                #[trigger] names.push(name)[i],
            ) && so_far.insert(name).contains(names.push(name)[i]) by {
                if i < names.len() {
                    assert(!seen.contains(names[i]));
                }
            }
        }
    }
}

/// While the latch is shut, a frame is kept behind those that wait and nothing is sent; while it
/// is open, a frame is sent at once. A new connection shuts it and drops nothing.
pub proof fn law_frames_wait_while_the_latch_is_shut(g: LatchState, f: JsonTree)
    ensures
        g.pending ==> latch_after(g, LatchEvent::Frame(f)).1.len() == 0,
        g.pending ==> latch_after(g, LatchEvent::Frame(f)).0.pending,
        g.pending ==> latch_after(g, LatchEvent::Frame(f)).0.buffer == g.buffer.push(f),
        !g.pending ==> latch_after(g, LatchEvent::Frame(f)) == (g, seq![f]),
        latch_after(g, LatchEvent::Connected).0.pending,
        latch_after(g, LatchEvent::Connected).0.buffer == g.buffer,
        latch_after(g, LatchEvent::Connected).1.len() == 0,
{
}

/// `hello` names the version of the protocol, the program, the machine and the channel, and who
/// is logged in, as far as the sidecar has told: a name that it has not told is empty.
pub proof fn law_hello_introduces_the_program(
    info: Result<JsonTree, RpcErrorView>,
    app_version: Seq<char>,
    hostname: Seq<char>,
    channel_id: Seq<char>,
    ts: u64,
    k: Seq<char>,
)
    ensures
        ({
            let h = hello_tree(info, app_version, hostname, channel_id, ts);
            &&& h.get("kind"@) == Some(JsonTree::Str("hello"@))
            &&& h.get("protocolVersion"@) == Some(JsonTree::Int(1))
            &&& h.get("appVersion"@) == Some(JsonTree::Str(app_version))
            &&& h.get("hostname"@) == Some(JsonTree::Str(hostname))
            &&& h.get("channelId"@) == Some(JsonTree::Str(channel_id))
            &&& h.get("ts"@) == Some(JsonTree::Int(ts as int))
            &&& match info {
                Ok(t) => {
                    &&& match t.get("wxid"@) {
                        Some(JsonTree::Str(s)) => h.get("wxid"@) == Some(JsonTree::Str(s)),
                        _ => h.get("wxid"@) == Some(JsonTree::Str(""@)),
                    }
                    &&& match t.get("nickname"@) {
                        Some(JsonTree::Str(s)) => h.get("nickname"@) == Some(JsonTree::Str(s)),
                        _ => h.get("nickname"@) == Some(JsonTree::Str(""@)),
                    }
                },
                Err(_) => {
                    &&& h.get("wxid"@) == Some(JsonTree::Str(""@))
                    &&& h.get("nickname"@) == Some(JsonTree::Str(""@))
                },
            }
            &&& h.get(k) is Some ==> k == "kind"@ || k == "protocolVersion"@ || k == "appVersion"@
                || k == "wxid"@ || k == "nickname"@ || k == "hostname"@ || k == "channelId"@ || k
                == "ts"@
        }),
{
    broadcast use lemma_put_get;

    reveal_strlit("kind");
    reveal_strlit("protocolVersion");
    reveal_strlit("appVersion");
    reveal_strlit("wxid");
    reveal_strlit("nickname");
    reveal_strlit("hostname");
    reveal_strlit("channelId");
    reveal_strlit("ts");
    assert("kind"@.len() == 4);
    assert("protocolVersion"@.len() == 15);
    assert("appVersion"@.len() == 10);
    assert("wxid"@.len() == 4);
    assert("nickname"@.len() == 8);
    assert("hostname"@.len() == 8);
    assert("channelId"@.len() == 9);
    assert("ts"@.len() == 2);
    assert("kind"@[0] != "wxid"@[0]);
    assert("nickname"@[0] != "hostname"@[0]);
}

/// A frame is a command exactly where its kind says so, and an acknowledgement exactly where its
/// kind says so; every other frame is passed over.
pub proof fn law_frames_are_routed_by_their_kind(frame: JsonTree)
    ensures
        route_of(frame) == Route::Command <==> frame.get("kind"@) == Some(
            JsonTree::Str("command"@),
        ),
        route_of(frame) == Route::Ack <==> frame.get("kind"@) == Some(JsonTree::Str("ack"@)),
        route_of(frame) == Route::Command || route_of(frame) == Route::Ack || route_of(frame)
            == Route::Ignore,
{
    reveal_strlit("command");
    reveal_strlit("ack");
    assert("command"@.len() != "ack"@.len());
}

/// A command is complete exactly where it has an id and an action, both of them texts that are
/// not empty.
pub proof fn law_commands_have_an_id_and_an_action(frame: JsonTree)
    ensures
        is_command(frame) <==> {
            &&& frame.get("requestId"@) matches Some(JsonTree::Str(id)) && id.len() > 0
            &&& frame.get("action"@) matches Some(JsonTree::Str(action)) && action.len() > 0
        },
{
    reveal_strlit("");
}

/// The answer to a command names the command by its id and says whether it succeeded. A success
/// carries what the operation gave and no error; a failure carries the words of the error and
/// nothing else.
pub proof fn law_answer_belongs_to_its_command(
    request_id: Seq<char>,
    r: Result<JsonTree, RpcErrorView>,
    ts: u64,
    k: Seq<char>,
)
    ensures
        ({
            let f = result_tree(request_id, r, ts);
            &&& f.get("kind"@) == Some(JsonTree::Str("result"@))
            &&& f.get("requestId"@) == Some(JsonTree::Str(request_id))
            &&& f.get("success"@) == Some(JsonTree::Bool(r is Ok))
            &&& f.get("ts"@) == Some(JsonTree::Int(ts as int))
            &&& match r {
                Ok(t) => {
                    &&& f.get("data"@) == Some(t)
                    &&& f.get("error"@) == Some(JsonTree::Null)
                },
                Err(e) => {
                    &&& f.get("data"@) == Some(JsonTree::Null)
                    &&& f.get("error"@) == Some(JsonTree::Str(e.text()))
                },
            }
            &&& f.get(k) is Some ==> k == "kind"@ || k == "requestId"@ || k == "success"@ || k
                == "data"@ || k == "error"@ || k == "ts"@
        }),
{
    broadcast use lemma_put_get;

    lemma_answer_names_differ();
}

/// The entry of a command in the log names the command and its action, says whether it succeeded
/// and how long it took, and has an error exactly where it failed.
pub proof fn law_log_tells_how_a_command_went(
    request_id: Seq<char>,
    action: Seq<char>,
    r: Result<JsonTree, RpcErrorView>,
    duration_ms: u64,
    ts: u64,
    k: Seq<char>,
)
    ensures
        ({
            let l = command_log_tree(request_id, action, r, duration_ms, ts);
            &&& l.get("requestId"@) == Some(JsonTree::Str(request_id))
            &&& l.get("action"@) == Some(JsonTree::Str(action))
            &&& l.get("success"@) == Some(JsonTree::Bool(r is Ok))
            &&& l.get("durationMs"@) == Some(JsonTree::Int(duration_ms as int))
            &&& l.get("ts"@) == Some(JsonTree::Int(ts as int))
            &&& match r {
                Ok(_) => l.get("error"@) is None,
                Err(e) => l.get("error"@) == Some(JsonTree::Str(e.text())),
            }
            &&& l.get(k) is Some ==> k == "requestId"@ || k == "action"@ || k == "success"@ || k
                == "durationMs"@ || k == "ts"@ || k == "error"@
        }),
{
    broadcast use lemma_put_get;

    lemma_answer_names_differ();
}

/// The names of the members of an answer and of an entry in the log are different texts.
proof fn lemma_answer_names_differ()
    ensures
        "kind"@ != "requestId"@,
        "kind"@ != "success"@,
        "requestId"@ != "success"@,
        "kind"@ != "data"@,
        "requestId"@ != "data"@,
        "success"@ != "data"@,
        "kind"@ != "error"@,
        "requestId"@ != "error"@,
        "success"@ != "error"@,
        "data"@ != "error"@,
        "kind"@ != "ts"@,
        "requestId"@ != "ts"@,
        "success"@ != "ts"@,
        "data"@ != "ts"@,
        "error"@ != "ts"@,
        "kind"@ != "action"@,
        "requestId"@ != "action"@,
        "success"@ != "action"@,
        "data"@ != "action"@,
        "error"@ != "action"@,
        "ts"@ != "action"@,
        "kind"@ != "durationMs"@,
        "requestId"@ != "durationMs"@,
        "success"@ != "durationMs"@,
        "data"@ != "durationMs"@,
        "error"@ != "durationMs"@,
        "ts"@ != "durationMs"@,
        "action"@ != "durationMs"@,
{
    reveal_strlit("kind");
    reveal_strlit("requestId");
    reveal_strlit("success");
    reveal_strlit("data");
    reveal_strlit("error");
    reveal_strlit("ts");
    reveal_strlit("action");
    reveal_strlit("durationMs");
    assert("kind"@.len() == 4);
    assert("requestId"@.len() == 9);
    assert("success"@.len() == 7);
    assert("data"@.len() == 4);
    assert("error"@.len() == 5);
    assert("ts"@.len() == 2);
    assert("action"@.len() == 6);
    assert("durationMs"@.len() == 10);
    assert("kind"@[0] != "data"@[0]);
}

/// Every message that comes in is taken care of, and nothing else is: the picture of one is
/// downloaded and the voice of one transcribed, each asked for by the id that the notification
/// gives for the message; every other message is sent as it is.
pub proof fn law_media_are_asked_for_by_their_own_id(j: Json)
    ensures
        ({
            let a = pump_action(PumpEvent::Note(j));
            let p = j@.get("params"@).unwrap_or(JsonTree::Null);
            let id = match p.get("msg_id"@) {
                Some(JsonTree::Str(s)) => s,
                _ => Seq::empty(),
            };
            if j@.get("method"@) != Some(JsonTree::Str("message.received"@)) {
                a is Skip
            } else if p.get("msg_type"@) == Some(JsonTree::Str("image"@)) {
                a matches PumpActionView::Download { msg_id, params } && msg_id == id && params == p
            } else if p.get("msg_type"@) == Some(JsonTree::Str("voice"@)) {
                a matches PumpActionView::Transcribe { msg_id, params } && msg_id == id && params
                    == p
            } else {
                a matches PumpActionView::Emit { params } && params == p
            }
        }),
{
    reveal_strlit("");
    assert(""@ =~= Seq::<char>::empty());
    reveal_strlit("text");
    reveal_strlit("image");
    reveal_strlit("voice");
    assert("text"@.len() == 4);
    assert("image"@.len() == 5);
    assert("voice"@.len() == 5);
    assert("image"@[0] != "voice"@[0]);
}

/// Notifications that were missed change nothing.
pub proof fn law_pump_goes_on_after_a_lag()
    ensures
        pump_action(PumpEvent::Lagged) is Skip,
        RESUBSCRIBE_BACKOFF == 500,
{
}

/// A picture goes up with the path that its download gave, a voice message with the text of its
/// transcript in place of its content. Where the call failed, or gave none, the message goes up
/// all the same, without a path and with the content it came with. Nothing else of the message
/// depends on the call.
pub proof fn law_follow_up_completes_the_message(
    p: JsonTree,
    image: bool,
    r: Result<JsonTree, RpcErrorView>,
    k: Seq<char>,
)
    ensures
        ({
            let d = follow_up_data(p, image, r);
            let plain = message_data(p, None, None);
            &&& image ==> match r {
                Ok(t) => match t.get("path"@) {
                    Some(JsonTree::Str(s)) => d.get("downloadedMedia"@) == Some(JsonTree::Str(s)),
                    _ => d.get("downloadedMedia"@) == Some(JsonTree::Str(""@)),
                },
                Err(_) => d.get("downloadedMedia"@) == Some(JsonTree::Str(""@)),
            }
            &&& image ==> d.get("content"@) == plain.get("content"@)
            &&& !image ==> match r {
                Ok(t) => match t.get("text"@) {
                    Some(JsonTree::Str(s)) => d.get("content"@) == Some(JsonTree::Str(s)),
                    _ => d.get("content"@) == plain.get("content"@),
                },
                Err(_) => d.get("content"@) == plain.get("content"@),
            }
            &&& !image ==> d.get("downloadedMedia"@) == Some(JsonTree::Str(""@))
            &&& k != "content"@ && k != "downloadedMedia"@ ==> d.get(k) == plain.get(k)
        }),
{
    broadcast use lemma_put_get;

    reveal_strlit("chatName");
    reveal_strlit("chatType");
    reveal_strlit("attr");
    reveal_strlit("msgType");
    reveal_strlit("sender");
    reveal_strlit("content");
    reveal_strlit("isAt");
    reveal_strlit("downloadedMedia");
    assert("chatName"@.len() == 8);
    assert("chatType"@.len() == 8);
    assert("attr"@.len() == 4);
    assert("msgType"@.len() == 7);
    assert("sender"@.len() == 6);
    assert("content"@.len() == 7);
    assert("isAt"@.len() == 4);
    assert("downloadedMedia"@.len() == 15);
    assert("chatName"@[4] != "chatType"@[4]);
    assert("msgType"@[0] != "content"@[0]);
    assert("attr"@[0] != "isAt"@[0]);
}

/// Whenever a probe finds another health than the one before, or is the first one, the beat
/// carries an alert in the words of what was found; otherwise it carries none. Every beat has a
/// ping that says whether WeChat is online, and what was found is what the next probe is held
/// against.
pub proof fn law_every_change_of_health_is_reported(
    s: HeartbeatState,
    health: WxHealth,
    ts: u64,
    a: HeartbeatAction,
    k: Seq<char>,
)
    requires
        s.stage == HeartbeatStage::Probing,
        s.calls_for(HeartbeatEvent::Probed { health, ts }, a),
    ensures
        a matches HeartbeatAction::Beat(b) && {
            &&& b.alert is Some <==> (s.last is None || s.last->Some_0 != health)
            &&& b.alert matches Some(words) ==> match health {
                WxHealth::Online => words.0@ == "微信已恢复"@ && words.1@ == "心跳探测恢复在线"@,
                WxHealth::Offline => words.0@ == "微信掉线"@ && words.1@
                    == "心跳探测离线（微信关闭/掉登录/窗口不可操作）"@,
                WxHealth::Unreachable => words.0@ == "sidecar 无响应"@ && words.1@
                    == "心跳探测超时——sidecar 疑似 UIA 卡死，watchdog 将自动重启恢复"@,
            }
            &&& b.ping@.get("kind"@) == Some(JsonTree::Str("ping"@))
            &&& b.ping@.get("wxOnline"@) == Some(JsonTree::Bool(health is Online))
            &&& b.ping@.get("ts"@) == Some(JsonTree::Int(ts as int))
            &&& b.ping@.get(k) is Some ==> k == "kind"@ || k == "wxOnline"@ || k == "ts"@
        },
        s.after(HeartbeatEvent::Probed { health, ts }).last == Some(health),
        s.after(HeartbeatEvent::Probed { health, ts }).stage == HeartbeatStage::Idle,
{
    broadcast use lemma_put_get;

    reveal_strlit("kind");
    reveal_strlit("wxOnline");
    reveal_strlit("ts");
    assert("kind"@.len() == 4);
    assert("wxOnline"@.len() == 8);
    assert("ts"@.len() == 2);
}

/// Of two probes, one after the other, the second raises an alert exactly where it finds
/// something else than the first: WeChat that goes is reported, and so is WeChat that comes back.
/// Between the two lies the full time between heartbeats.
pub proof fn law_two_probes_that_differ_raise_an_alert(
    s: HeartbeatState,
    first: WxHealth,
    second: WxHealth,
    ts1: u64,
    ts2: u64,
    sleep1: HeartbeatAction,
    sleep2: HeartbeatAction,
    probe: HeartbeatAction,
    beat: HeartbeatAction,
)
    requires
        s.stage == HeartbeatStage::Probing,
        ({
            let s1 = s.after(HeartbeatEvent::Probed { health: first, ts: ts1 });
            let s2 = s1.after(HeartbeatEvent::Begin);
            let s3 = s2.after(HeartbeatEvent::Slept { halted: false });
            let s4 = s3.after(HeartbeatEvent::Slept { halted: false });
            &&& s1.calls_for(HeartbeatEvent::Begin, sleep1)
            &&& s2.calls_for(HeartbeatEvent::Slept { halted: false }, sleep2)
            &&& s3.calls_for(HeartbeatEvent::Slept { halted: false }, probe)
            &&& s4.calls_for(HeartbeatEvent::Probed { health: second, ts: ts2 }, beat)
        }),
    ensures
        sleep1 matches HeartbeatAction::Sleep(ms1) && sleep2 matches HeartbeatAction::Sleep(ms2)
            && ms1 == 1_000 && ms1 + ms2 == 30_000,
        probe == HeartbeatAction::Probe,
        beat matches HeartbeatAction::Beat(b) && (b.alert is Some <==> first != second),
{
}

/// The heartbeat looks at WeChat only after both parts of its sleep, beats only after a look, and
/// stops only when it is told to; an event that does not belong where it stands is passed over.
pub proof fn law_heartbeat_keeps_its_order(
    s: HeartbeatState,
    e: HeartbeatEvent,
    a: HeartbeatAction,
)
    requires
        s.calls_for(e, a),
    ensures
        a is Sleep <==> (s.stage == HeartbeatStage::Idle && e is Begin) || (s.stage
            == HeartbeatStage::FirstSleep && e == HeartbeatEvent::Slept { halted: false }),
        a is Probe <==> s.stage == HeartbeatStage::SecondSleep && e == (HeartbeatEvent::Slept {
            halted: false,
        }),
        a is Beat <==> s.stage == HeartbeatStage::Probing && e is Probed,
        a is Exit <==> s.stage != HeartbeatStage::Stopped && (e is Halt || ((s.stage
            == HeartbeatStage::FirstSleep || s.stage == HeartbeatStage::SecondSleep) && e
            == HeartbeatEvent::Slept { halted: true })),
        a is Exit ==> s.after(e).stage == HeartbeatStage::Stopped,
        a is Sleep && s.stage == HeartbeatStage::Idle ==> s.after(e).stage
            == HeartbeatStage::FirstSleep,
        a is Sleep && s.stage == HeartbeatStage::FirstSleep ==> s.after(e).stage
            == HeartbeatStage::SecondSleep,
        a is Probe ==> s.after(e).stage == HeartbeatStage::Probing,
        a is Ignore ==> s.after(e) == s,
        !(a is Beat) ==> s.after(e).last == s.last,
{
}

/// Who is among the names of an answer, and who has been seen then.
proof fn lemma_new_names(seen: Set<Seq<char>>, reqs: Seq<JsonTree>, name: Seq<char>)
    ensures
        ({
            let (names, after) = new_names(seen, reqs);
            let asks = name.len() > 0 && exists|i: int|
                0 <= i < reqs.len() && (#[trigger] reqs[i]).get("name"@) == Some(
                    JsonTree::Str(name),
                );
            &&& names.contains(name) <==> asks && !seen.contains(name)
            &&& after.contains(name) <==> asks || seen.contains(name)
        }),
    decreases reqs.len(),
{
    reveal_strlit("");
    if reqs.len() > 0 {
        let init = reqs.drop_last();
        lemma_new_names(seen, init, name);
        let (names, so_far) = new_names(seen, init);
        let last = text_or(reqs.last().get_str("name"@), ""@);
        lemma_new_names(seen, init, last);
        assert(forall|i: int| 0 <= i < init.len() ==> init[i] == #[trigger] reqs[i]);
        assert(reqs[reqs.len() - 1] == reqs.last());
        if last.len() > 0 {
            assert(reqs.last().get("name"@) == Some(JsonTree::Str(last)));
        }
        if exists|i: int|
            0 <= i < reqs.len() && (#[trigger] reqs[i]).get("name"@) == Some(JsonTree::Str(name)) {
            let i = choose|i: int|
                0 <= i < reqs.len() && (#[trigger] reqs[i]).get("name"@) == Some(
                    JsonTree::Str(name),
                );
            if i < init.len() {
                assert(init[i].get("name"@) == Some(JsonTree::Str(name)));
            }
        }
        if exists|i: int|
            0 <= i < init.len() && (#[trigger] init[i]).get("name"@) == Some(JsonTree::Str(name)) {
            let i = choose|i: int|
                0 <= i < init.len() && (#[trigger] init[i]).get("name"@) == Some(
                    JsonTree::Str(name),
                );
            assert(reqs[i].get("name"@) == Some(JsonTree::Str(name)));
        }
        if last.len() > 0 && !so_far.contains(last) {
            let pushed = names.push(last);
            if pushed.contains(name) && name != last {
                let i = choose|i: int| 0 <= i < pushed.len() && pushed[i] == name;
                assert(names[i] == name);
            }
            if names.contains(name) {
                let i = choose|i: int| 0 <= i < names.len() && names[i] == name;
                assert(pushed[i] == name);
            }
            assert(pushed[names.len() as int] == last);
        }
    }
}

/// Every name that an answer gives, and that has not been seen before, is announced, and nobody
/// else is; seen afterwards are those who were seen before and those whom the answer names. An
/// answer that failed, or that has no list of requests, names nobody, and the empty name is none.
pub proof fn law_every_new_friend_is_announced(
    s: FriendPollState,
    result: Result<Json, RpcError>,
    a: FriendPollAction,
    name: Seq<char>,
)
    requires
        s.stage == FriendPollStage::Asking,
        s.calls_for(FriendPollEvent::Answered(result), a),
    ensures
        ({
            let asks = name.len() > 0 && (result matches Ok(j) && j@.get("requests"@) matches Some(
                JsonTree::Arr(reqs),
            ) && exists|i: int|
                0 <= i < reqs.len() && (#[trigger] reqs[i]).get("name"@) == Some(
                    JsonTree::Str(name),
                ));
            let after = s.after(FriendPollEvent::Answered(result));
            &&& a matches FriendPollAction::Announce(names) && ((exists|i: int|
                0 <= i < names@.len() && (#[trigger] names@[i])@ == name) <==> asks
                && !s.seen.contains(name))
            &&& after.seen.contains(name) <==> asks || s.seen.contains(name)
            &&& after.stage == FriendPollStage::Idle
        }),
{
    let reqs = requests_of(outcome(result));
    lemma_new_names(s.seen, reqs, name);
    let names = a->Announce_0;
    let ts = texts(names@);
    if ts.contains(name) {
        let i = choose|i: int| 0 <= i < ts.len() && ts[i] == name;
        assert(names@[i]@ == name);
    }
    if exists|i: int| 0 <= i < names@.len() && (#[trigger] names@[i])@ == name {
        let i = choose|i: int| 0 <= i < names@.len() && (#[trigger] names@[i])@ == name;
        assert(ts[i] == name);
    }
}

/// The names are found in the order in which they first occur.
proof fn lemma_new_names_order(seen: Set<Seq<char>>, reqs: Seq<JsonTree>, i: int, j: int, q: int)
    requires
        0 <= i < j < new_names(seen, reqs).0.len(),
        0 <= q < reqs.len(),
        reqs[q].get("name"@) == Some(JsonTree::Str(new_names(seen, reqs).0[j])),
    ensures
        exists|p: int|
            0 <= p < q && (#[trigger] reqs[p]).get("name"@) == Some(
                JsonTree::Str(new_names(seen, reqs).0[i]),
            ),
    decreases reqs.len(),
{
    reveal_strlit("");
    let init = reqs.drop_last();
    let (names, so_far) = new_names(seen, init);
    let all = new_names(seen, reqs).0;
    if j < names.len() && q < init.len() {
        lemma_new_names_order(seen, init, i, j, q);
        let p = choose|p: int|
            0 <= p < q && (#[trigger] init[p]).get("name"@) == Some(JsonTree::Str(names[i]));
        assert(reqs[p].get("name"@) == Some(JsonTree::Str(all[i])));
    } else {
        assert(all[i] == names[i]);
        lemma_new_names(seen, init, names[i]);
        assert(names.contains(names[i]));
        let p = choose|p: int|
            0 <= p < init.len() && (#[trigger] init[p]).get("name"@) == Some(
                JsonTree::Str(names[i]),
            );
        assert(reqs[p].get("name"@) == Some(JsonTree::Str(all[i])));
        if q < init.len() {
            lemma_new_names(seen, init, all[j]);
            assert(init[q].get("name"@) == Some(JsonTree::Str(all[j])));
            lemma_new_names(seen, reqs, all[j]);
            assert(all.contains(all[j]));
        }
    }
}

/// Friends are announced in the order in which the answer names them first, and each of them
/// once.
pub proof fn law_friends_are_announced_in_order(
    s: FriendPollState,
    result: Result<Json, RpcError>,
    names: Vec<String>,
    i: int,
    j: int,
)
    requires
        s.stage == FriendPollStage::Asking,
        s.calls_for(FriendPollEvent::Answered(result), FriendPollAction::Announce(names)),
        0 <= i < j < names@.len(),
    ensures
        names@[i]@ != names@[j]@,
        result matches Ok(answer) && answer@.get("requests"@) matches Some(JsonTree::Arr(reqs))
            && forall|q: int|
            0 <= q < reqs.len() && (#[trigger] reqs[q]).get("name"@) == Some(
                JsonTree::Str(names@[j]@),
            ) ==> exists|p: int|
                0 <= p < q && (#[trigger] reqs[p]).get("name"@) == Some(
                    JsonTree::Str(names@[i]@),
                ),
{
    let reqs = requests_of(outcome(result));
    let ts = texts(names@);
    law_friends_are_announced_once(s.seen, reqs);
    assert(ts[i] == names@[i]@ && ts[j] == names@[j]@);
    lemma_new_names(s.seen, reqs, ts[i]);
    assert(ts.contains(ts[i]));
    assert forall|q: int|
        0 <= q < reqs.len() && (#[trigger] reqs[q]).get("name"@) == Some(
            JsonTree::Str(names@[j]@),
        ) implies exists|p: int|
        0 <= p < q && (#[trigger] reqs[p]).get("name"@) == Some(JsonTree::Str(names@[i]@)) by {
        lemma_new_names_order(s.seen, reqs, i, j, q);
    }
}

/// The look for friend requests comes a minute to five minutes after the one before, and sleeps a
/// second at most at a time, never longer than what is left; it asks when nothing is left, and not
/// before; it stops only when it is told to. An event that does not belong where it stands is
/// passed over, and only an answer adds to who has been seen.
pub proof fn law_friend_poll_keeps_its_order(
    s: FriendPollState,
    e: FriendPollEvent,
    a: FriendPollAction,
)
    requires
        s.calls_for(e, a),
    ensures
        a is Schedule <==> s.stage == FriendPollStage::Idle && e is Begin,
        a matches FriendPollAction::Schedule(secs) ==> 60 <= secs <= 300,
        a is Sleep <==> s.stage == FriendPollStage::Waiting && (e matches FriendPollEvent::Left {
            ms,
            halted,
        } && ms > 0 && !halted),
        a matches FriendPollAction::Sleep(n) ==> (e matches FriendPollEvent::Left { ms, .. } && n
            <= 1000 && n <= ms && (n == 1000 || n == ms)),
        a is Ask <==> s.stage == FriendPollStage::Waiting && (e matches FriendPollEvent::Left {
            ms,
            halted,
        } && ms == 0 && !halted),
        a is Announce <==> s.stage == FriendPollStage::Asking && e is Answered,
        a is Exit <==> s.stage != FriendPollStage::Stopped && (e is Halt || (s.stage
            == FriendPollStage::Waiting && (e matches FriendPollEvent::Left { halted, .. }
            && halted))),
        a is Exit <==> s.stage != FriendPollStage::Stopped && s.after(e).stage
            == FriendPollStage::Stopped,
        a is Schedule || a is Sleep ==> s.after(e).stage == FriendPollStage::Waiting,
        a is Ask ==> s.after(e).stage == FriendPollStage::Asking,
        a is Ignore ==> s.after(e) == s,
        !(a is Announce) ==> s.after(e).seen == s.seen,
{
}

/// A friend request goes up under the name of who asks, in fixed words.
pub proof fn law_friend_request_has_its_words(name: Seq<char>)
    ensures
        friend_request_data(name, FRIEND_REQUEST_WORDS@).get("name"@) == Some(JsonTree::Str(name)),
        friend_request_data(name, FRIEND_REQUEST_WORDS@).get("msg"@) == Some(
            JsonTree::Str("请求添加好友"@),
        ),
{
    law_friend_request_names_who_asks(name, FRIEND_REQUEST_WORDS@, name);
}

/// An action of the pump says what it holds: the id of the message, and its parameters.
pub proof fn law_pump_action_says_what_it_holds(msg_id: String, params: Json, ms: u64)
    ensures
        (PumpAction::Download { msg_id, params })@ == (PumpActionView::Download {
            msg_id: msg_id@,
            params: params@,
        }),
        (PumpAction::Transcribe { msg_id, params })@ == (PumpActionView::Transcribe {
            msg_id: msg_id@,
            params: params@,
        }),
        (PumpAction::Emit { params })@ == (PumpActionView::Emit { params: params@ }),
        PumpAction::Resubscribe(ms)@ == PumpActionView::Resubscribe(ms),
        PumpAction::Skip@ is Skip,
        PumpAction::Exit@ is Exit,
{
}

/// What is sent at once is the frame that came back, and nothing where none came back.
pub proof fn law_what_comes_back_is_sent(j: Json)
    ensures
        sent(Some(j)) == seq![j@],
        sent(None).len() == 0,
{
}

/// The id that a download or a transcription is asked for is the one that the sidecar gets.
pub proof fn law_sidecar_is_asked_for_the_same_message(msg_id: Seq<char>)
    ensures
        ({
            let asked = JsonTree::object().put("msgId"@, JsonTree::Str(msg_id));
            &&& sidecar_params("download_media"@, asked).get("msgId"@) == Some(
                JsonTree::Str(msg_id),
            )
            &&& sidecar_params("voice_to_text"@, asked).get("msgId"@) == Some(JsonTree::Str(msg_id))
        }),
{
    let asked = JsonTree::object().put("msgId"@, JsonTree::Str(msg_id));
    lemma_put_get(JsonTree::object(), "msgId"@, JsonTree::Str(msg_id), "msgId"@);
    law_operations_say_what_was_asked(asked);
}

} // verus!
