//! The events that the front end gets.
//!
//! - `wxauto://state`: the name of the application's state;
//! - `wxauto://status`: `{ wsConnected, wxOnline }`;
//! - `wxauto://message`: the data of a message event;
//! - `wxauto://command-log`: an entry of the log of commands;
//! - `wxauto://app-log`: an entry of the run-time log.
//!
//! The link's own status frames do not say whether the server is connected. That is put in
//! before they are passed on.

use vstd::prelude::*;
use crate::json::{lemma_put_get, Json, JsonTree};
use crate::sidecar::protocol::member_or_null;
use crate::state::AppState;
use crate::text::same_text;

verus! {

pub const EVENT_STATE: &'static str = "wxauto://state";

pub const EVENT_STATUS: &'static str = "wxauto://status";

pub const EVENT_MESSAGE: &'static str = "wxauto://message";

pub const EVENT_COMMAND_LOG: &'static str = "wxauto://command-log";

pub const EVENT_APP_LOG: &'static str = "wxauto://app-log";

/// An event for the front end: its name and what it carries.
pub struct UiEvent {
    pub name: &'static str,
    pub payload: Json,
}

/// The name of a state.
pub open spec fn state_name(s: AppState) -> Seq<char> {
    match s {
        AppState::SidecarDead => "SidecarDead"@,
        AppState::SidecarBooting => "SidecarBooting"@,
        AppState::WxInit => "WxInit"@,
        AppState::Ready => "Ready"@,
        AppState::Busy => "Busy"@,
        AppState::Degraded => "Degraded"@,
    }
}

/// The name of a state.
pub fn app_state_name(s: &AppState) -> (r: &'static str)
    ensures
        r@ == state_name(*s),
{
    match s {
        AppState::SidecarDead => "SidecarDead",
        AppState::SidecarBooting => "SidecarBooting",
        AppState::WxInit => "WxInit",
        AppState::Ready => "Ready",
        AppState::Busy => "Busy",
        AppState::Degraded => "Degraded",
    }
}

/// The flag, `false` where there is none.
pub open spec fn flag(o: Option<bool>) -> bool {
    o == Some(true)
}

/// What a status event carries for the front end.
pub open spec fn status_payload(frame: JsonTree) -> JsonTree {
    JsonTree::object().put(
        "wsConnected"@,
        JsonTree::Bool(flag(frame.get_bool("wsConnected"@))),
    ).put(
        "wxOnline"@,
        JsonTree::Bool(flag(member_or_null(frame, "data"@).get_bool("wxOnline"@))),
    )
}

/// What the front end is told of a frame of the link: messages pass on their data, a status
/// is put together anew; of the rest it hears nothing.
pub open spec fn frame_event(frame: JsonTree) -> Option<(Seq<char>, JsonTree)> {
    if frame.get_str("type"@) == Some("message"@) {
        Some((EVENT_MESSAGE@, member_or_null(frame, "data"@)))
    } else if frame.get_str("type"@) == Some("status"@) {
        Some((EVENT_STATUS@, status_payload(frame)))
    } else {
        None
    }
}

/// What an event says.
pub open spec fn event_view(e: Option<UiEvent>) -> Option<(Seq<char>, JsonTree)> {
    match e {
        Some(e) => Some((e.name@, e.payload@)),
        None => None,
    }
}

/// The bridge to the front end. As long as there is no front end on the other side events
/// are dropped: it asks for the state when it comes.
pub struct UiEventBridge {
    attached: bool,
}

impl UiEventBridge {
    /// Whether there is a front end on the other side.
    pub closed spec fn view(&self) -> bool {
        self.attached
    }

    /// A bridge with nobody on the other side.
    pub fn new() -> (r: UiEventBridge)
        ensures
            !r.view(),
    {
        UiEventBridge { attached: false }
    }

    /// The front end is there.
    pub fn attach(&mut self)
        ensures
            final(self).view(),
    {
        self.attached = true;
    }

    /// An event, where there is somebody to get it.
    fn emit(&self, name: &'static str, payload: Json) -> (r: Option<UiEvent>)
        ensures
            event_view(r) == if self.view() {
                Some((name@, payload@))
            } else {
                None
            },
    {
        if self.attached {
            Some(UiEvent { name, payload })
        } else {
            None
        }
    }

    /// The event for a change of state.
    pub fn emit_state(&self, s: &AppState) -> (r: Option<UiEvent>)
        ensures
            event_view(r) == if self.view() {
                Some((EVENT_STATE@, JsonTree::Str(state_name(*s))))
            } else {
                None
            },
    {
        self.emit(EVENT_STATE, Json::text(app_state_name(s)))
    }

    /// The event for a frame of the link.
    pub fn forward_event_frame(&self, frame: &Json) -> (r: Option<UiEvent>)
        ensures
            event_view(r) == if self.view() {
                frame_event(frame@)
            } else {
                None
            },
    {
        let kind = match frame.get_str("type") {
            Some(s) => s,
            None => return None,
        };
        if same_text(kind, "message") {
            let payload = match frame.get("data") {
                Some(d) => d.copy(),
                None => Json::Null,
            };
            self.emit(EVENT_MESSAGE, payload)
        } else if same_text(kind, "status") {
            let ws = match frame.get_bool("wsConnected") {
                Some(b) => b,
                None => false,
            };
            let wx = match frame.get("data") {
                Some(d) => match d.get_bool("wxOnline") {
                    Some(b) => b,
                    None => false,
                },
                None => false,
            };
            let payload = Json::object().put("wsConnected", Json::Bool(ws)).put(
                "wxOnline",
                Json::Bool(wx),
            );
            self.emit(EVENT_STATUS, payload)
        } else {
            None
        }
    }

    /// The event for an entry of the log of commands.
    pub fn forward_command_log(&self, entry: &Json) -> (r: Option<UiEvent>)
        ensures
            event_view(r) == if self.view() {
                Some((EVENT_COMMAND_LOG@, entry@))
            } else {
                None
            },
    {
        self.emit(EVENT_COMMAND_LOG, entry.copy())
    }

    /// The event for an entry of the run-time log.
    pub fn forward_app_log(&self, entry: &Json) -> (r: Option<UiEvent>)
        ensures
            event_view(r) == if self.view() {
                Some((EVENT_APP_LOG@, entry@))
            } else {
                None
            },
    {
        self.emit(EVENT_APP_LOG, entry.copy())
    }
}

/// A frame that says whether the server is connected.
pub open spec fn connected_tree(frame: JsonTree, ws_connected: bool) -> JsonTree {
    match frame {
        JsonTree::Null => JsonTree::object().put("wsConnected"@, JsonTree::Bool(ws_connected)),
        _ => frame.put("wsConnected"@, JsonTree::Bool(ws_connected)),
    }
}

/// Puts into a frame whether the server is connected.
pub fn with_ws_connected(frame: &Json, ws_connected: bool) -> (r: Json)
    requires
        frame@ is Obj || frame@ is Null,
    ensures
        r@ == connected_tree(frame@, ws_connected),
{
    match frame {
        Json::Null => Json::object().put("wsConnected", Json::Bool(ws_connected)),
        other => other.copy().put("wsConnected", Json::Bool(ws_connected)),
    }
}

/// The front end sees the flag that was put in, and what the frame says of WeChat stays.
pub proof fn law_status_shows_both_lights(frame: JsonTree, ws_connected: bool)
    requires
        frame is Obj,
    ensures
        status_payload(connected_tree(frame, ws_connected)).get_bool("wsConnected"@) == Some(
            ws_connected,
        ),
        status_payload(connected_tree(frame, ws_connected)).get_bool("wxOnline"@) == Some(
            flag(member_or_null(frame, "data"@).get_bool("wxOnline"@)),
        ),
{
    broadcast use lemma_put_get;

    reveal_strlit("wsConnected");
    reveal_strlit("wxOnline");
    reveal_strlit("data");
    assert("wsConnected"@.len() == 11 && "wxOnline"@.len() == 8 && "data"@.len() == 4);
}

/// The front end is told of a message by its data as they are, and of a status by its two lights,
/// each off unless the frame says that it is on; of every other frame it hears nothing.
pub proof fn law_front_end_hears_of_messages_and_status(frame: JsonTree, k: Seq<char>)
    ensures
        frame.get("type"@) == Some(JsonTree::Str("message"@)) ==> frame_event(frame) == Some(
            ("wxauto://message"@, frame.get("data"@).unwrap_or(JsonTree::Null)),
        ),
        frame.get("type"@) == Some(JsonTree::Str("status"@)) ==> (frame_event(frame) matches Some(e)
            && {
            &&& e.0 == "wxauto://status"@
            &&& e.1.get("wsConnected"@) == Some(
                JsonTree::Bool(frame.get("wsConnected"@) == Some(JsonTree::Bool(true))),
            )
            &&& e.1.get("wxOnline"@) == Some(
                JsonTree::Bool(
                    frame.get("data"@) matches Some(d) && d.get("wxOnline"@) == Some(
                        JsonTree::Bool(true),
                    ),
                ),
            )
            &&& e.1.get(k) is Some ==> k == "wsConnected"@ || k == "wxOnline"@
        }),
        frame.get("type"@) != Some(JsonTree::Str("message"@)) && frame.get("type"@) != Some(
            JsonTree::Str("status"@),
        ) ==> frame_event(frame) is None,
{
    broadcast use lemma_put_get;

    reveal_strlit("wsConnected");
    reveal_strlit("wxOnline");
    reveal_strlit("message");
    reveal_strlit("status");
    assert("wsConnected"@.len() == 11);
    assert("wxOnline"@.len() == 8);
    assert("message"@.len() == 7);
    assert("status"@.len() == 6);
}

/// The events have the names that the front end listens to, each one of its own.
pub proof fn law_events_have_their_names()
    ensures
        EVENT_STATE@ == "wxauto://state"@,
        EVENT_STATUS@ == "wxauto://status"@,
        EVENT_MESSAGE@ == "wxauto://message"@,
        EVENT_COMMAND_LOG@ == "wxauto://command-log"@,
        EVENT_APP_LOG@ == "wxauto://app-log"@,
{
}

/// An event says its name and what it carries.
pub proof fn law_event_says_what_it_carries(e: UiEvent)
    ensures
        event_view(Some(e)) == Some((e.name@, e.payload@)),
        event_view(None) is None,
{
}

/// A frame into which the connection has been put says so, and is otherwise what it was.
pub proof fn law_connection_is_put_into_the_frame(frame: JsonTree, ws_connected: bool, k: Seq<char>)
    requires
        frame is Obj || frame is Null,
    ensures
        connected_tree(frame, ws_connected) is Obj,
        connected_tree(frame, ws_connected).get("wsConnected"@) == Some(
            JsonTree::Bool(ws_connected),
        ),
        k != "wsConnected"@ ==> connected_tree(frame, ws_connected).get(k) == frame.get(k),
{
    broadcast use lemma_put_get;

}

/// Each state has a name of its own.
pub proof fn law_states_have_their_own_names(s: AppState, t: AppState)
    ensures
        state_name(s) == state_name(t) ==> s == t,
{
    reveal_strlit("SidecarDead");
    reveal_strlit("SidecarBooting");
    reveal_strlit("WxInit");
    reveal_strlit("Ready");
    reveal_strlit("Busy");
    reveal_strlit("Degraded");
    assert("SidecarDead"@.len() == 11);
    assert("SidecarBooting"@.len() == 14);
    assert("WxInit"@.len() == 6);
    assert("Ready"@.len() == 5);
    assert("Busy"@.len() == 4);
    assert("Degraded"@.len() == 8);
}

} // verus!
