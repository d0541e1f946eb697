//! The one way to operate WeChat: every operation goes through a serial queue, is mapped
//! to a method of the sidecar, and is followed by a pause as a person would make.
//!
//! Operations must not overlap: they drive the same window and would take the focus from
//! one another.

use vstd::prelude::*;
use crate::json::{lemma_put_get, Json, JsonTree};
use crate::sidecar::protocol::{member_or_null, outcome, RpcError, RpcErrorView};
use crate::sidecar::spec::methods;
use crate::text::{join2, same_text};

pub mod listener;

verus! {

/// The shortest pause after an operation, in milliseconds.
pub const MIN_GAP: u64 = 500;

/// The longest pause after an operation, in milliseconds.
pub const MAX_GAP: u64 = 1000;

/// How long to wait before a read is tried again, in milliseconds.
pub const READ_RETRY_GAP: u64 = 800;

/// The sidecar's method for an action.
pub open spec fn action_method(action: Seq<char>) -> Option<Seq<char>> {
    if action == "send_message"@ {
        Some(methods::MSG_SEND@)
    } else if action == "send_file"@ {
        Some(methods::FILE_SEND@)
    } else if action == "quote_reply"@ {
        Some(methods::MSG_QUOTE@)
    } else if action == "forward_message"@ {
        Some(methods::MSG_FORWARD@)
    } else if action == "get_my_info"@ {
        Some(methods::GET_MY_INFO@)
    } else if action == "get_friend_requests"@ {
        Some(methods::FRIENDS_NEW_REQUESTS@)
    } else if action == "accept_friend"@ {
        Some(methods::FRIEND_ACCEPT@)
    } else if action == "add_listen_chat"@ {
        Some(methods::LISTEN_ADD@)
    } else if action == "remove_listen_chat"@ {
        Some(methods::LISTEN_REMOVE@)
    } else if action == "list_listen_chats"@ {
        Some(methods::LISTEN_LIST@)
    } else if action == "search_chat"@ {
        Some(methods::CHAT_SEARCH@)
    } else if action == "get_chat_history"@ {
        Some(methods::CHAT_HISTORY@)
    } else if action == "get_moments"@ {
        Some(methods::MOMENTS_GET@)
    } else if action == "publish_moment"@ {
        Some(methods::MOMENTS_PUBLISH@)
    } else if action == "download_media"@ {
        Some(methods::MEDIA_DOWNLOAD@)
    } else if action == "voice_to_text"@ {
        Some(methods::VOICE_TO_TEXT@)
    } else {
        None
    }
}

/// The actions that only read, and so may be repeated without harm.
pub open spec fn is_read(action: Seq<char>) -> bool {
    ||| action == "get_my_info"@
    ||| action == "get_friend_requests"@
    ||| action == "list_listen_chats"@
    ||| action == "search_chat"@
    ||| action == "get_chat_history"@
    ||| action == "get_moments"@
    ||| action == "download_media"@
    ||| action == "voice_to_text"@
}

/// The sidecar's method for an action, `None` for what is no action.
pub fn map_action(action: &str) -> (r: Option<&'static str>)
    ensures
        match r {
            Some(m) => action_method(action@) == Some(m@),
            None => action_method(action@) is None,
        },
{
    if same_text(action, "send_message") {
        Some(methods::MSG_SEND)
    } else if same_text(action, "send_file") {
        Some(methods::FILE_SEND)
    } else if same_text(action, "quote_reply") {
        Some(methods::MSG_QUOTE)
    } else if same_text(action, "forward_message") {
        Some(methods::MSG_FORWARD)
    } else if same_text(action, "get_my_info") {
        Some(methods::GET_MY_INFO)
    } else if same_text(action, "get_friend_requests") {
        Some(methods::FRIENDS_NEW_REQUESTS)
    } else if same_text(action, "accept_friend") {
        Some(methods::FRIEND_ACCEPT)
    } else if same_text(action, "add_listen_chat") {
        Some(methods::LISTEN_ADD)
    } else if same_text(action, "remove_listen_chat") {
        Some(methods::LISTEN_REMOVE)
    } else if same_text(action, "list_listen_chats") {
        Some(methods::LISTEN_LIST)
    } else if same_text(action, "search_chat") {
        Some(methods::CHAT_SEARCH)
    } else if same_text(action, "get_chat_history") {
        Some(methods::CHAT_HISTORY)
    } else if same_text(action, "get_moments") {
        Some(methods::MOMENTS_GET)
    } else if same_text(action, "publish_moment") {
        Some(methods::MOMENTS_PUBLISH)
    } else if same_text(action, "download_media") {
        Some(methods::MEDIA_DOWNLOAD)
    } else if same_text(action, "voice_to_text") {
        Some(methods::VOICE_TO_TEXT)
    } else {
        None
    }
}

/// Whether an action only reads.
pub fn is_read_action(action: &str) -> (r: bool)
    ensures
        r == is_read(action@),
{
    same_text(action, "get_my_info") || same_text(action, "get_friend_requests") || same_text(action, "list_listen_chats") || same_text(action, "search_chat") || same_text(action, "get_chat_history") || same_text(action, "get_moments") || same_text(action, "download_media") || same_text(action, "voice_to_text")
}

/// The sixteen methods are sixteen different texts.
proof fn lemma_methods_differ()
    ensures
        methods::MSG_SEND@ != methods::FILE_SEND@,
        methods::MSG_SEND@ != methods::MSG_QUOTE@,
        methods::MSG_SEND@ != methods::MSG_FORWARD@,
        methods::MSG_SEND@ != methods::GET_MY_INFO@,
        methods::MSG_SEND@ != methods::FRIENDS_NEW_REQUESTS@,
        methods::MSG_SEND@ != methods::FRIEND_ACCEPT@,
        methods::MSG_SEND@ != methods::LISTEN_ADD@,
        methods::MSG_SEND@ != methods::LISTEN_REMOVE@,
        methods::MSG_SEND@ != methods::LISTEN_LIST@,
        methods::MSG_SEND@ != methods::CHAT_SEARCH@,
        methods::MSG_SEND@ != methods::CHAT_HISTORY@,
        methods::MSG_SEND@ != methods::MOMENTS_GET@,
        methods::MSG_SEND@ != methods::MOMENTS_PUBLISH@,
        methods::MSG_SEND@ != methods::MEDIA_DOWNLOAD@,
        methods::MSG_SEND@ != methods::VOICE_TO_TEXT@,
        methods::FILE_SEND@ != methods::MSG_QUOTE@,
        methods::FILE_SEND@ != methods::MSG_FORWARD@,
        methods::FILE_SEND@ != methods::GET_MY_INFO@,
        methods::FILE_SEND@ != methods::FRIENDS_NEW_REQUESTS@,
        methods::FILE_SEND@ != methods::FRIEND_ACCEPT@,
        methods::FILE_SEND@ != methods::LISTEN_ADD@,
        methods::FILE_SEND@ != methods::LISTEN_REMOVE@,
        methods::FILE_SEND@ != methods::LISTEN_LIST@,
        methods::FILE_SEND@ != methods::CHAT_SEARCH@,
        methods::FILE_SEND@ != methods::CHAT_HISTORY@,
        methods::FILE_SEND@ != methods::MOMENTS_GET@,
        methods::FILE_SEND@ != methods::MOMENTS_PUBLISH@,
        methods::FILE_SEND@ != methods::MEDIA_DOWNLOAD@,
        methods::FILE_SEND@ != methods::VOICE_TO_TEXT@,
        methods::MSG_QUOTE@ != methods::MSG_FORWARD@,
        methods::MSG_QUOTE@ != methods::GET_MY_INFO@,
        methods::MSG_QUOTE@ != methods::FRIENDS_NEW_REQUESTS@,
        methods::MSG_QUOTE@ != methods::FRIEND_ACCEPT@,
        methods::MSG_QUOTE@ != methods::LISTEN_ADD@,
        methods::MSG_QUOTE@ != methods::LISTEN_REMOVE@,
        methods::MSG_QUOTE@ != methods::LISTEN_LIST@,
        methods::MSG_QUOTE@ != methods::CHAT_SEARCH@,
        methods::MSG_QUOTE@ != methods::CHAT_HISTORY@,
        methods::MSG_QUOTE@ != methods::MOMENTS_GET@,
        methods::MSG_QUOTE@ != methods::MOMENTS_PUBLISH@,
        methods::MSG_QUOTE@ != methods::MEDIA_DOWNLOAD@,
        methods::MSG_QUOTE@ != methods::VOICE_TO_TEXT@,
        methods::MSG_FORWARD@ != methods::GET_MY_INFO@,
        methods::MSG_FORWARD@ != methods::FRIENDS_NEW_REQUESTS@,
        methods::MSG_FORWARD@ != methods::FRIEND_ACCEPT@,
        methods::MSG_FORWARD@ != methods::LISTEN_ADD@,
        methods::MSG_FORWARD@ != methods::LISTEN_REMOVE@,
        methods::MSG_FORWARD@ != methods::LISTEN_LIST@,
        methods::MSG_FORWARD@ != methods::CHAT_SEARCH@,
        methods::MSG_FORWARD@ != methods::CHAT_HISTORY@,
        methods::MSG_FORWARD@ != methods::MOMENTS_GET@,
        methods::MSG_FORWARD@ != methods::MOMENTS_PUBLISH@,
        methods::MSG_FORWARD@ != methods::MEDIA_DOWNLOAD@,
        methods::MSG_FORWARD@ != methods::VOICE_TO_TEXT@,
        methods::GET_MY_INFO@ != methods::FRIENDS_NEW_REQUESTS@,
        methods::GET_MY_INFO@ != methods::FRIEND_ACCEPT@,
        methods::GET_MY_INFO@ != methods::LISTEN_ADD@,
        methods::GET_MY_INFO@ != methods::LISTEN_REMOVE@,
        methods::GET_MY_INFO@ != methods::LISTEN_LIST@,
        methods::GET_MY_INFO@ != methods::CHAT_SEARCH@,
        methods::GET_MY_INFO@ != methods::CHAT_HISTORY@,
        methods::GET_MY_INFO@ != methods::MOMENTS_GET@,
        methods::GET_MY_INFO@ != methods::MOMENTS_PUBLISH@,
        methods::GET_MY_INFO@ != methods::MEDIA_DOWNLOAD@,
        methods::GET_MY_INFO@ != methods::VOICE_TO_TEXT@,
        methods::FRIENDS_NEW_REQUESTS@ != methods::FRIEND_ACCEPT@,
        methods::FRIENDS_NEW_REQUESTS@ != methods::LISTEN_ADD@,
        methods::FRIENDS_NEW_REQUESTS@ != methods::LISTEN_REMOVE@,
        methods::FRIENDS_NEW_REQUESTS@ != methods::LISTEN_LIST@,
        methods::FRIENDS_NEW_REQUESTS@ != methods::CHAT_SEARCH@,
        methods::FRIENDS_NEW_REQUESTS@ != methods::CHAT_HISTORY@,
        methods::FRIENDS_NEW_REQUESTS@ != methods::MOMENTS_GET@,
        methods::FRIENDS_NEW_REQUESTS@ != methods::MOMENTS_PUBLISH@,
        methods::FRIENDS_NEW_REQUESTS@ != methods::MEDIA_DOWNLOAD@,
        methods::FRIENDS_NEW_REQUESTS@ != methods::VOICE_TO_TEXT@,
        methods::FRIEND_ACCEPT@ != methods::LISTEN_ADD@,
        methods::FRIEND_ACCEPT@ != methods::LISTEN_REMOVE@,
        methods::FRIEND_ACCEPT@ != methods::LISTEN_LIST@,
        methods::FRIEND_ACCEPT@ != methods::CHAT_SEARCH@,
        methods::FRIEND_ACCEPT@ != methods::CHAT_HISTORY@,
        methods::FRIEND_ACCEPT@ != methods::MOMENTS_GET@,
        methods::FRIEND_ACCEPT@ != methods::MOMENTS_PUBLISH@,
        methods::FRIEND_ACCEPT@ != methods::MEDIA_DOWNLOAD@,
        methods::FRIEND_ACCEPT@ != methods::VOICE_TO_TEXT@,
        methods::LISTEN_ADD@ != methods::LISTEN_REMOVE@,
        methods::LISTEN_ADD@ != methods::LISTEN_LIST@,
        methods::LISTEN_ADD@ != methods::CHAT_SEARCH@,
        methods::LISTEN_ADD@ != methods::CHAT_HISTORY@,
        methods::LISTEN_ADD@ != methods::MOMENTS_GET@,
        methods::LISTEN_ADD@ != methods::MOMENTS_PUBLISH@,
        methods::LISTEN_ADD@ != methods::MEDIA_DOWNLOAD@,
        methods::LISTEN_ADD@ != methods::VOICE_TO_TEXT@,
        methods::LISTEN_REMOVE@ != methods::LISTEN_LIST@,
        methods::LISTEN_REMOVE@ != methods::CHAT_SEARCH@,
        methods::LISTEN_REMOVE@ != methods::CHAT_HISTORY@,
        methods::LISTEN_REMOVE@ != methods::MOMENTS_GET@,
        methods::LISTEN_REMOVE@ != methods::MOMENTS_PUBLISH@,
        methods::LISTEN_REMOVE@ != methods::MEDIA_DOWNLOAD@,
        methods::LISTEN_REMOVE@ != methods::VOICE_TO_TEXT@,
        methods::LISTEN_LIST@ != methods::CHAT_SEARCH@,
        methods::LISTEN_LIST@ != methods::CHAT_HISTORY@,
        methods::LISTEN_LIST@ != methods::MOMENTS_GET@,
        methods::LISTEN_LIST@ != methods::MOMENTS_PUBLISH@,
        methods::LISTEN_LIST@ != methods::MEDIA_DOWNLOAD@,
        methods::LISTEN_LIST@ != methods::VOICE_TO_TEXT@,
        methods::CHAT_SEARCH@ != methods::CHAT_HISTORY@,
        methods::CHAT_SEARCH@ != methods::MOMENTS_GET@,
        methods::CHAT_SEARCH@ != methods::MOMENTS_PUBLISH@,
        methods::CHAT_SEARCH@ != methods::MEDIA_DOWNLOAD@,
        methods::CHAT_SEARCH@ != methods::VOICE_TO_TEXT@,
        methods::CHAT_HISTORY@ != methods::MOMENTS_GET@,
        methods::CHAT_HISTORY@ != methods::MOMENTS_PUBLISH@,
        methods::CHAT_HISTORY@ != methods::MEDIA_DOWNLOAD@,
        methods::CHAT_HISTORY@ != methods::VOICE_TO_TEXT@,
        methods::MOMENTS_GET@ != methods::MOMENTS_PUBLISH@,
        methods::MOMENTS_GET@ != methods::MEDIA_DOWNLOAD@,
        methods::MOMENTS_GET@ != methods::VOICE_TO_TEXT@,
        methods::MOMENTS_PUBLISH@ != methods::MEDIA_DOWNLOAD@,
        methods::MOMENTS_PUBLISH@ != methods::VOICE_TO_TEXT@,
        methods::MEDIA_DOWNLOAD@ != methods::VOICE_TO_TEXT@,
{
    reveal_strlit("msg.send");
    reveal_strlit("file.send");
    reveal_strlit("msg.quote");
    reveal_strlit("msg.forward");
    reveal_strlit("wx.get_my_info");
    reveal_strlit("friends.new_requests");
    reveal_strlit("friend.accept");
    reveal_strlit("listen.add");
    reveal_strlit("listen.remove");
    reveal_strlit("listen.list");
    reveal_strlit("chat.search");
    reveal_strlit("chat.history");
    reveal_strlit("moments.get");
    reveal_strlit("moments.publish");
    reveal_strlit("media.download");
    reveal_strlit("voice.to_text");
    assert("msg.send"@.len() == 8);
    assert("file.send"@.len() == 9);
    assert("msg.quote"@.len() == 9);
    assert("msg.forward"@.len() == 11);
    assert("wx.get_my_info"@.len() == 14);
    assert("friends.new_requests"@.len() == 20);
    assert("friend.accept"@.len() == 13);
    assert("listen.add"@.len() == 10);
    assert("listen.remove"@.len() == 13);
    assert("listen.list"@.len() == 11);
    assert("chat.search"@.len() == 11);
    assert("chat.history"@.len() == 12);
    assert("moments.get"@.len() == 11);
    assert("moments.publish"@.len() == 15);
    assert("media.download"@.len() == 14);
    assert("voice.to_text"@.len() == 13);
    assert("file.send"@[0] != "msg.quote"@[0]);
    assert("msg.forward"@[0] != "listen.list"@[0]);
    assert("msg.forward"@[0] != "chat.search"@[0]);
    assert("msg.forward"@[1] != "moments.get"@[1]);
    assert("wx.get_my_info"@[0] != "media.download"@[0]);
    assert("friend.accept"@[0] != "listen.remove"@[0]);
    assert("friend.accept"@[0] != "voice.to_text"@[0]);
    assert("listen.remove"@[0] != "voice.to_text"@[0]);
    assert("listen.list"@[0] != "chat.search"@[0]);
    assert("listen.list"@[0] != "moments.get"@[0]);
    assert("chat.search"@[0] != "moments.get"@[0]);
}

/// The value of a member, or another where it is missing.
pub open spec fn member_or(t: JsonTree, k: Seq<char>, otherwise: JsonTree) -> JsonTree {
    match t.get(k) {
        Some(v) => v,
        None => otherwise,
    }
}

/// The parameters of the sidecar's method for the parameters of an action.
pub open spec fn sidecar_params(action: Seq<char>, p: JsonTree) -> JsonTree {
    if action == "quote_reply"@ {
        JsonTree::object().put("who"@, member_or_null(p, "who"@)).put(
            "quoteContent"@,
            member_or_null(p, "quoteContent"@),
        ).put("text"@, member_or_null(p, "text"@)).put("at"@, member_or_null(p, "at"@))
    } else if action == "forward_message"@ {
        JsonTree::object().put("target"@, member_or_null(p, "target"@)).put(
            "sourceWho"@,
            member_or_null(p, "sourceWho"@),
        ).put("match"@, member_or_null(p, "match"@))
    } else if action == "get_chat_history"@ {
        JsonTree::object().put("who"@, member_or_null(p, "who"@)).put(
            "n"@,
            member_or(p, "n"@, JsonTree::Int(20)),
        )
    } else if action == "get_moments"@ {
        JsonTree::object().put("count"@, member_or(p, "count"@, JsonTree::Int(10)))
    } else if action == "download_media"@ || action == "voice_to_text"@ {
        JsonTree::object().put("msgId"@, member_or_null(p, "msgId"@))
    } else {
        p
    }
}

/// A member, or another value where it is missing.
fn copy_or(p: &Json, key: &str, otherwise: Json) -> (r: Json)
    ensures
        r@ == member_or(p@, key@, otherwise@),
{
    match p.get(key) {
        Some(v) => v.copy(),
        None => otherwise,
    }
}

/// Adapts the parameters of an action to the sidecar's method: most are passed on as they
/// are.
pub fn transform_params(action: &str, p: Json) -> (r: Json)
    ensures
        r@ == sidecar_params(action@, p@),
{
    if same_text(action, "quote_reply") {
        Json::object().put("who", copy_or(&p, "who", Json::Null)).put(
            "quoteContent",
            copy_or(&p, "quoteContent", Json::Null),
        ).put("text", copy_or(&p, "text", Json::Null)).put("at", copy_or(&p, "at", Json::Null))
    } else if same_text(action, "forward_message") {
        Json::object().put("target", copy_or(&p, "target", Json::Null)).put(
            "sourceWho",
            copy_or(&p, "sourceWho", Json::Null),
        ).put("match", copy_or(&p, "match", Json::Null))
    } else if same_text(action, "get_chat_history") {
        Json::object().put("who", copy_or(&p, "who", Json::Null)).put(
            "n",
            copy_or(&p, "n", Json::Uint(20)),
        )
    } else if same_text(action, "get_moments") {
        Json::object().put("count", copy_or(&p, "count", Json::Uint(10)))
    } else if same_text(action, "download_media") || same_text(action, "voice_to_text") {
        Json::object().put("msgId", copy_or(&p, "msgId", Json::Null))
    } else {
        p
    }
}

/// `rand::Rng::gen_range` over `0..=span` with the generator of the thread: some number of
/// the range, whatever chance picks.
#[verifier::external_body]
pub(crate) fn random_upto(span: u64) -> (r: u64)
    ensures
        r <= span,
{
    rand::Rng::gen_range(&mut rand::thread_rng(), 0..=span)
}

/// The bounds of the pause: those given, or the usual ones where the lower is above the
/// upper.
pub open spec fn pause_bounds(min: u64, max: u64) -> (u64, u64) {
    if min <= max {
        (min, max)
    } else {
        (MIN_GAP, MAX_GAP)
    }
}

/// The bounds of the pause after an operation.
pub fn gap_bounds(min: u64, max: u64) -> (r: (u64, u64))
    ensures
        r == pause_bounds(min, max),
        r.0 <= r.1,
{
    if min <= max {
        (min, max)
    } else {
        (MIN_GAP, MAX_GAP)
    }
}

/// A pause within bounds, for a number that chance has picked.
pub fn gap_for(min: u64, max: u64, pick: u64) -> (r: u64)
    requires
        min <= max,
        pick <= max - min,
    ensures
        r == min + pick,
        min <= r <= max,
{
    min + pick
}

/// A random pause within given bounds.
pub fn rand_gap_within(min: u64, max: u64) -> (r: u64)
    ensures
        pause_bounds(min, max).0 <= r <= pause_bounds(min, max).1,
{
    let (lo, hi) = gap_bounds(min, max);
    gap_for(lo, hi, random_upto(hi - lo))
}

/// A random pause after an operation, in milliseconds.
pub fn rand_gap() -> (r: u64)
    ensures
        MIN_GAP <= r <= MAX_GAP,
{
    rand_gap_within(MIN_GAP, MAX_GAP)
}

/// The session with WeChat: how long it pauses between operations. Whoever runs it lets one
/// operation through at a time, from its first call to the end of its pause.
pub struct WxSession {
    gaps: (u64, u64),
}

impl WxSession {
    /// The bounds of the pause after an operation, in milliseconds.
    pub closed spec fn view(&self) -> (u64, u64) {
        self.gaps
    }

    /// A session with the usual pauses.
    pub fn new() -> (r: WxSession)
        ensures
            r.view() == (MIN_GAP, MAX_GAP),
    {
        WxSession { gaps: (MIN_GAP, MAX_GAP) }
    }

    /// A session with pauses within given bounds; the usual ones where the lower bound is
    /// above the upper.
    pub fn with_gaps(min: u64, max: u64) -> (r: WxSession)
        ensures
            r.view() == pause_bounds(min, max),
    {
        WxSession { gaps: gap_bounds(min, max) }
    }

    /// Prepares an operation. What is no action is refused before it enters the queue.
    pub fn execute(&self, action: &str, params: Json) -> (r: Result<Execution, RpcError>)
        ensures
            match r {
                Ok(x) => {
                    &&& action_method(action@) == Some(x.method@)
                    &&& x.params@ == sidecar_params(action@, params@)
                    &&& x.may_retry == is_read(action@)
                },
                Err(e) => action_method(action@) is None && e@ == RpcErrorView::Sidecar(
                    "未知 action: "@ + action@,
                ),
            },
    {
        Execution::begin(action, params)
    }

    /// A pause, in milliseconds, before the next operation is let in.
    pub fn pause(&self) -> (r: u64)
        ensures
            pause_bounds(self.view().0, self.view().1).0 <= r <= pause_bounds(
                self.view().0,
                self.view().1,
            ).1,
    {
        rand_gap_within(self.gaps.0, self.gaps.1)
    }

    /// What a probe's outcome says of WeChat.
    pub fn probe_health(result: &Result<Json, RpcError>) -> (r: WxHealth)
        ensures
            r == health_after(outcome(*result)),
    {
        match result {
            Ok(j) => match j.get_bool("online") {
                Some(true) => WxHealth::Online,
                _ => WxHealth::Offline,
            },
            Err(RpcError::Sidecar(_)) => WxHealth::Offline,
            Err(_) => WxHealth::Unreachable,
        }
    }

    /// Whether a probe's outcome says that WeChat is online: a sidecar that answers is not
    /// enough.
    pub fn health_probe(result: &Result<Json, RpcError>) -> (r: bool)
        ensures
            r == (outcome(*result) matches Ok(t) && t.get_bool("online"@) == Some(true)),
    {
        WxSession::probe_health(result).is_online()
    }
}

/// One operation on its way through the queue.
pub struct Execution {
    /// The sidecar's method.
    pub method: &'static str,
    /// Its parameters.
    pub params: Json,
    /// Whether a call that times out may be repeated once more.
    pub may_retry: bool,
}

/// What to do after a call of an operation.
#[derive(PartialEq, Eq, Structural, Clone, Copy)]
pub enum ExecutionStep {
    /// Wait for the retry gap, and call once more.
    Retry,
    /// Pause, then hand over the result and let the next operation in.
    Rest,
    /// Hand over the error at once.
    Fail,
}

/// What follows a call that ended in `r`.
pub open spec fn step_after(
    may_retry: bool,
    r: Result<JsonTree, RpcErrorView>,
) -> ExecutionStep {
    match r {
        Ok(_) => ExecutionStep::Rest,
        Err(RpcErrorView::Timeout) => if may_retry {
            ExecutionStep::Retry
        } else {
            ExecutionStep::Fail
        },
        Err(_) => ExecutionStep::Fail,
    }
}

impl Execution {
    /// Prepares an operation. What is no action is refused before it enters the queue.
    fn begin(action: &str, params: Json) -> (r: Result<Execution, RpcError>)
        ensures
            match r {
                Ok(x) => {
                    &&& action_method(action@) == Some(x.method@)
                    &&& x.params@ == sidecar_params(action@, params@)
                    &&& x.may_retry == is_read(action@)
                },
                Err(e) => action_method(action@) is None && e@ == RpcErrorView::Sidecar(
                    "未知 action: "@ + action@,
                ),
            },
    {
        match map_action(action) {
            None => Err(RpcError::Sidecar(join2("未知 action: ", action))),
            Some(method) => Ok(
                Execution {
                    method,
                    params: transform_params(action, params),
                    may_retry: is_read_action(action),
                },
            ),
        }
    }

    /// What follows a call that ended in `result`. A retry is granted once.
    pub fn after_call(&mut self, result: &Result<Json, RpcError>) -> (r: ExecutionStep)
        ensures
            r == step_after(old(self).may_retry, outcome(*result)),
            final(self).may_retry == (old(self).may_retry && r != ExecutionStep::Retry),
            final(self).method == old(self).method,
            final(self).params == old(self).params,
    {
        match result {
            Ok(_) => ExecutionStep::Rest,
            Err(RpcError::Timeout) => if self.may_retry {
                self.may_retry = false;
                ExecutionStep::Retry
            } else {
                ExecutionStep::Fail
            },
            Err(_) => ExecutionStep::Fail,
        }
    }
}

/// How many calls an operation makes when its calls would end one after the other in the
/// given ways.
pub open spec fn calls_made(may_retry: bool, ends: Seq<Result<JsonTree, RpcErrorView>>) -> nat
    decreases ends.len(),
{
    if ends.len() == 0 {
        0
    } else if step_after(may_retry, ends[0]) == ExecutionStep::Retry {
        1 + calls_made(false, ends.drop_first())
    } else {
        1
    }
}

/// An action that writes is called once, however the call ends: it is never repeated. One
/// that reads is called twice at most, and twice only if the first call timed out.
pub proof fn law_writes_are_never_repeated(
    action: Seq<char>,
    ends: Seq<Result<JsonTree, RpcErrorView>>,
)
    ensures
        !is_read(action) ==> calls_made(is_read(action), ends) <= 1,
        calls_made(is_read(action), ends) <= 2,
        calls_made(is_read(action), ends) == 2 ==> ends[0]
            == Err::<JsonTree, RpcErrorView>(RpcErrorView::Timeout),
{
    reveal_with_fuel(calls_made, 3);
}

/// Every action that reads is an action.
pub proof fn law_reads_are_actions(action: Seq<char>)
    requires
        is_read(action),
    ensures
        action_method(action) is Some,
{
}

/// No two actions share a method.
pub proof fn law_actions_have_their_own_methods(a: Seq<char>, b: Seq<char>)
    requires
        action_method(a) is Some,
        action_method(a) == action_method(b),
    ensures
        a == b,
{
    lemma_methods_differ();
}

/// What is known of WeChat after a probe.
#[derive(PartialEq, Eq, Structural, Clone, Copy, Debug)]
pub enum WxHealth {
    /// Logged in and answering.
    Online,
    /// The sidecar answers, but WeChat is not there.
    Offline,
    /// The sidecar does not answer.
    Unreachable,
}

/// What a probe's outcome says: the `online` flag of an answer decides; an answer that is
/// an error counts as offline; no answer is unreachable.
pub open spec fn health_after(r: Result<JsonTree, RpcErrorView>) -> WxHealth {
    match r {
        Ok(t) => if t.get_bool("online"@) == Some(true) {
            WxHealth::Online
        } else {
            WxHealth::Offline
        },
        Err(RpcErrorView::Sidecar(_)) => WxHealth::Offline,
        Err(_) => WxHealth::Unreachable,
    }
}

impl WxHealth {
    /// Whether WeChat is online.
    pub open spec fn online(self) -> bool {
        self == WxHealth::Online
    }

    /// The state's name.
    pub open spec fn name(self) -> Seq<char> {
        match self {
            WxHealth::Online => "online"@,
            WxHealth::Offline => "offline"@,
            WxHealth::Unreachable => "probe_timeout"@,
        }
    }

    /// Whether WeChat is online.
    pub fn is_online(&self) -> (r: bool)
        ensures
            r == self.online(),
    {
        *self == WxHealth::Online
    }

    /// The state's name.
    pub fn as_str(&self) -> (r: &'static str)
        ensures
            r@ == self.name(),
    {
        match self {
            WxHealth::Online => "online",
            WxHealth::Offline => "offline",
            WxHealth::Unreachable => "probe_timeout",
        }
    }
}

/// The sixteen actions are sixteen different texts.
proof fn lemma_actions_differ()
    ensures
        "send_message"@ != "send_file"@,
        "send_message"@ != "quote_reply"@,
        "send_file"@ != "quote_reply"@,
        "send_message"@ != "forward_message"@,
        "send_file"@ != "forward_message"@,
        "quote_reply"@ != "forward_message"@,
        "send_message"@ != "get_my_info"@,
        "send_file"@ != "get_my_info"@,
        "quote_reply"@ != "get_my_info"@,
        "forward_message"@ != "get_my_info"@,
        "send_message"@ != "get_friend_requests"@,
        "send_file"@ != "get_friend_requests"@,
        "quote_reply"@ != "get_friend_requests"@,
        "forward_message"@ != "get_friend_requests"@,
        "get_my_info"@ != "get_friend_requests"@,
        "send_message"@ != "accept_friend"@,
        "send_file"@ != "accept_friend"@,
        "quote_reply"@ != "accept_friend"@,
        "forward_message"@ != "accept_friend"@,
        "get_my_info"@ != "accept_friend"@,
        "get_friend_requests"@ != "accept_friend"@,
        "send_message"@ != "add_listen_chat"@,
        "send_file"@ != "add_listen_chat"@,
        "quote_reply"@ != "add_listen_chat"@,
        "forward_message"@ != "add_listen_chat"@,
        "get_my_info"@ != "add_listen_chat"@,
        "get_friend_requests"@ != "add_listen_chat"@,
        "accept_friend"@ != "add_listen_chat"@,
        "send_message"@ != "remove_listen_chat"@,
        "send_file"@ != "remove_listen_chat"@,
        "quote_reply"@ != "remove_listen_chat"@,
        "forward_message"@ != "remove_listen_chat"@,
        "get_my_info"@ != "remove_listen_chat"@,
        "get_friend_requests"@ != "remove_listen_chat"@,
        "accept_friend"@ != "remove_listen_chat"@,
        "add_listen_chat"@ != "remove_listen_chat"@,
        "send_message"@ != "list_listen_chats"@,
        "send_file"@ != "list_listen_chats"@,
        "quote_reply"@ != "list_listen_chats"@,
        "forward_message"@ != "list_listen_chats"@,
        "get_my_info"@ != "list_listen_chats"@,
        "get_friend_requests"@ != "list_listen_chats"@,
        "accept_friend"@ != "list_listen_chats"@,
        "add_listen_chat"@ != "list_listen_chats"@,
        "remove_listen_chat"@ != "list_listen_chats"@,
        "send_message"@ != "search_chat"@,
        "send_file"@ != "search_chat"@,
        "quote_reply"@ != "search_chat"@,
        "forward_message"@ != "search_chat"@,
        "get_my_info"@ != "search_chat"@,
        "get_friend_requests"@ != "search_chat"@,
        "accept_friend"@ != "search_chat"@,
        "add_listen_chat"@ != "search_chat"@,
        "remove_listen_chat"@ != "search_chat"@,
        "list_listen_chats"@ != "search_chat"@,
        "send_message"@ != "get_chat_history"@,
        "send_file"@ != "get_chat_history"@,
        "quote_reply"@ != "get_chat_history"@,
        "forward_message"@ != "get_chat_history"@,
        "get_my_info"@ != "get_chat_history"@,
        "get_friend_requests"@ != "get_chat_history"@,
        "accept_friend"@ != "get_chat_history"@,
        "add_listen_chat"@ != "get_chat_history"@,
        "remove_listen_chat"@ != "get_chat_history"@,
        "list_listen_chats"@ != "get_chat_history"@,
        "search_chat"@ != "get_chat_history"@,
        "send_message"@ != "get_moments"@,
        "send_file"@ != "get_moments"@,
        "quote_reply"@ != "get_moments"@,
        "forward_message"@ != "get_moments"@,
        "get_my_info"@ != "get_moments"@,
        "get_friend_requests"@ != "get_moments"@,
        "accept_friend"@ != "get_moments"@,
        "add_listen_chat"@ != "get_moments"@,
        "remove_listen_chat"@ != "get_moments"@,
        "list_listen_chats"@ != "get_moments"@,
        "search_chat"@ != "get_moments"@,
        "get_chat_history"@ != "get_moments"@,
        "send_message"@ != "publish_moment"@,
        "send_file"@ != "publish_moment"@,
        "quote_reply"@ != "publish_moment"@,
        "forward_message"@ != "publish_moment"@,
        "get_my_info"@ != "publish_moment"@,
        "get_friend_requests"@ != "publish_moment"@,
        "accept_friend"@ != "publish_moment"@,
        "add_listen_chat"@ != "publish_moment"@,
        "remove_listen_chat"@ != "publish_moment"@,
        "list_listen_chats"@ != "publish_moment"@,
        "search_chat"@ != "publish_moment"@,
        "get_chat_history"@ != "publish_moment"@,
        "get_moments"@ != "publish_moment"@,
        "send_message"@ != "download_media"@,
        "send_file"@ != "download_media"@,
        "quote_reply"@ != "download_media"@,
        "forward_message"@ != "download_media"@,
        "get_my_info"@ != "download_media"@,
        "get_friend_requests"@ != "download_media"@,
        "accept_friend"@ != "download_media"@,
        "add_listen_chat"@ != "download_media"@,
        "remove_listen_chat"@ != "download_media"@,
        "list_listen_chats"@ != "download_media"@,
        "search_chat"@ != "download_media"@,
        "get_chat_history"@ != "download_media"@,
        "get_moments"@ != "download_media"@,
        "publish_moment"@ != "download_media"@,
        "send_message"@ != "voice_to_text"@,
        "send_file"@ != "voice_to_text"@,
        "quote_reply"@ != "voice_to_text"@,
        "forward_message"@ != "voice_to_text"@,
        "get_my_info"@ != "voice_to_text"@,
        "get_friend_requests"@ != "voice_to_text"@,
        "accept_friend"@ != "voice_to_text"@,
        "add_listen_chat"@ != "voice_to_text"@,
        "remove_listen_chat"@ != "voice_to_text"@,
        "list_listen_chats"@ != "voice_to_text"@,
        "search_chat"@ != "voice_to_text"@,
        "get_chat_history"@ != "voice_to_text"@,
        "get_moments"@ != "voice_to_text"@,
        "publish_moment"@ != "voice_to_text"@,
        "download_media"@ != "voice_to_text"@,
{
    reveal_strlit("send_message");
    reveal_strlit("send_file");
    reveal_strlit("quote_reply");
    reveal_strlit("forward_message");
    reveal_strlit("get_my_info");
    reveal_strlit("get_friend_requests");
    reveal_strlit("accept_friend");
    reveal_strlit("add_listen_chat");
    reveal_strlit("remove_listen_chat");
    reveal_strlit("list_listen_chats");
    reveal_strlit("search_chat");
    reveal_strlit("get_chat_history");
    reveal_strlit("get_moments");
    reveal_strlit("publish_moment");
    reveal_strlit("download_media");
    reveal_strlit("voice_to_text");
    assert("send_message"@.len() == 12);
    assert("send_file"@.len() == 9);
    assert("quote_reply"@.len() == 11);
    assert("forward_message"@.len() == 15);
    assert("get_my_info"@.len() == 11);
    assert("get_friend_requests"@.len() == 19);
    assert("accept_friend"@.len() == 13);
    assert("add_listen_chat"@.len() == 15);
    assert("remove_listen_chat"@.len() == 18);
    assert("list_listen_chats"@.len() == 17);
    assert("search_chat"@.len() == 11);
    assert("get_chat_history"@.len() == 16);
    assert("get_moments"@.len() == 11);
    assert("publish_moment"@.len() == 14);
    assert("download_media"@.len() == 14);
    assert("voice_to_text"@.len() == 13);
    assert("quote_reply"@[0] != "get_my_info"@[0]);
    assert("forward_message"@[0] != "add_listen_chat"@[0]);
    assert("quote_reply"@[0] != "search_chat"@[0]);
    assert("get_my_info"@[0] != "search_chat"@[0]);
    assert("quote_reply"@[0] != "get_moments"@[0]);
    assert("get_my_info"@[5] != "get_moments"@[5]);
    assert("search_chat"@[0] != "get_moments"@[0]);
    assert("publish_moment"@[0] != "download_media"@[0]);
    assert("accept_friend"@[0] != "voice_to_text"@[0]);
}

/// Each of the server's sixteen actions is carried out by the sidecar's method of its meaning,
/// and nothing else is an action.
pub proof fn law_sixteen_actions_have_methods(action: Seq<char>)
    ensures
        action_method("send_message"@) == Some("msg.send"@),
        action_method("send_file"@) == Some("file.send"@),
        action_method("quote_reply"@) == Some("msg.quote"@),
        action_method("forward_message"@) == Some("msg.forward"@),
        action_method("get_my_info"@) == Some("wx.get_my_info"@),
        action_method("get_friend_requests"@) == Some("friends.new_requests"@),
        action_method("accept_friend"@) == Some("friend.accept"@),
        action_method("add_listen_chat"@) == Some("listen.add"@),
        action_method("remove_listen_chat"@) == Some("listen.remove"@),
        action_method("list_listen_chats"@) == Some("listen.list"@),
        action_method("search_chat"@) == Some("chat.search"@),
        action_method("get_chat_history"@) == Some("chat.history"@),
        action_method("get_moments"@) == Some("moments.get"@),
        action_method("publish_moment"@) == Some("moments.publish"@),
        action_method("download_media"@) == Some("media.download"@),
        action_method("voice_to_text"@) == Some("voice.to_text"@),
        action_method(action) is Some ==> {
            ||| action == "send_message"@
            ||| action == "send_file"@
            ||| action == "quote_reply"@
            ||| action == "forward_message"@
            ||| action == "get_my_info"@
            ||| action == "get_friend_requests"@
            ||| action == "accept_friend"@
            ||| action == "add_listen_chat"@
            ||| action == "remove_listen_chat"@
            ||| action == "list_listen_chats"@
            ||| action == "search_chat"@
            ||| action == "get_chat_history"@
            ||| action == "get_moments"@
            ||| action == "publish_moment"@
            ||| action == "download_media"@
            ||| action == "voice_to_text"@
        },
{
    lemma_actions_differ();
}

/// The actions that change something in WeChat are not repeated, whatever becomes of their
/// call; those that only read are called once more after a call that timed out, and after no
/// other.
pub proof fn law_only_reads_are_tried_again(
    action: Seq<char>,
    end: Result<JsonTree, RpcErrorView>,
)
    ensures
        ({
            ||| action == "send_message"@
            ||| action == "send_file"@
            ||| action == "quote_reply"@
            ||| action == "forward_message"@
            ||| action == "accept_friend"@
            ||| action == "add_listen_chat"@
            ||| action == "remove_listen_chat"@
            ||| action == "publish_moment"@
        }) ==> !is_read(action) && step_after(is_read(action), end) != ExecutionStep::Retry,
        ({
            ||| action == "get_my_info"@
            ||| action == "get_friend_requests"@
            ||| action == "list_listen_chats"@
            ||| action == "search_chat"@
            ||| action == "get_chat_history"@
            ||| action == "get_moments"@
            ||| action == "download_media"@
            ||| action == "voice_to_text"@
        }) ==> is_read(action) && (step_after(is_read(action), end) == ExecutionStep::Retry <==> end
            == Err::<JsonTree, RpcErrorView>(RpcErrorView::Timeout)),
        action_method(action) is None ==> !is_read(action),
{
    lemma_actions_differ();
}

/// A call that ended well is followed by a pause, and only such a call. One that failed hands
/// its error over at once, unless it is repeated; and it is not repeated a second time.
pub proof fn law_only_success_is_followed_by_a_pause(
    may_retry: bool,
    end: Result<JsonTree, RpcErrorView>,
)
    ensures
        step_after(may_retry, end) == ExecutionStep::Rest <==> end is Ok,
        end matches Err(e) ==> (step_after(may_retry, end) == ExecutionStep::Fail <==> !(may_retry
            && e == RpcErrorView::Timeout)),
        step_after(false, end) != ExecutionStep::Retry,
{
}

/// The names of the parameters are different texts.
proof fn lemma_params_differ()
    ensures
        "who"@ != "quoteContent"@,
        "who"@ != "text"@,
        "quoteContent"@ != "text"@,
        "who"@ != "at"@,
        "quoteContent"@ != "at"@,
        "text"@ != "at"@,
        "who"@ != "target"@,
        "quoteContent"@ != "target"@,
        "text"@ != "target"@,
        "at"@ != "target"@,
        "who"@ != "sourceWho"@,
        "quoteContent"@ != "sourceWho"@,
        "text"@ != "sourceWho"@,
        "at"@ != "sourceWho"@,
        "target"@ != "sourceWho"@,
        "who"@ != "match"@,
        "quoteContent"@ != "match"@,
        "text"@ != "match"@,
        "at"@ != "match"@,
        "target"@ != "match"@,
        "sourceWho"@ != "match"@,
        "who"@ != "n"@,
        "quoteContent"@ != "n"@,
        "text"@ != "n"@,
        "at"@ != "n"@,
        "target"@ != "n"@,
        "sourceWho"@ != "n"@,
        "match"@ != "n"@,
        "who"@ != "count"@,
        "quoteContent"@ != "count"@,
        "text"@ != "count"@,
        "at"@ != "count"@,
        "target"@ != "count"@,
        "sourceWho"@ != "count"@,
        "match"@ != "count"@,
        "n"@ != "count"@,
        "who"@ != "msgId"@,
        "quoteContent"@ != "msgId"@,
        "text"@ != "msgId"@,
        "at"@ != "msgId"@,
        "target"@ != "msgId"@,
        "sourceWho"@ != "msgId"@,
        "match"@ != "msgId"@,
        "n"@ != "msgId"@,
        "count"@ != "msgId"@,
{
    reveal_strlit("who");
    reveal_strlit("quoteContent");
    reveal_strlit("text");
    reveal_strlit("at");
    reveal_strlit("target");
    reveal_strlit("sourceWho");
    reveal_strlit("match");
    reveal_strlit("n");
    reveal_strlit("count");
    reveal_strlit("msgId");
    assert("who"@.len() == 3);
    assert("quoteContent"@.len() == 12);
    assert("text"@.len() == 4);
    assert("at"@.len() == 2);
    assert("target"@.len() == 6);
    assert("sourceWho"@.len() == 9);
    assert("match"@.len() == 5);
    assert("n"@.len() == 1);
    assert("count"@.len() == 5);
    assert("msgId"@.len() == 5);
    assert("match"@[0] != "count"@[0]);
    assert("match"@[1] != "msgId"@[1]);
    assert("count"@[0] != "msgId"@[0]);
}

/// Every parameter reaches the sidecar under the name that the server gave it, with the value
/// that the server gave it. For the actions with parameters of their own, these and no others
/// are handed on, and one that is missing is null, or the usual number; the parameters of every
/// other action are handed on as they are.
pub proof fn law_params_keep_their_names(action: Seq<char>, p: JsonTree, k: Seq<char>)
    ensures
        ({
            let r = sidecar_params(action, p);
            &&& r.get(k) is Some && p.get(k) is Some ==> r.get(k) == p.get(k)
            &&& action == "quote_reply"@ ==> {
                &&& r.get(k) is Some <==> k == "who"@ || k == "quoteContent"@ || k == "text"@ || k
                    == "at"@
                &&& r.get(k) is Some && p.get(k) is None ==> r.get(k) == Some(JsonTree::Null)
            }
            &&& action == "forward_message"@ ==> {
                &&& r.get(k) is Some <==> k == "target"@ || k == "sourceWho"@ || k == "match"@
                &&& r.get(k) is Some && p.get(k) is None ==> r.get(k) == Some(JsonTree::Null)
            }
            &&& action == "get_chat_history"@ ==> {
                &&& r.get(k) is Some <==> k == "who"@ || k == "n"@
                &&& p.get("who"@) is None ==> r.get("who"@) == Some(JsonTree::Null)
                &&& p.get("n"@) is None ==> r.get("n"@) == Some(JsonTree::Int(20))
            }
            &&& action == "get_moments"@ ==> {
                &&& r.get(k) is Some <==> k == "count"@
                &&& p.get("count"@) is None ==> r.get("count"@) == Some(JsonTree::Int(10))
            }
            &&& action == "download_media"@ || action == "voice_to_text"@ ==> {
                &&& r.get(k) is Some <==> k == "msgId"@
                &&& p.get("msgId"@) is None ==> r.get("msgId"@) == Some(JsonTree::Null)
            }
            &&& action != "quote_reply"@ && action != "forward_message"@ && action
                != "get_chat_history"@ && action != "get_moments"@ && action != "download_media"@
                && action != "voice_to_text"@ ==> r == p
        }),
{
    broadcast use lemma_put_get;

    lemma_actions_differ();
    lemma_params_differ();
}

/// What the server asks to quote is what is quoted, and what it asks to say is what is said; a
/// forwarded message goes from the chat it is in to the one it is meant for; a picture or a
/// voice message is asked for by its own id. A parameter that is missing is null.
pub proof fn law_operations_say_what_was_asked(p: JsonTree)
    ensures
        ({
            let r = sidecar_params("quote_reply"@, p);
            &&& r.get("who"@) == Some(p.get("who"@).unwrap_or(JsonTree::Null))
            &&& r.get("quoteContent"@) == Some(p.get("quoteContent"@).unwrap_or(JsonTree::Null))
            &&& r.get("text"@) == Some(p.get("text"@).unwrap_or(JsonTree::Null))
            &&& r.get("at"@) == Some(p.get("at"@).unwrap_or(JsonTree::Null))
        }),
        ({
            let r = sidecar_params("forward_message"@, p);
            &&& r.get("target"@) == Some(p.get("target"@).unwrap_or(JsonTree::Null))
            &&& r.get("sourceWho"@) == Some(p.get("sourceWho"@).unwrap_or(JsonTree::Null))
            &&& r.get("match"@) == Some(p.get("match"@).unwrap_or(JsonTree::Null))
        }),
        ({
            let r = sidecar_params("get_chat_history"@, p);
            &&& r.get("who"@) == Some(p.get("who"@).unwrap_or(JsonTree::Null))
            &&& r.get("n"@) == Some(p.get("n"@).unwrap_or(JsonTree::Int(20)))
        }),
        sidecar_params("get_moments"@, p).get("count"@) == Some(
            p.get("count"@).unwrap_or(JsonTree::Int(10)),
        ),
        sidecar_params("download_media"@, p).get("msgId"@) == Some(
            p.get("msgId"@).unwrap_or(JsonTree::Null),
        ),
        sidecar_params("voice_to_text"@, p).get("msgId"@) == Some(
            p.get("msgId"@).unwrap_or(JsonTree::Null),
        ),
{
    broadcast use lemma_put_get;

    lemma_actions_differ();
    lemma_params_differ();
}

/// WeChat is online exactly where an answer says so. An answer that does not, or that is an
/// error, shows that the sidecar is there and WeChat is not; where there is no answer, nothing
/// is known but that the sidecar cannot be reached.
pub proof fn law_health_is_what_was_answered(r: Result<JsonTree, RpcErrorView>)
    ensures
        health_after(r) == WxHealth::Online <==> (r matches Ok(t) && t.get("online"@) == Some(
            JsonTree::Bool(true),
        )),
        health_after(r) == WxHealth::Unreachable <==> (r matches Err(e) && !(e is Sidecar)),
        health_after(r).online() <==> health_after(r) == WxHealth::Online,
{
}

/// The bounds of a pause are in order. Bounds that are in order are kept; others give way to
/// half a second and a second.
pub proof fn law_pauses_have_bounds(min: u64, max: u64)
    ensures
        pause_bounds(min, max).0 <= pause_bounds(min, max).1,
        min <= max ==> pause_bounds(min, max) == (min, max),
        min > max ==> pause_bounds(min, max) == (500u64, 1000u64),
{
}

} // verus!
