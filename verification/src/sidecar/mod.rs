//! The sidecar process: its protocol and the bookkeeping of its calls.
//!
//! A call is registered before its request is written, so that no answer can come too
//! early. The reader of the sidecar's output hands each line to [`RpcCore::on_line`] and
//! does what it says: wake the caller that waits for an id, pass a notification on to
//! the subscribers, or nothing. A line that cannot be used never ends the reading.

use vstd::prelude::*;
use vstd::string::*;
use crate::json::{
    lemma_object_plain, lemma_put_get, lemma_put_plain, parse_json, text_tree, tree_text,
    write_json, Json, JsonTree, PARSE_DEPTH,
};
use crate::text::{join2, join3, signed_decimal, signed_text, trim, trimmed};

pub mod protocol;
pub mod spec;

use crate::sidecar::protocol::{
    frame_of, law_error_object_is_code_and_message, outcome, request_json, request_tree, RpcError,
    RpcErrorView, RpcFrame, RpcFrameView,
};

verus! {

/// How long a call waits for its answer unless told otherwise, in milliseconds.
pub const RPC_TIMEOUT: u64 = 30_000;

/// How many notifications a slow subscriber may lag behind.
pub const NOTIFY_CHANNEL_CAPACITY: usize = 256;

/// The bookkeeping of one sidecar's calls.
pub struct RpcCore {
    closed: bool,
    next_id: u64,
    pending: Vec<u64>,
}

/// What the bookkeeping holds: whether the sidecar's output has ended, the id of the next
/// call, and the calls that wait for an answer.
pub struct RpcState {
    pub closed: bool,
    pub next_id: u64,
    pub pending: Set<u64>,
}

/// A call on its way out: its id and the line to write.
pub struct RpcRequest {
    pub id: u64,
    pub line: String,
}

/// What to do about one line of the sidecar's output.
pub enum LineAction {
    /// Hand the outcome to the caller that waits for this id.
    Wake { id: u64, result: Result<Json, RpcError> },
    /// Pass the notification on to every subscriber.
    Notify(Json),
    /// A blank line.
    Blank,
    /// The line is no frame.
    Unreadable,
    /// Nobody waits for this id any more.
    Orphan(u64),
    /// The sidecar sent a request, which is against the protocol.
    Violation,
}

/// What an action says.
pub enum LineActionView {
    Wake { id: u64, result: Result<JsonTree, RpcErrorView> },
    Notify(JsonTree),
    Blank,
    Unreadable,
    Orphan(u64),
    Violation,
}

impl View for LineAction {
    type V = LineActionView;

    open spec fn view(&self) -> LineActionView {
        match self {
            LineAction::Wake { id, result } => LineActionView::Wake {
                id: *id,
                result: outcome(*result),
            },
            LineAction::Notify(j) => LineActionView::Notify(j@),
            LineAction::Blank => LineActionView::Blank,
            LineAction::Unreadable => LineActionView::Unreadable,
            LineAction::Orphan(id) => LineActionView::Orphan(*id),
            LineAction::Violation => LineActionView::Violation,
        }
    }
}

/// What a caller gets for a response: the sidecar's error as `[code] message`, or the
/// result, `null` where there is none.
pub open spec fn response_outcome(
    result: Option<JsonTree>,
    error: Option<protocol::RpcErrorObjView>,
) -> Result<JsonTree, RpcErrorView> {
    match error {
        Some(e) => Err(
            RpcErrorView::Sidecar(
                "["@ + signed_decimal(e.code as int) + "] "@ + e.message,
            ),
        ),
        None => Ok(
            match result {
                Some(t) => t,
                None => JsonTree::Null,
            },
        ),
    }
}

/// The payload that subscribers get for a notification.
pub open spec fn notification_tree(method: Seq<char>, params: JsonTree) -> JsonTree {
    JsonTree::object().put("method"@, JsonTree::Str(method)).put("params"@, params)
}

/// What a line of output calls for, given the ids that are waited for.
pub open spec fn line_action(pending: Set<u64>, line: Seq<char>) -> LineActionView {
    if trimmed(line).len() == 0 {
        LineActionView::Blank
    } else {
        match text_tree(trimmed(line)) {
            None => LineActionView::Unreadable,
            Some(t) => frame_action(pending, frame_of(t)),
        }
    }
}

/// What a frame calls for, given the ids that are waited for.
pub open spec fn frame_action(pending: Set<u64>, frame: Option<RpcFrameView>) -> LineActionView {
    match frame {
        None => LineActionView::Unreadable,
        Some(RpcFrameView::Request { .. }) => LineActionView::Violation,
        Some(RpcFrameView::Notification { method, params, .. }) => LineActionView::Notify(
            notification_tree(method, params),
        ),
        Some(RpcFrameView::Response { id, result, error, .. }) => if pending.contains(id) {
            LineActionView::Wake { id, result: response_outcome(result, error) }
        } else {
            LineActionView::Orphan(id)
        },
    }
}

impl RpcState {
    /// The state after a line of output: whoever is woken no longer waits.
    pub open spec fn after_action(self, a: LineActionView) -> RpcState {
        match a {
            LineActionView::Wake { id, .. } => RpcState { pending: self.pending.remove(id), ..self },
            _ => self,
        }
    }

    /// The state after a call has been registered.
    pub open spec fn after_begin(self) -> RpcState {
        RpcState {
            closed: self.closed,
            next_id: if self.next_id == u64::MAX {
                0
            } else {
                (self.next_id + 1) as u64
            },
            pending: self.pending.insert(self.next_id),
        }
    }

    /// The state after the sidecar's output has ended.
    pub open spec fn after_end(self) -> RpcState {
        RpcState { closed: true, next_id: self.next_id, pending: Set::empty() }
    }

    /// Every id that is waited for was given out before the next one.
    pub open spec fn ids_below(self) -> bool {
        forall|id: u64| #[trigger] self.pending.contains(id) ==> id < self.next_id
    }
}

/// What became of waiting for an answer.
pub enum Waited {
    /// The answer came.
    Answered(Result<Json, RpcError>),
    /// Whoever would have handed the answer over is gone.
    Abandoned,
    /// The time was up.
    Elapsed,
}

impl RpcCore {
    /// What the bookkeeping holds.
    pub closed spec fn view(&self) -> RpcState {
        RpcState { closed: self.closed, next_id: self.next_id, pending: self.pending@.to_set() }
    }

    /// No id is waited for twice.
    pub closed spec fn wf(&self) -> bool {
        self.pending@.no_duplicates()
    }

    /// No call yet; the first id is 1.
    pub fn new() -> (r: RpcCore)
        ensures
            r.wf(),
            r.view() == (RpcState { closed: false, next_id: 1, pending: Set::empty() }),
    {
        let r = RpcCore { closed: false, next_id: 1, pending: Vec::new() };
        assert(r.pending@.to_set() =~= Set::empty());
        r
    }

    /// Whether the sidecar's output has ended.
    pub fn is_closed(&self) -> (r: bool)
        ensures
            r == self.view().closed,
    {
        self.closed
    }

    /// Where an id stands among those that are waited for.
    fn find(&self, id: u64) -> (r: Option<usize>)
        requires
            self.wf(),
        ensures
            match r {
                Some(i) => i < self.pending@.len() && self.pending@[i as int] == id,
                None => !self.pending@.contains(id),
            },
    {
        let mut i: usize = 0;
        while i < self.pending.len()
            invariant
                i <= self.pending@.len(),
                forall|k: int| 0 <= k < i ==> self.pending@[k] != id,
            decreases self.pending.len() - i,
        {
            if self.pending[i] == id {
                return Some(i);
            }
            i = i + 1;
        }
        None
    }

    /// Registers a call, unless the sidecar's output has ended: then it fails at once
    /// instead of waiting for its time to run out. The request is one line; its receiver
    /// reads from it what was put in, if the parameters hold no fraction and are not
    /// nested too deep for the parser.
    pub fn begin_call(&mut self, method: &str, params: Json) -> (r: Result<RpcRequest, RpcError>)
        requires
            old(self).wf(),
        ensures
            final(self).wf(),
            match r {
                Err(e) => old(self).view().closed && e@ == RpcErrorView::Closed
                    && final(self).view() == old(self).view(),
                Ok(q) => {
                    &&& !old(self).view().closed
                    &&& final(self).view() == old(self).view().after_begin()
                    &&& q.id == old(self).view().next_id
                    &&& q.line@ == tree_text(request_tree(q.id, method@, params@)) + "\n"@
                    &&& !tree_text(request_tree(q.id, method@, params@)).contains('\n')
                    &&& params@.plain((PARSE_DEPTH - 1) as nat) ==> text_tree(
                        tree_text(request_tree(q.id, method@, params@)),
                    ) == Some(request_tree(q.id, method@, params@))
                },
            },
    {
        if self.closed {
            return Err(RpcError::Closed);
        }
        let id = self.next_id;
        if id == u64::MAX {
            self.next_id = 0;
        } else {
            self.next_id = id + 1;
        }
        match self.find(id) {
            Some(i) => {
                proof {
                    assert(self.pending@.contains(id));
                    assert(self.pending@.to_set().insert(id) =~= self.pending@.to_set());
                }
            },
            None => {
                let ghost before = self.pending@;
                self.pending.push(id);
                assert(self.pending@.to_set() =~= before.to_set().insert(id)) by {
                    assert(self.pending@.last() == id);
                    assert forall|x: u64| self.pending@.contains(x) <==> before.contains(x) || x
                        == id by {
                        if before.contains(x) {
                            let k = choose|k: int| 0 <= k < before.len() && before[k] == x;
                            assert(self.pending@[k] == x);
                        }
                    }
                }
            },
        }
        proof {
            broadcast use {lemma_object_plain, lemma_put_plain};

            if params@.plain((PARSE_DEPTH - 1) as nat) {
                assert(request_tree(id, method@, params@).plain(PARSE_DEPTH as nat));
            }
        }
        let frame = request_json(id, method, params);
        let mut line = write_json(&frame);
        line.append("\n");
        Ok(RpcRequest { id, line })
    }

    /// Nobody waits for this id any more.
    fn forget(&mut self, id: u64)
        requires
            old(self).wf(),
        ensures
            final(self).wf(),
            final(self).view() == (RpcState {
                pending: old(self).view().pending.remove(id),
                ..old(self).view()
            }),
    {
        let ghost before = self.pending@;
        match self.find(id) {
            Some(i) => {
                self.pending.remove(i);
                assert(self.pending@.to_set() =~= before.to_set().remove(id)) by {
                    assert forall|x: u64| self.pending@.contains(x) <==> before.contains(x) && x
                        != id by {
                        if self.pending@.contains(x) {
                            let k = choose|k: int|
                                0 <= k < self.pending@.len() && self.pending@[k] == x;
                            if k < i {
                                assert(before[k] == x);
                            } else {
                                assert(before[k + 1] == x);
                            }
                        }
                        if before.contains(x) && x != id {
                            let k = choose|k: int| 0 <= k < before.len() && before[k] == x;
                            if k < i {
                                assert(self.pending@[k] == x);
                            } else {
                                assert(self.pending@[k - 1] == x);
                            }
                        }
                    }
                }
            },
            None => {
                assert(before.to_set().remove(id) =~= before.to_set());
            },
        }
    }

    /// The request could not be written: the call is forgotten and fails.
    pub fn write_failed(&mut self, id: u64, detail: &str) -> (r: RpcError)
        requires
            old(self).wf(),
        ensures
            final(self).wf(),
            final(self).view() == (RpcState {
                pending: old(self).view().pending.remove(id),
                ..old(self).view()
            }),
            r@ == RpcErrorView::Io("写入 stdin 失败: "@ + detail@),
    {
        self.forget(id);
        RpcError::Io(join2("写入 stdin 失败: ", detail))
    }

    /// Ends the wait for an answer. An answer is passed on. A caller that is abandoned
    /// fails with all others that wait, since the reader is gone. One whose time is up is
    /// forgotten, so that a late answer finds nobody. With the outcome come the ids of the
    /// other callers to be told that the sidecar is gone.
    pub fn finish_call(&mut self, id: u64, waited: Waited) -> (r: (
        Result<Json, RpcError>,
        Vec<u64>,
    ))
        requires
            old(self).wf(),
        ensures
            final(self).wf(),
            match waited {
                Waited::Answered(a) => {
                    &&& outcome(r.0) == outcome(a)
                    &&& r.1@.len() == 0
                    &&& final(self).view() == old(self).view()
                },
                Waited::Abandoned => {
                    &&& outcome(r.0) == Err::<JsonTree, RpcErrorView>(RpcErrorView::Closed)
                    &&& r.1@.no_duplicates()
                    &&& r.1@.to_set() == old(self).view().pending
                    &&& final(self).view() == (RpcState {
                        pending: Set::empty(),
                        ..old(self).view()
                    })
                },
                Waited::Elapsed => {
                    &&& outcome(r.0) == Err::<JsonTree, RpcErrorView>(RpcErrorView::Timeout)
                    &&& r.1@.len() == 0
                    &&& final(self).view() == (RpcState {
                        pending: old(self).view().pending.remove(id),
                        ..old(self).view()
                    })
                },
            },
    {
        match waited {
            Waited::Answered(a) => (a, Vec::new()),
            Waited::Abandoned => {
                let all = self.drain();
                (Err(RpcError::Closed), all)
            },
            Waited::Elapsed => {
                self.forget(id);
                (Err(RpcError::Timeout), Vec::new())
            },
        }
    }

    /// Takes out every id that is waited for.
    fn drain(&mut self) -> (r: Vec<u64>)
        requires
            old(self).wf(),
        ensures
            final(self).wf(),
            r@.no_duplicates(),
            r@.to_set() == old(self).view().pending,
            final(self).view() == (RpcState { pending: Set::empty(), ..old(self).view() }),
    {
        let mut all: Vec<u64> = Vec::new();
        std::mem::swap(&mut all, &mut self.pending);
        assert(self.pending@.to_set() =~= Set::empty());
        all
    }

    /// The sidecar's output has ended, by end of file or by an error: every caller that
    /// waits is to be told that the sidecar is gone, and later calls fail at once.
    pub fn on_end(&mut self) -> (r: Vec<u64>)
        requires
            old(self).wf(),
        ensures
            final(self).wf(),
            final(self).view() == old(self).view().after_end(),
            r@.no_duplicates(),
            r@.to_set() == old(self).view().pending,
    {
        self.closed = true;
        self.drain()
    }

    /// Takes in a line of the sidecar's output.
    pub fn on_line(&mut self, line: &str) -> (r: LineAction)
        requires
            old(self).wf(),
        ensures
            final(self).wf(),
            r@ == line_action(old(self).view().pending, line@),
            final(self).view() == old(self).view().after_action(r@),
    {
        let body = trim(line);
        if body.as_str().unicode_len() == 0 {
            return LineAction::Blank;
        }
        match parse_json(body.as_str()) {
            None => LineAction::Unreadable,
            Some(j) => self.on_frame(RpcFrame::from_json(&j)),
        }
    }

    /// Takes in a frame of the sidecar's output; `None` stands for JSON that is no frame.
    pub fn on_frame(&mut self, frame: Option<RpcFrame>) -> (r: LineAction)
        requires
            old(self).wf(),
        ensures
            final(self).wf(),
            r@ == frame_action(
                old(self).view().pending,
                match frame {
                    Some(f) => Some(f@),
                    None => None,
                },
            ),
            final(self).view() == old(self).view().after_action(r@),
    {
        match frame {
            None => LineAction::Unreadable,
            Some(RpcFrame::Request { .. }) => LineAction::Violation,
            Some(RpcFrame::Notification { method, params, .. }) => {
                LineAction::Notify(
                    Json::object().put("method", Json::Str(method)).put("params", params),
                )
            },
            Some(RpcFrame::Response { id, result, error, .. }) => {
                match self.find(id) {
                    None => LineAction::Orphan(id),
                    Some(i) => {
                        assert(self.pending@.contains(id));
                        self.forget(id);
                        let payload = match error {
                            Some(e) => Err(
                                RpcError::Sidecar(
                                    join2(
                                        join3("[", signed_text(e.code).as_str(), "] ").as_str(),
                                        e.message.as_str(),
                                    ),
                                ),
                            ),
                            None => Ok(
                                match result {
                                    Some(j) => j,
                                    None => Json::Null,
                                },
                            ),
                        };
                        LineAction::Wake { id, result: payload }
                    },
                }
            },
        }
    }
}

/// A response wakes the caller of its id with its content, and nobody else; the caller no
/// longer waits afterwards, so the same response once more is an orphan.
pub proof fn law_response_wakes_its_caller_once(
    s: RpcState,
    jsonrpc: Seq<char>,
    id: u64,
    result: Option<JsonTree>,
    error: Option<protocol::RpcErrorObjView>,
)
    requires
        s.pending.contains(id),
    ensures
        ({
            let frame = Some(RpcFrameView::Response { jsonrpc, id, result, error });
            let first = frame_action(s.pending, frame);
            let after = s.after_action(first);
            &&& first == (LineActionView::Wake { id, result: response_outcome(result, error) })
            &&& forall|other: u64|
                other != id ==> (#[trigger] after.pending.contains(other) <==> s.pending.contains(
                    other,
                ))
            &&& !after.pending.contains(id)
            &&& frame_action(after.pending, frame) == LineActionView::Orphan(id)
            &&& after.after_action(LineActionView::Orphan(id)) == after
        }),
{
}

/// A call whose time ran out, or whose request could not be written, gets no answer later:
/// the response is an orphan and changes nothing.
pub proof fn law_late_response_is_orphan(
    s: RpcState,
    jsonrpc: Seq<char>,
    id: u64,
    result: Option<JsonTree>,
    error: Option<protocol::RpcErrorObjView>,
)
    ensures
        ({
            let after = RpcState { pending: s.pending.remove(id), ..s };
            frame_action(
                after.pending,
                Some(RpcFrameView::Response { jsonrpc, id, result, error }),
            ) == LineActionView::Orphan(id)
        }),
{
}

/// A new call gets an id that nobody waits for, until the 64-bit counter has gone round;
/// and registering it keeps that so for the next one. Neither lines of output nor the end
/// of the output spoil it.
pub proof fn law_ids_are_fresh(s: RpcState, a: LineActionView)
    requires
        s.ids_below(),
        s.next_id < u64::MAX,
    ensures
        !s.pending.contains(s.next_id),
        s.after_begin().ids_below(),
        s.after_begin().pending.contains(s.next_id),
        s.after_action(a).ids_below(),
        s.after_end().ids_below(),
{
}

/// Once the output has ended nobody waits, and no line of output can wake anybody.
pub proof fn law_nobody_waits_after_the_end(s: RpcState, line: Seq<char>)
    ensures
        s.after_end().closed,
        !(line_action(s.after_end().pending, line) is Wake),
        s.after_end().after_action(line_action(s.after_end().pending, line)) == s.after_end(),
{
}

/// A caller gets the sidecar's error, with its code and its message, where there is one; otherwise
/// the result as it is, or null where there is none.
pub proof fn law_caller_gets_what_the_sidecar_answered(
    result: Option<JsonTree>,
    error: Option<protocol::RpcErrorObjView>,
)
    ensures
        error matches Some(e) ==> response_outcome(result, error) == Err::<JsonTree, RpcErrorView>(
            RpcErrorView::Sidecar("["@ + signed_decimal(e.code as int) + "] "@ + e.message),
        ),
        error is None ==> (result matches Some(t) ==> response_outcome(result, error) == Ok::<
            JsonTree,
            RpcErrorView,
        >(t)),
        error is None && result is None ==> response_outcome(result, error) == Ok::<
            JsonTree,
            RpcErrorView,
        >(JsonTree::Null),
{
}

/// A line that holds a response to a call that waits wakes the caller of its id with its result, or
/// with its error; one for which nobody waits wakes nobody.
pub proof fn law_line_wakes_the_caller_of_its_id(
    pending: Set<u64>,
    line: Seq<char>,
    t: JsonTree,
    jsonrpc: Seq<char>,
    id: u64,
    code: i64,
    message: Seq<char>,
)
    requires
        trimmed(line).len() > 0,
        text_tree(trimmed(line)) == Some(t),
        t.get("jsonrpc"@) == Some(JsonTree::Str(jsonrpc)),
        t.get("id"@) == Some(JsonTree::Int(id as int)),
        !(t.get("method"@) matches Some(JsonTree::Str(_))),
    ensures
        t.get("error"@) is None && pending.contains(id) ==> line_action(pending, line) == (
        LineActionView::Wake {
            id,
            result: Ok(t.get("result"@).unwrap_or(JsonTree::Null)),
        }),
        (t.get("error"@) matches Some(e) && e is Obj && e.get("code"@) == Some(
            JsonTree::Int(code as int),
        ) && e.get("message"@) == Some(JsonTree::Str(message)) && pending.contains(id))
            ==> line_action(pending, line) == (LineActionView::Wake {
            id,
            result: Err(
                RpcErrorView::Sidecar("["@ + signed_decimal(code as int) + "] "@ + message),
            ),
        }),
        t.get("error"@) is None && !pending.contains(id) ==> line_action(pending, line)
            == LineActionView::Orphan(id),
{
    if let Some(e) = t.get("error"@) {
        law_error_object_is_code_and_message(e, protocol::RpcErrorObjView { code, message });
    }
}

/// A line that holds a notification is passed on under its method with its parameters as they are,
/// whoever waits; a request is against the protocol; a blank line, or one that is no JSON, calls
/// for nothing.
pub proof fn law_lines_that_answer_nobody(
    pending: Set<u64>,
    line: Seq<char>,
    t: JsonTree,
    jsonrpc: Seq<char>,
    method: Seq<char>,
)
    ensures
        trimmed(line).len() == 0 ==> line_action(pending, line) == LineActionView::Blank,
        trimmed(line).len() > 0 && text_tree(trimmed(line)) is None ==> line_action(pending, line)
            == LineActionView::Unreadable,
        trimmed(line).len() > 0 && text_tree(trimmed(line)) == Some(t) && t.get("jsonrpc"@) == Some(
            JsonTree::Str(jsonrpc),
        ) && t.get("method"@) == Some(JsonTree::Str(method)) ==> match t.get("id"@) {
            None => line_action(pending, line) matches LineActionView::Notify(n) && n.get("method"@)
                == Some(JsonTree::Str(method)) && n.get("params"@) == Some(
                t.get("params"@).unwrap_or(JsonTree::Null),
            ),
            Some(JsonTree::Int(id)) => 0 <= id <= u64::MAX ==> line_action(pending, line)
                == LineActionView::Violation,
            Some(_) => line_action(pending, line) is Notify,
        },
{
    broadcast use lemma_put_get;

    reveal_strlit("method");
    reveal_strlit("params");
    assert("method"@.len() == 6);
    assert("params"@.len() == 6);
    assert("method"@[0] != "params"@[0]);
}

/// What subscribers get of a notification is its method and its parameters, and nothing else.
pub proof fn law_notification_carries_its_parts(method: Seq<char>, params: JsonTree, k: Seq<char>)
    ensures
        notification_tree(method, params).get("method"@) == Some(JsonTree::Str(method)),
        notification_tree(method, params).get("params"@) == Some(params),
        notification_tree(method, params).get(k) is Some ==> k == "method"@ || k == "params"@,
{
    broadcast use lemma_put_get;

    reveal_strlit("method");
    reveal_strlit("params");
    assert("method"@.len() == 6);
    assert("params"@.len() == 6);
    assert("method"@[0] != "params"@[0]);
}

/// A call takes the next id and waits under it, and the ids count on by one, round the 64 bits;
/// nobody else's wait is touched. Only a line that wakes a caller ends a wait, and that caller's
/// alone; the end of the output ends them all.
pub proof fn law_waits_begin_and_end_by_id(s: RpcState, a: LineActionView, x: u64)
    ensures
        s.after_begin().next_id == (s.next_id + 1) % 0x1_0000_0000_0000_0000,
        s.after_begin().pending.contains(x) <==> s.pending.contains(x) || x == s.next_id,
        s.after_begin().closed == s.closed,
        match a {
            LineActionView::Wake { id, .. } => {
                &&& s.after_action(a).pending.contains(x) <==> s.pending.contains(x) && x != id
                &&& s.after_action(a).next_id == s.next_id
                &&& s.after_action(a).closed == s.closed
            },
            _ => s.after_action(a) == s,
        },
        !s.after_end().pending.contains(x),
        s.after_end().closed,
        s.after_end().next_id == s.next_id,
{
}

/// An action says what it holds.
pub proof fn law_line_action_says_what_it_holds(id: u64, j: Json)
    ensures
        (LineAction::Wake { id, result: Ok(j) })@ == (LineActionView::Wake { id, result: Ok(j@) }),
        (LineAction::Wake { id, result: Err(RpcError::Timeout) })@ == (LineActionView::Wake {
            id,
            result: Err(RpcErrorView::Timeout),
        }),
        LineAction::Notify(j)@ == LineActionView::Notify(j@),
        LineAction::Orphan(id)@ == LineActionView::Orphan(id),
        LineAction::Blank@ is Blank,
        LineAction::Unreadable@ is Unreadable,
        LineAction::Violation@ is Violation,
{
}

/// A call waits for half a minute, and a subscriber may lag behind by two hundred and fifty-six.
pub proof fn law_usual_limits()
    ensures
        RPC_TIMEOUT == 30 * 1000,
        NOTIFY_CHANNEL_CAPACITY == 256,
{
}

} // verus!
