//! JSON-RPC 2.0 over the sidecar's standard streams, one JSON object per line:
//! - request: `{"jsonrpc":"2.0","id":1,"method":"wx.init","params":{}}`
//! - response: `{"jsonrpc":"2.0","id":1,"result":{...}}`
//! - error: `{"jsonrpc":"2.0","id":1,"error":{"code":-32000,"message":"..."}}`
//! - notification: `{"jsonrpc":"2.0","method":"message.received","params":{...}}`

use vstd::prelude::*;
use crate::json::{
    as_record, law_record_members_go_by_place, lemma_put_get, record, Json, JsonTree,
};
use crate::text::join2;

verus! {

/// One frame on the streams.
pub enum RpcFrame {
    /// A call, from this side to the sidecar. The sidecar has no business sending one.
    Request { jsonrpc: String, id: u64, method: String, params: Json },
    /// The answer to a call.
    Response { jsonrpc: String, id: u64, result: Option<Json>, error: Option<RpcErrorObj> },
    /// What the sidecar pushes of its own accord.
    Notification { jsonrpc: String, method: String, params: Json },
}

/// What a frame says.
pub enum RpcFrameView {
    Request { jsonrpc: Seq<char>, id: u64, method: Seq<char>, params: JsonTree },
    Response {
        jsonrpc: Seq<char>,
        id: u64,
        result: Option<JsonTree>,
        error: Option<RpcErrorObjView>,
    },
    Notification { jsonrpc: Seq<char>, method: Seq<char>, params: JsonTree },
}

/// The error object of JSON-RPC.
pub struct RpcErrorObj {
    pub code: i64,
    pub message: String,
}

/// What an error object says.
pub struct RpcErrorObjView {
    pub code: i64,
    pub message: Seq<char>,
}

/// How a call to the sidecar fails.
#[derive(Debug, Clone)]
pub enum RpcError {
    /// No answer within the time given.
    Timeout,
    /// The sidecar answered with an error.
    Sidecar(String),
    /// The streams failed.
    Io(String),
    /// The sidecar is gone.
    Closed,
}

/// What an error says.
pub enum RpcErrorView {
    Timeout,
    Sidecar(Seq<char>),
    Io(Seq<char>),
    Closed,
}

impl View for RpcErrorObj {
    type V = RpcErrorObjView;

    open spec fn view(&self) -> RpcErrorObjView {
        RpcErrorObjView { code: self.code, message: self.message@ }
    }
}

impl View for RpcError {
    type V = RpcErrorView;

    open spec fn view(&self) -> RpcErrorView {
        match self {
            RpcError::Timeout => RpcErrorView::Timeout,
            RpcError::Sidecar(s) => RpcErrorView::Sidecar(s@),
            RpcError::Io(s) => RpcErrorView::Io(s@),
            RpcError::Closed => RpcErrorView::Closed,
        }
    }
}

/// An optional value, as what it means.
pub open spec fn opt_tree(o: Option<Json>) -> Option<JsonTree> {
    match o {
        Some(j) => Some(j@),
        None => None,
    }
}

/// The outcome of a call, as what it means.
pub open spec fn outcome(r: Result<Json, RpcError>) -> Result<JsonTree, RpcErrorView> {
    match r {
        Ok(j) => Ok(j@),
        Err(e) => Err(e@),
    }
}

impl View for RpcFrame {
    type V = RpcFrameView;

    open spec fn view(&self) -> RpcFrameView {
        match self {
            RpcFrame::Request { jsonrpc, id, method, params } => RpcFrameView::Request {
                jsonrpc: jsonrpc@,
                id: *id,
                method: method@,
                params: params@,
            },
            RpcFrame::Response { jsonrpc, id, result, error } => RpcFrameView::Response {
                jsonrpc: jsonrpc@,
                id: *id,
                result: opt_tree(*result),
                error: match error {
                    Some(e) => Some(e@),
                    None => None,
                },
            },
            RpcFrame::Notification { jsonrpc, method, params } => RpcFrameView::Notification {
                jsonrpc: jsonrpc@,
                method: method@,
                params: params@,
            },
        }
    }
}

impl RpcErrorView {
    /// The error in words.
    pub open spec fn text(self) -> Seq<char> {
        match self {
            RpcErrorView::Timeout => "RPC 超时"@,
            RpcErrorView::Sidecar(s) => "sidecar 错误: "@ + s,
            RpcErrorView::Io(s) => "IO 错误: "@ + s,
            RpcErrorView::Closed => "sidecar 已退出"@,
        }
    }
}

impl RpcError {
    /// The error in words.
    pub fn message(&self) -> (r: String)
        ensures
            r@ == self@.text(),
    {
        match self {
            RpcError::Timeout => "RPC 超时".to_owned(),
            RpcError::Sidecar(s) => join2("sidecar 错误: ", s.as_str()),
            RpcError::Io(s) => join2("IO 错误: ", s.as_str()),
            RpcError::Closed => "sidecar 已退出".to_owned(),
        }
    }

    /// Another error that says the same.
    pub fn copy(&self) -> (r: RpcError)
        ensures
            r@ == self@,
    {
        match self {
            RpcError::Timeout => RpcError::Timeout,
            RpcError::Sidecar(s) => RpcError::Sidecar(s.clone()),
            RpcError::Io(s) => RpcError::Io(s.clone()),
            RpcError::Closed => RpcError::Closed,
        }
    }
}

/// The value of a member, `null` where it is missing.
pub open spec fn member_or_null(t: JsonTree, k: Seq<char>) -> JsonTree {
    match t.get(k) {
        Some(v) => v,
        None => JsonTree::Null,
    }
}

/// The 64-bit identifier of a frame.
pub open spec fn frame_id(t: JsonTree) -> Option<u64> {
    match t.get("id"@) {
        Some(v) => v.as_u64(),
        None => None,
    }
}

/// The names of an error object's members, in order.
pub const ERROR_MEMBERS: [&'static str; 2] = ["code", "message"];

/// The error object that a JSON value holds: a 64-bit code and a message.
pub open spec fn error_obj_of(t: JsonTree) -> Option<RpcErrorObjView> {
    let t = as_record(t, ERROR_MEMBERS@);
    match (
        match t.get("code"@) {
            Some(c) => c.as_i64(),
            None => None,
        },
        t.get_str("message"@),
    ) {
        (Some(code), Some(message)) => Some(RpcErrorObjView { code, message }),
        _ => None,
    }
}

/// The `error` member of a response: `Some(None)` where it is missing or `null`, `None`
/// where it is something else than an error object.
pub open spec fn response_error_of(t: JsonTree) -> Option<Option<RpcErrorObjView>> {
    match t.get("error"@) {
        None => Some(None),
        Some(JsonTree::Null) => Some(None),
        Some(v) => match error_obj_of(v) {
            Some(e) => Some(Some(e)),
            None => None,
        },
    }
}

/// The frame that a JSON value holds. Every frame names its protocol. With an id and a
/// method it is a request, with an id alone a response, with a method alone a
/// notification.
pub open spec fn frame_of(t: JsonTree) -> Option<RpcFrameView> {
    match t.get_str("jsonrpc"@) {
        None => None,
        Some(jsonrpc) => match (frame_id(t), t.get_str("method"@), response_error_of(t)) {
            (Some(id), Some(method), _) => Some(
                RpcFrameView::Request { jsonrpc, id, method, params: member_or_null(t, "params"@) },
            ),
            (Some(id), None, Some(error)) => Some(
                RpcFrameView::Response {
                    jsonrpc,
                    id,
                    result: match t.get("result"@) {
                        None => None,
                        Some(JsonTree::Null) => None,
                        Some(v) => Some(v),
                    },
                    error,
                },
            ),
            (None, Some(method), _) => Some(
                RpcFrameView::Notification { jsonrpc, method, params: member_or_null(t, "params"@) },
            ),
            _ => None,
        },
    }
}

/// The JSON of a request.
pub open spec fn request_tree(id: u64, method: Seq<char>, params: JsonTree) -> JsonTree {
    JsonTree::object().put("jsonrpc"@, JsonTree::Str("2.0"@)).put(
        "id"@,
        JsonTree::Int(id as int),
    ).put("method"@, JsonTree::Str(method)).put("params"@, params)
}

impl RpcErrorObj {
    /// Reads an error object.
    pub fn from_json(j: &Json) -> (r: Option<RpcErrorObj>)
        ensures
            match r {
                Some(e) => error_obj_of(j@) == Some(e@),
                None => error_obj_of(j@) is None,
            },
    {
        let j = record(j, &ERROR_MEMBERS);
        let code = match j.get("code") {
            Some(c) => c.as_i64(),
            None => None,
        };
        match (code, j.get_str("message")) {
            (Some(code), Some(message)) => Some(
                RpcErrorObj { code, message: message.to_owned() },
            ),
            _ => None,
        }
    }
}

/// A member of a JSON value, `null` where it is missing.
fn copy_member(j: &Json, key: &str) -> (r: Json)
    ensures
        r@ == member_or_null(j@, key@),
{
    match j.get(key) {
        Some(v) => v.copy(),
        None => Json::Null,
    }
}

impl RpcFrame {
    /// Reads a frame.
    pub fn from_json(j: &Json) -> (r: Option<RpcFrame>)
        ensures
            match r {
                Some(f) => frame_of(j@) == Some(f@),
                None => frame_of(j@) is None,
            },
    {
        let jsonrpc = match j.get_str("jsonrpc") {
            Some(s) => s.to_owned(),
            None => return None,
        };
        let id = match j.get("id") {
            Some(v) => v.as_u64(),
            None => None,
        };
        match (id, j.get_str("method")) {
            (Some(id), Some(method)) => Some(
                RpcFrame::Request {
                    jsonrpc,
                    id,
                    method: method.to_owned(),
                    params: copy_member(j, "params"),
                },
            ),
            (Some(id), None) => {
                let error = match j.get("error") {
                    None => None,
                    Some(Json::Null) => None,
                    Some(v) => match RpcErrorObj::from_json(v) {
                        Some(e) => Some(e),
                        None => return None,
                    },
                };
                let result = match j.get("result") {
                    None => None,
                    Some(Json::Null) => None,
                    Some(v) => Some(v.copy()),
                };
                Some(RpcFrame::Response { jsonrpc, id, result, error })
            },
            (None, Some(method)) => Some(
                RpcFrame::Notification {
                    jsonrpc,
                    method: method.to_owned(),
                    params: copy_member(j, "params"),
                },
            ),
            (None, None) => None,
        }
    }
}

/// The JSON of a request.
pub fn request_json(id: u64, method: &str, params: Json) -> (r: Json)
    ensures
        r@ == request_tree(id, method@, params@),
{
    Json::object().put("jsonrpc", Json::text("2.0")).put("id", Json::Uint(id)).put(
        "method",
        Json::text(method),
    ).put("params", params)
}

/// The member names of frames differ.
proof fn lemma_frame_keys()
    ensures
        "jsonrpc"@ != "id"@,
        "jsonrpc"@ != "method"@,
        "jsonrpc"@ != "params"@,
        "id"@ != "method"@,
        "id"@ != "params"@,
        "method"@ != "params"@,
{
    reveal_strlit("jsonrpc");
    reveal_strlit("id");
    reveal_strlit("method");
    reveal_strlit("params");
    assert("jsonrpc"@.len() == 7 && "id"@.len() == 2);
    assert("method"@.len() == 6 && "params"@.len() == 6);
    assert("method"@[0] != "params"@[0]);
}

/// The receiver of a request's JSON sees a request with the same id, method and
/// parameters: never a response or a notification.
pub proof fn law_request_round_trip(id: u64, method: Seq<char>, params: JsonTree)
    ensures
        frame_of(request_tree(id, method, params)) == Some(
            RpcFrameView::Request { jsonrpc: "2.0"@, id, method, params },
        ),
{
    broadcast use lemma_put_get;

    lemma_frame_keys();
}

/// An outcome means the value that was given, or the error with its words.
pub proof fn law_outcomes_mean_what_they_hold(j: Json, s: String, t: JsonTree)
    ensures
        outcome(Ok(j)) == Ok::<JsonTree, RpcErrorView>(j@),
        outcome(Err(RpcError::Timeout)) == Err::<JsonTree, RpcErrorView>(RpcErrorView::Timeout),
        outcome(Err(RpcError::Closed)) == Err::<JsonTree, RpcErrorView>(RpcErrorView::Closed),
        outcome(Err(RpcError::Sidecar(s))) == Err::<JsonTree, RpcErrorView>(
            RpcErrorView::Sidecar(s@),
        ),
        outcome(Err(RpcError::Io(s))) == Err::<JsonTree, RpcErrorView>(RpcErrorView::Io(s@)),
        opt_tree(Some(j)) == Some(j@),
        opt_tree(None) is None,
{
}

/// An error in words says which of the four it is, and then, where the sidecar or the streams had
/// something to say, that, word for word.
pub proof fn law_errors_say_what_happened(s: Seq<char>)
    ensures
        RpcErrorView::Timeout.text() == "RPC 超时"@,
        RpcErrorView::Closed.text() == "sidecar 已退出"@,
        RpcErrorView::Sidecar(s).text() == "sidecar 错误: "@ + s,
        RpcErrorView::Io(s).text() == "IO 错误: "@ + s,
{
}

/// A value is a frame only where it names its protocol. With an id and a method it is a request,
/// with a method alone a notification, and with an id alone a response; an id is a whole number of
/// 64 bits. What the frame says is what the members hold; parameters that are missing are null.
pub proof fn law_frames_are_told_apart_by_id_and_method(
    t: JsonTree,
    jsonrpc: Seq<char>,
    id: u64,
    method: Seq<char>,
)
    requires
        t.get("jsonrpc"@) == Some(JsonTree::Str(jsonrpc)),
    ensures
        t.get("id"@) == Some(JsonTree::Int(id as int)) && t.get("method"@) == Some(
            JsonTree::Str(method),
        ) ==> frame_of(t) == Some(
            (RpcFrameView::Request {
                jsonrpc,
                id,
                method,
                params: t.get("params"@).unwrap_or(JsonTree::Null),
            }),
        ),
        !(t.get("id"@) matches Some(JsonTree::Int(n)) && 0 <= n <= u64::MAX) && t.get(
            "method"@,
        ) == Some(JsonTree::Str(method)) ==> frame_of(t) == Some(
            (RpcFrameView::Notification {
                jsonrpc,
                method,
                params: t.get("params"@).unwrap_or(JsonTree::Null),
            }),
        ),
        t.get("id"@) == Some(JsonTree::Int(id as int)) && !(t.get("method"@) matches Some(
            JsonTree::Str(_),
        )) ==> {
            let result = match t.get("result"@) {
                Some(JsonTree::Null) => None,
                r => r,
            };
            match t.get("error"@) {
                None => frame_of(t) == Some(
                    (RpcFrameView::Response { jsonrpc, id, result, error: None }),
                ),
                Some(JsonTree::Null) => frame_of(t) == Some(
                    (RpcFrameView::Response { jsonrpc, id, result, error: None }),
                ),
                Some(v) => match error_obj_of(v) {
                    Some(e) => frame_of(t) == Some(
                        (RpcFrameView::Response { jsonrpc, id, result, error: Some(e) }),
                    ),
                    None => frame_of(t) is None,
                },
            }
        },
        !(t.get("id"@) matches Some(JsonTree::Int(n)) && 0 <= n <= u64::MAX) && !(t.get(
            "method"@,
        ) matches Some(JsonTree::Str(_))) ==> frame_of(t) is None,
{
    if frame_id(t) is Some {
        let n = frame_id(t)->0;
        assert(t.get("id"@) == Some(JsonTree::Int(n as int)));
    }
}

/// What does not name its protocol is no frame.
pub proof fn law_frames_name_their_protocol(t: JsonTree)
    ensures
        !(t.get("jsonrpc"@) matches Some(JsonTree::Str(_))) ==> frame_of(t) is None,
{
}

/// An error object is a code, a whole number of 64 bits, and a message, by name or, in an array, in
/// this order; and nothing else is one.
pub proof fn law_error_object_is_code_and_message(t: JsonTree, e: RpcErrorObjView)
    ensures
        t is Obj ==> (error_obj_of(t) == Some(e) <==> t.get("code"@) == Some(
            JsonTree::Int(e.code as int),
        ) && t.get("message"@) == Some(JsonTree::Str(e.message))),
        t matches JsonTree::Arr(a) ==> (error_obj_of(t) == Some(e) <==> a =~= seq![
            JsonTree::Int(e.code as int),
            JsonTree::Str(e.message),
        ]),
        !(t is Obj) && !(t is Arr) ==> error_obj_of(t) is None,
{
    if let JsonTree::Arr(a) = t {
        reveal_strlit("code");
        reveal_strlit("message");
        assert("code"@.len() == 4);
        assert("message"@.len() == 7);
        let names = ERROR_MEMBERS@;
        assert(names.len() == 2);
        assert(names[0]@ == "code"@ && names[1]@ == "message"@);
        if a.len() <= 2 {
            law_record_members_go_by_place(a, names, 0);
            law_record_members_go_by_place(a, names, 1);
        }
        assert(as_record(t, names).get("message"@) is Some ==> a.len() == 2);
        if error_obj_of(t) == Some(e) {
            assert(a =~= seq![JsonTree::Int(e.code as int), JsonTree::Str(e.message)]);
        }
    }
}

/// A request names the protocol, its id and its method, and carries its parameters as they are.
pub proof fn law_request_carries_its_parts(
    id: u64,
    method: Seq<char>,
    params: JsonTree,
    k: Seq<char>,
)
    ensures
        ({
            let t = request_tree(id, method, params);
            &&& t.get("jsonrpc"@) == Some(JsonTree::Str("2.0"@))
            &&& t.get("id"@) == Some(JsonTree::Int(id as int))
            &&& t.get("method"@) == Some(JsonTree::Str(method))
            &&& t.get("params"@) == Some(params)
            &&& t.get(k) is Some ==> k == "jsonrpc"@ || k == "id"@ || k == "method"@ || k
                == "params"@
        }),
{
    broadcast use lemma_put_get;

    lemma_frame_keys();
}

/// A frame says what it holds.
pub proof fn law_frame_says_what_it_holds(
    jsonrpc: String,
    id: u64,
    method: String,
    params: Json,
    error: RpcErrorObj,
)
    ensures
        (RpcFrame::Request { jsonrpc, id, method, params })@ == (RpcFrameView::Request {
            jsonrpc: jsonrpc@,
            id,
            method: method@,
            params: params@,
        }),
        (RpcFrame::Notification { jsonrpc, method, params })@ == (RpcFrameView::Notification {
            jsonrpc: jsonrpc@,
            method: method@,
            params: params@,
        }),
        (RpcFrame::Response { jsonrpc, id, result: Some(params), error: None })@ == (
        RpcFrameView::Response { jsonrpc: jsonrpc@, id, result: Some(params@), error: None }),
        (RpcFrame::Response { jsonrpc, id, result: None, error: Some(error) })@ == (
        RpcFrameView::Response { jsonrpc: jsonrpc@, id, result: None, error: Some(error@) }),
        error@.code == error.code,
        error@.message == error.message@,
{
}

} // verus!
