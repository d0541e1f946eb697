//! What the sidecar's methods take and give.

use vstd::prelude::*;
use crate::json::{as_record, lemma_put_get, record, Json, JsonTree};
use crate::text::opt_text;

pub mod methods;

verus! {

/// The answer to `wx.init` and `wx.get_my_info`.
pub struct InitResult {
    pub licensed: bool,
    pub wxid: String,
    pub nickname: String,
    /// Why the session could not start: `licensed` or `wechat_missing`.
    pub fail_reason: Option<String>,
}

/// The names of an init result's members, in order.
pub const INIT_MEMBERS: [&'static str; 4] = ["licensed", "wxid", "nickname", "failReason"];

/// The names of a raw message's members, in order.
pub const MESSAGE_MEMBERS: [&'static str; 7] = [
    "msg_id",
    "chat_who",
    "chat_type",
    "attr",
    "msg_type",
    "sender",
    "content",
];

/// A message as the sidecar hands it out.
pub struct RawMessage {
    pub msg_id: String,
    /// Who the chat is with.
    pub chat_who: String,
    /// `friend` or `group`.
    pub chat_type: String,
    /// `friend`, `system` or `self`.
    pub attr: String,
    /// `text`, `image`, `voice` and so on.
    pub msg_type: String,
    pub sender: String,
    pub content: String,
}

/// An optional text in JSON: `null` where there is none.
pub open spec fn opt_text_tree(o: Option<Seq<char>>) -> JsonTree {
    match o {
        Some(s) => JsonTree::Str(s),
        None => JsonTree::Null,
    }
}

/// Whether an optional string member can be read: it is missing, `null` or a string.
pub open spec fn opt_text_readable(t: JsonTree, k: Seq<char>) -> bool {
    match t.get(k) {
        None => true,
        Some(JsonTree::Null) => true,
        Some(JsonTree::Str(_)) => true,
        _ => false,
    }
}

impl InitResult {
    /// The value in JSON.
    pub open spec fn tree(&self) -> JsonTree {
        JsonTree::object().put("licensed"@, JsonTree::Bool(self.licensed)).put(
            "wxid"@,
            JsonTree::Str(self.wxid@),
        ).put("nickname"@, JsonTree::Str(self.nickname@)).put(
            "failReason"@,
            opt_text_tree(opt_text(self.fail_reason)),
        )
    }

    /// Whether a JSON value holds an init result: the three members that are always
    /// there, and a reason that is missing, `null` or a string.
    pub open spec fn readable(t: JsonTree) -> bool {
        &&& t.get_bool("licensed"@) is Some
        &&& t.get_str("wxid"@) is Some
        &&& t.get_str("nickname"@) is Some
        &&& opt_text_readable(t, "failReason"@)
    }

    /// Writes the value as JSON.
    pub fn to_json(&self) -> (r: Json)
        ensures
            r@ == self.tree(),
    {
        let reason = match &self.fail_reason {
            Some(s) => Json::text(s.as_str()),
            None => Json::Null,
        };
        Json::object().put("licensed", Json::Bool(self.licensed)).put(
            "wxid",
            Json::text(self.wxid.as_str()),
        ).put("nickname", Json::text(self.nickname.as_str())).put("failReason", reason)
    }

    /// Reads the value from JSON.
    pub fn from_json(j: &Json) -> (r: Option<InitResult>)
        ensures
            r is Some <==> InitResult::readable(as_record(j@, INIT_MEMBERS@)),
            r matches Some(x) ==> {
                let t = as_record(j@, INIT_MEMBERS@);
                &&& t.get_bool("licensed"@) == Some(x.licensed)
                &&& t.get_str("wxid"@) == Some(x.wxid@)
                &&& t.get_str("nickname"@) == Some(x.nickname@)
                &&& opt_text(x.fail_reason) == t.get_str("failReason"@)
            },
    {
        let j = record(j, &INIT_MEMBERS);
        let licensed = match j.get_bool("licensed") {
            Some(b) => b,
            None => return None,
        };
        let wxid = match j.get_str("wxid") {
            Some(s) => s.to_owned(),
            None => return None,
        };
        let nickname = match j.get_str("nickname") {
            Some(s) => s.to_owned(),
            None => return None,
        };
        let fail_reason = match j.get("failReason") {
            None => None,
            Some(Json::Null) => None,
            Some(Json::Str(s)) => Some(s.clone()),
            Some(_) => return None,
        };
        Some(InitResult { licensed, wxid, nickname, fail_reason })
    }
}

impl RawMessage {
    /// The value in JSON.
    pub open spec fn tree(&self) -> JsonTree {
        JsonTree::object().put("msg_id"@, JsonTree::Str(self.msg_id@)).put(
            "chat_who"@,
            JsonTree::Str(self.chat_who@),
        ).put("chat_type"@, JsonTree::Str(self.chat_type@)).put(
            "attr"@,
            JsonTree::Str(self.attr@),
        ).put("msg_type"@, JsonTree::Str(self.msg_type@)).put(
            "sender"@,
            JsonTree::Str(self.sender@),
        ).put("content"@, JsonTree::Str(self.content@))
    }

    /// Whether a JSON value holds a raw message: all seven members are strings.
    pub open spec fn readable(t: JsonTree) -> bool {
        &&& t.get_str("msg_id"@) is Some
        &&& t.get_str("chat_who"@) is Some
        &&& t.get_str("chat_type"@) is Some
        &&& t.get_str("attr"@) is Some
        &&& t.get_str("msg_type"@) is Some
        &&& t.get_str("sender"@) is Some
        &&& t.get_str("content"@) is Some
    }

    /// Whether the message is the one that a JSON value holds.
    pub open spec fn read_from(&self, t: JsonTree) -> bool {
        &&& t.get_str("msg_id"@) == Some(self.msg_id@)
        &&& t.get_str("chat_who"@) == Some(self.chat_who@)
        &&& t.get_str("chat_type"@) == Some(self.chat_type@)
        &&& t.get_str("attr"@) == Some(self.attr@)
        &&& t.get_str("msg_type"@) == Some(self.msg_type@)
        &&& t.get_str("sender"@) == Some(self.sender@)
        &&& t.get_str("content"@) == Some(self.content@)
    }

    /// Writes the message as JSON.
    pub fn to_json(&self) -> (r: Json)
        ensures
            r@ == self.tree(),
    {
        Json::object().put("msg_id", Json::text(self.msg_id.as_str())).put(
            "chat_who",
            Json::text(self.chat_who.as_str()),
        ).put("chat_type", Json::text(self.chat_type.as_str())).put(
            "attr",
            Json::text(self.attr.as_str()),
        ).put("msg_type", Json::text(self.msg_type.as_str())).put(
            "sender",
            Json::text(self.sender.as_str()),
        ).put("content", Json::text(self.content.as_str()))
    }

    /// Reads a message from JSON.
    pub fn from_json(j: &Json) -> (r: Option<RawMessage>)
        ensures
            r is Some <==> RawMessage::readable(as_record(j@, MESSAGE_MEMBERS@)),
            r matches Some(m) ==> m.read_from(as_record(j@, MESSAGE_MEMBERS@)),
    {
        let j = record(j, &MESSAGE_MEMBERS);
        match (
            j.get_str("msg_id"),
            j.get_str("chat_who"),
            j.get_str("chat_type"),
            j.get_str("attr"),
            j.get_str("msg_type"),
            j.get_str("sender"),
            j.get_str("content"),
        ) {
            (
                Some(msg_id),
                Some(chat_who),
                Some(chat_type),
                Some(attr),
                Some(msg_type),
                Some(sender),
                Some(content),
            ) => Some(
                RawMessage {
                    msg_id: msg_id.to_owned(),
                    chat_who: chat_who.to_owned(),
                    chat_type: chat_type.to_owned(),
                    attr: attr.to_owned(),
                    msg_type: msg_type.to_owned(),
                    sender: sender.to_owned(),
                    content: content.to_owned(),
                },
            ),
            _ => None,
        }
    }
}

/// What is written for a raw message is read back as the same message.
pub proof fn law_raw_message_round_trip(m: RawMessage)
    ensures
        as_record(m.tree(), MESSAGE_MEMBERS@) == m.tree(),
        RawMessage::readable(m.tree()),
        m.read_from(m.tree()),
{
    broadcast use lemma_put_get;

    lemma_raw_message_keys();
}

/// What is written for an init result is read back as the same result.
pub proof fn law_init_result_round_trip(x: InitResult)
    ensures
        as_record(x.tree(), INIT_MEMBERS@) == x.tree(),
        InitResult::readable(x.tree()),
        x.tree().get_bool("licensed"@) == Some(x.licensed),
        x.tree().get_str("wxid"@) == Some(x.wxid@),
        x.tree().get_str("nickname"@) == Some(x.nickname@),
        x.tree().get_str("failReason"@) == opt_text(x.fail_reason),
{
    broadcast use lemma_put_get;

    reveal_strlit("licensed");
    reveal_strlit("wxid");
    reveal_strlit("nickname");
    reveal_strlit("failReason");
    assert("licensed"@.len() == 8 && "wxid"@.len() == 4);
    assert("nickname"@.len() == 8 && "failReason"@.len() == 10);
    assert("licensed"@[0] != "nickname"@[0]);
}

/// The member names of a raw message differ.
proof fn lemma_raw_message_keys()
    ensures
        "msg_id"@ != "chat_who"@,
        "msg_id"@ != "chat_type"@,
        "msg_id"@ != "attr"@,
        "msg_id"@ != "msg_type"@,
        "msg_id"@ != "sender"@,
        "msg_id"@ != "content"@,
        "chat_who"@ != "chat_type"@,
        "chat_who"@ != "attr"@,
        "chat_who"@ != "msg_type"@,
        "chat_who"@ != "sender"@,
        "chat_who"@ != "content"@,
        "chat_type"@ != "attr"@,
        "chat_type"@ != "msg_type"@,
        "chat_type"@ != "sender"@,
        "chat_type"@ != "content"@,
        "attr"@ != "msg_type"@,
        "attr"@ != "sender"@,
        "attr"@ != "content"@,
        "msg_type"@ != "sender"@,
        "msg_type"@ != "content"@,
        "sender"@ != "content"@,
{
    reveal_strlit("msg_id");
    reveal_strlit("chat_who");
    reveal_strlit("chat_type");
    reveal_strlit("attr");
    reveal_strlit("msg_type");
    reveal_strlit("sender");
    reveal_strlit("content");
    assert("msg_id"@.len() == 6 && "chat_who"@.len() == 8 && "chat_type"@.len() == 9);
    assert("attr"@.len() == 4 && "msg_type"@.len() == 8);
    assert("sender"@.len() == 6 && "content"@.len() == 7);
    assert("msg_id"@[0] != "sender"@[0]);
    assert("chat_who"@[0] != "msg_type"@[0]);
}

/// A raw message is written with each of its seven texts under the name of its own, and read from
/// there.
pub proof fn law_raw_message_members(m: RawMessage, t: JsonTree, k: Seq<char>)
    ensures
        m.tree().get("msg_id"@) == Some(JsonTree::Str(m.msg_id@)),
        m.tree().get("chat_who"@) == Some(JsonTree::Str(m.chat_who@)),
        m.tree().get("chat_type"@) == Some(JsonTree::Str(m.chat_type@)),
        m.tree().get("attr"@) == Some(JsonTree::Str(m.attr@)),
        m.tree().get("msg_type"@) == Some(JsonTree::Str(m.msg_type@)),
        m.tree().get("sender"@) == Some(JsonTree::Str(m.sender@)),
        m.tree().get("content"@) == Some(JsonTree::Str(m.content@)),
        m.tree().get(k) is Some ==> k == "msg_id"@ || k == "chat_who"@ || k == "chat_type"@ || k
            == "attr"@ || k == "msg_type"@ || k == "sender"@ || k == "content"@,
        m.read_from(t) <==> {
            &&& t.get("msg_id"@) == Some(JsonTree::Str(m.msg_id@))
            &&& t.get("chat_who"@) == Some(JsonTree::Str(m.chat_who@))
            &&& t.get("chat_type"@) == Some(JsonTree::Str(m.chat_type@))
            &&& t.get("attr"@) == Some(JsonTree::Str(m.attr@))
            &&& t.get("msg_type"@) == Some(JsonTree::Str(m.msg_type@))
            &&& t.get("sender"@) == Some(JsonTree::Str(m.sender@))
            &&& t.get("content"@) == Some(JsonTree::Str(m.content@))
        },
        RawMessage::readable(t) <==> {
            &&& t.get("msg_id"@) matches Some(JsonTree::Str(_))
            &&& t.get("chat_who"@) matches Some(JsonTree::Str(_))
            &&& t.get("chat_type"@) matches Some(JsonTree::Str(_))
            &&& t.get("attr"@) matches Some(JsonTree::Str(_))
            &&& t.get("msg_type"@) matches Some(JsonTree::Str(_))
            &&& t.get("sender"@) matches Some(JsonTree::Str(_))
            &&& t.get("content"@) matches Some(JsonTree::Str(_))
        },
{
    broadcast use lemma_put_get;

    lemma_raw_message_keys();
}

/// An init result is written with each member under the name of its own, the reason as null where
/// there is none, and can be read where the three members that must be there are.
pub proof fn law_init_result_members(x: InitResult, t: JsonTree, k: Seq<char>)
    ensures
        x.tree().get("licensed"@) == Some(JsonTree::Bool(x.licensed)),
        x.tree().get("wxid"@) == Some(JsonTree::Str(x.wxid@)),
        x.tree().get("nickname"@) == Some(JsonTree::Str(x.nickname@)),
        match x.fail_reason {
            Some(r) => x.tree().get("failReason"@) == Some(JsonTree::Str(r@)),
            None => x.tree().get("failReason"@) == Some(JsonTree::Null),
        },
        x.tree().get(k) is Some ==> k == "licensed"@ || k == "wxid"@ || k == "nickname"@ || k
            == "failReason"@,
        InitResult::readable(t) <==> {
            &&& t.get("licensed"@) matches Some(JsonTree::Bool(_))
            &&& t.get("wxid"@) matches Some(JsonTree::Str(_))
            &&& t.get("nickname"@) matches Some(JsonTree::Str(_))
            &&& t.get("failReason"@) is None || t.get("failReason"@) == Some(JsonTree::Null) || (
            t.get("failReason"@) matches Some(JsonTree::Str(_)))
        },
{
    broadcast use lemma_put_get;

    reveal_strlit("licensed");
    reveal_strlit("wxid");
    reveal_strlit("nickname");
    reveal_strlit("failReason");
    assert("licensed"@.len() == 8);
    assert("wxid"@.len() == 4);
    assert("nickname"@.len() == 8);
    assert("failReason"@.len() == 10);
    assert("licensed"@[0] != "nickname"@[0]);
}

/// The places of the members, for a value that gives them without their names.
pub proof fn law_members_have_their_places()
    ensures
        INIT_MEMBERS@.len() == 4,
        INIT_MEMBERS@[0]@ == "licensed"@,
        INIT_MEMBERS@[1]@ == "wxid"@,
        INIT_MEMBERS@[2]@ == "nickname"@,
        INIT_MEMBERS@[3]@ == "failReason"@,
        MESSAGE_MEMBERS@.len() == 7,
        MESSAGE_MEMBERS@[0]@ == "msg_id"@,
        MESSAGE_MEMBERS@[1]@ == "chat_who"@,
        MESSAGE_MEMBERS@[2]@ == "chat_type"@,
        MESSAGE_MEMBERS@[3]@ == "attr"@,
        MESSAGE_MEMBERS@[4]@ == "msg_type"@,
        MESSAGE_MEMBERS@[5]@ == "sender"@,
        MESSAGE_MEMBERS@[6]@ == "content"@,
{
}

} // verus!
