//! The events that go up to the server.
//!
//! The sidecar names its fields in snake case, the server's frames are in camel case.

use vstd::prelude::*;
use vstd::string::*;
use crate::json::{lemma_put_get, Json, JsonTree};
use crate::text::{
    decimal, decimal_text, is_digit, join2, join3, lemma_decimal_digits, lemma_decimal_injective,
    lemma_decimal_less, lemma_decimal_width_u64, lemma_number_of_decimal, lemma_padded,
    lemma_padded_less, lemma_split_first, lemma_split_one, lemma_text_less_extend,
    lemma_text_less_prefix, lemma_text_less_total, number_of, padded, padded_text, same_text,
    split, text_less,
};
use crate::ui_log;

verus! {

/// The number of the next event of this process.
pub struct EventIds {
    next: u64,
}

/// How many digits the number in an id has: enough for every number.
pub const SEQ_DIGITS: usize = 20;

/// The id of an event: its time and its number, with zeros in front, so that ids ascend as
/// texts.
pub open spec fn event_id_text(ms: nat, seq: nat) -> Seq<char> {
    "evt-"@ + decimal(ms) + "-"@ + padded(seq, SEQ_DIGITS as nat)
}

/// The number after another; the counter goes round.
pub open spec fn seq_after(seq: u64) -> u64 {
    if seq == u64::MAX {
        0
    } else {
        (seq + 1) as u64
    }
}

impl EventIds {
    /// The number of the next event.
    pub closed spec fn view(&self) -> u64 {
        self.next
    }

    /// The first event has number 0.
    pub fn new() -> (r: EventIds)
        ensures
            r.view() == 0,
    {
        EventIds { next: 0 }
    }

    /// The id of the next event, at a given time.
    pub fn take(&mut self, ms: u64) -> (r: String)
        ensures
            r@ == event_id_text(ms as nat, old(self).view() as nat),
            final(self).view() == seq_after(old(self).view()),
    {
        let seq = self.next;
        if seq == u64::MAX {
            self.next = 0;
        } else {
            self.next = seq + 1;
        }
        join2(
            join3("evt-", decimal_text(ms).as_str(), "-").as_str(),
            padded_text(seq, SEQ_DIGITS).as_str(),
        )
    }
}

/// The id of the next event. Its time is the clock's, of which nothing can be said.
pub fn next_event_id(ids: &mut EventIds) -> (r: String)
    ensures
        exists|ms: u64| r@ == #[trigger] event_id_text(ms as nat, old(ids).view() as nat),
        final(ids).view() == seq_after(old(ids).view()),
{
    let ms = now_ms();
    let r = ids.take(ms);
    assert(r@ == event_id_text(ms as nat, old(ids).view() as nat));
    r
}

/// The time, in milliseconds since the epoch.
pub fn now_ms() -> (r: u64)
    ensures
        exists|reading: Option<u128>| #[trigger] ui_log::reading_ms(reading) == r,
{
    ui_log::now_ms()
}

/// A text, or another where there is none.
pub open spec fn text_or(o: Option<Seq<char>>, otherwise: Seq<char>) -> Seq<char> {
    match o {
        Some(s) => s,
        None => otherwise,
    }
}

/// An event's frame.
pub open spec fn event_tree(
    kind: Seq<char>,
    data: JsonTree,
    event_id: Seq<char>,
    ts: u64,
) -> JsonTree {
    JsonTree::object().put("kind"@, JsonTree::Str("event"@)).put("type"@, JsonTree::Str(kind)).put(
        "data"@,
        data,
    ).put("eventId"@, JsonTree::Str(event_id)).put("ts"@, JsonTree::Int(ts as int))
}

/// The data of a message event, for a notification and what became of its picture or its
/// voice: the transcript takes the place of the content.
pub open spec fn message_data(
    n: JsonTree,
    downloaded: Option<Seq<char>>,
    voice: Option<Seq<char>>,
) -> JsonTree {
    JsonTree::object().put(
        "chatName"@,
        JsonTree::Str(text_or(n.get_str("chat_who"@), ""@)),
    ).put(
        "chatType"@,
        JsonTree::Str(
            if n.get_str("chat_type"@) == Some("group"@) {
                "group"@
            } else {
                "friend"@
            },
        ),
    ).put("attr"@, JsonTree::Str(text_or(n.get_str("attr"@), "friend"@))).put(
        "msgType"@,
        JsonTree::Str(text_or(n.get_str("msg_type"@), "text"@)),
    ).put("sender"@, JsonTree::Str(text_or(n.get_str("sender"@), ""@))).put(
        "content"@,
        JsonTree::Str(
            match voice {
                Some(v) => v,
                None => text_or(n.get_str("content"@), ""@),
            },
        ),
    ).put(
        "isAt"@,
        JsonTree::Bool(n.get_bool("is_at"@) == Some(true)),
    ).put("downloadedMedia"@, JsonTree::Str(text_or(downloaded, ""@)))
}

/// The data of a friend request.
pub open spec fn friend_request_data(name: Seq<char>, msg: Seq<char>) -> JsonTree {
    JsonTree::object().put("name"@, JsonTree::Str(name)).put("msg"@, JsonTree::Str(msg))
}

/// The data of a status event.
pub open spec fn status_data(
    wx_online: bool,
    wx_state: Seq<char>,
    listeners: nat,
    sidecar_alive: bool,
) -> JsonTree {
    JsonTree::object().put("wxOnline"@, JsonTree::Bool(wx_online)).put(
        "wxState"@,
        JsonTree::Str(wx_state),
    ).put("listeners"@, JsonTree::Int(listeners as int)).put(
        "sidecarAlive"@,
        JsonTree::Bool(sidecar_alive),
    )
}

/// Whether a frame is an event that was made next: its id has the next number, and its id
/// and its time are some readings of the clock.
pub open spec fn fresh_event(t: JsonTree, kind: Seq<char>, data: JsonTree, seq: u64) -> bool {
    exists|ms: u64, ts: u64|
        t == #[trigger] event_tree(kind, data, event_id_text(ms as nat, seq as nat), ts)
}

/// An optional text, as its characters.
pub open spec fn opt_str(o: Option<&str>) -> Option<Seq<char>> {
    match o {
        Some(s) => Some(s@),
        None => None,
    }
}

/// A string member, or another text where there is none.
fn member_text(n: &Json, key: &str, otherwise: &str) -> (r: Json)
    ensures
        r@ == JsonTree::Str(text_or(n@.get_str(key@), otherwise@)),
{
    match n.get_str(key) {
        Some(s) => Json::text(s),
        None => Json::text(otherwise),
    }
}

/// An event's frame, for a given id and time.
pub fn event_frame(kind: &str, data: Json, event_id: &str, ts: u64) -> (r: Json)
    ensures
        r@ == event_tree(kind@, data@, event_id@, ts),
{
    Json::object().put("kind", Json::text("event")).put("type", Json::text(kind)).put(
        "data",
        data,
    ).put("eventId", Json::text(event_id)).put("ts", Json::Uint(ts))
}

/// The data of a message event.
pub fn message_event_data(
    n: &Json,
    downloaded_media: Option<&str>,
    voice_text: Option<&str>,
) -> (r: Json)
    ensures
        r@ == message_data(n@, opt_str(downloaded_media), opt_str(voice_text)),
{
    let content = match voice_text {
        Some(t) => Json::text(t),
        None => member_text(n, "content", ""),
    };
    let group = match n.get_str("chat_type") {
        Some(s) => same_text(s, "group"),
        None => false,
    };
    let chat_type = if group {
        "group"
    } else {
        "friend"
    };
    let is_at = match n.get_bool("is_at") {
        Some(b) => b,
        None => false,
    };
    let media = match downloaded_media {
        Some(s) => Json::text(s),
        None => Json::text(""),
    };
    Json::object().put("chatName", member_text(n, "chat_who", "")).put(
        "chatType",
        Json::text(chat_type),
    ).put("attr", member_text(n, "attr", "friend")).put(
        "msgType",
        member_text(n, "msg_type", "text"),
    ).put("sender", member_text(n, "sender", "")).put("content", content).put(
        "isAt",
        Json::Bool(is_at),
    ).put("downloadedMedia", media)
}

/// An event of given data with the next id, at the time of the clock.
fn stamp(kind: &str, data: Json, ids: &mut EventIds) -> (r: Json)
    ensures
        fresh_event(r@, kind@, data@, old(ids).view()),
        final(ids).view() == seq_after(old(ids).view()),
{
    let ms = now_ms();
    let id = ids.take(ms);
    let ts = now_ms();
    let r = event_frame(kind, data, id.as_str(), ts);
    assert(r@ == event_tree(kind@, data@, event_id_text(ms as nat, old(ids).view() as nat), ts));
    r
}

/// The message event for a notification. Where the picture could not be downloaded or the
/// voice not be transcribed, the event goes up without.
pub fn message_event_from_notification(
    n: &Json,
    downloaded_media: Option<&str>,
    voice_text: Option<&str>,
    ids: &mut EventIds,
) -> (r: Json)
    ensures
        fresh_event(
            r@,
            "message"@,
            message_data(n@, opt_str(downloaded_media), opt_str(voice_text)),
            old(ids).view(),
        ),
        final(ids).view() == seq_after(old(ids).view()),
{
    stamp("message", message_event_data(n, downloaded_media, voice_text), ids)
}

/// The event for a new friend request.
pub fn friend_request_event(name: &str, msg: &str, ids: &mut EventIds) -> (r: Json)
    ensures
        fresh_event(r@, "friend_request"@, friend_request_data(name@, msg@), old(ids).view()),
        final(ids).view() == seq_after(old(ids).view()),
{
    let data = Json::object().put("name", Json::text(name)).put("msg", Json::text(msg));
    stamp("friend_request", data, ids)
}

/// The event for a change of status.
pub fn status_event(
    wx_online: bool,
    wx_state: &str,
    listeners: usize,
    sidecar_alive: bool,
    ids: &mut EventIds,
) -> (r: Json)
    ensures
        fresh_event(
            r@,
            "status"@,
            status_data(wx_online, wx_state@, listeners as nat, sidecar_alive),
            old(ids).view(),
        ),
        final(ids).view() == seq_after(old(ids).view()),
{
    let data = Json::object().put("wxOnline", Json::Bool(wx_online)).put(
        "wxState",
        Json::text(wx_state),
    ).put("listeners", Json::Uint(listeners as u64)).put("sidecarAlive", Json::Bool(sidecar_alive));
    stamp("status", data, ids)
}

/// The text of an id up to its last hyphen and behind it.
proof fn lemma_event_id_parts(ms: nat, seq: nat)
    ensures
        forall|i: int|
            0 <= i < decimal(ms).len() ==> event_id_text(ms, seq)[4 + i] == #[trigger] decimal(
                ms,
            )[i],
        event_id_text(ms, seq)[4 + decimal(ms).len() as int] == '-',
        event_id_text(ms, seq).subrange(4, 4 + decimal(ms).len() as int) == decimal(ms),
        event_id_text(ms, seq).skip(5 + decimal(ms).len() as int) == padded(
            seq,
            SEQ_DIGITS as nat,
        ),
        event_id_text(ms, seq).len() >= 5 + decimal(ms).len(),
{
    reveal_strlit("evt-");
    reveal_strlit("-");
    let t = event_id_text(ms, seq);
    assert(t.subrange(4, 4 + decimal(ms).len() as int) =~= decimal(ms));
    assert(t.skip(5 + decimal(ms).len() as int) =~= padded(seq, SEQ_DIGITS as nat));
}

/// A greater number has a text that comes later.
proof fn lemma_numbers_ascend(a: u64, b: u64)
    requires
        a < b,
    ensures
        text_less(padded(a as nat, SEQ_DIGITS as nat), padded(b as nat, SEQ_DIGITS as nat)),
{
    lemma_decimal_width_u64(a);
    lemma_decimal_width_u64(b);
    lemma_padded_less(a as nat, b as nat, SEQ_DIGITS as nat);
}

/// Different events have different ids: an id determines its time and its number.
pub proof fn law_event_ids_differ(ms1: nat, seq1: u64, ms2: nat, seq2: u64)
    ensures
        event_id_text(ms1, seq1 as nat) == event_id_text(ms2, seq2 as nat) ==> ms1 == ms2 && seq1
            == seq2,
{
    if event_id_text(ms1, seq1 as nat) == event_id_text(ms2, seq2 as nat) {
        lemma_event_id_parts(ms1, seq1 as nat);
        lemma_event_id_parts(ms2, seq2 as nat);
        lemma_decimal_digits(ms1);
        lemma_decimal_digits(ms2);
        let a = decimal(ms1).len() as int;
        let b = decimal(ms2).len() as int;
        if a < b {
            assert(decimal(ms2)[a] != '-');
        } else if b < a {
            assert(decimal(ms1)[b] != '-');
        }
        lemma_decimal_injective(ms1, ms2);
        let p = padded(seq1 as nat, SEQ_DIGITS as nat);
        let q = padded(seq2 as nat, SEQ_DIGITS as nat);
        assert(p == q);
        lemma_text_less_total(p, q);
        if seq1 < seq2 {
            lemma_numbers_ascend(seq1, seq2);
        } else if seq2 < seq1 {
            lemma_numbers_ascend(seq2, seq1);
        }
    }
}

/// An id splits at its hyphens into exactly three parts: the word `evt`, the digits of the
/// time, and those of the number, zeros in front.
pub proof fn law_event_id_has_three_parts(ms: u64, seq: u64)
    ensures
        ({
            let parts = split(event_id_text(ms as nat, seq as nat), '-');
            &&& parts.len() == 3
            &&& parts[0] == "evt"@
            &&& number_of(parts[1]) == ms
            &&& number_of(parts[2]) == seq
            &&& parts[1].len() > 0 && parts[2].len() == SEQ_DIGITS
            &&& forall|i: int| 0 <= i < parts[1].len() ==> is_digit(#[trigger] parts[1][i])
            &&& forall|i: int| 0 <= i < parts[2].len() ==> is_digit(#[trigger] parts[2][i])
        }),
{
    let m = decimal(ms as nat);
    let n = padded(seq as nat, SEQ_DIGITS as nat);
    reveal_strlit("evt");
    reveal_strlit("evt-");
    reveal_strlit("-");
    lemma_decimal_digits(ms as nat);
    lemma_number_of_decimal(ms as nat);
    lemma_decimal_width_u64(seq);
    lemma_padded(seq as nat, SEQ_DIGITS as nat);
    assert(!m.contains('-'));
    assert(!n.contains('-')) by {
        if n.contains('-') {
            let i = choose|i: int| 0 <= i < n.len() && n[i] == '-';
            assert(is_digit(n[i]));
        }
    }
    assert(!"evt"@.contains('-'));
    let id = event_id_text(ms as nat, seq as nat);
    assert(id =~= "evt"@ + seq!['-'] + (m + seq!['-'] + n));
    lemma_split_first("evt"@, '-', m + seq!['-'] + n);
    lemma_split_first(m, '-', n);
    lemma_split_one(n, '-');
    assert(split(id, '-') =~= seq!["evt"@, m, n]);
}

/// The number of the `k`-th event after one with number `start`.
pub open spec fn nth_seq(start: u64, k: nat) -> u64
    decreases k,
{
    if k == 0 {
        start
    } else {
        seq_after(nth_seq(start, (k - 1) as nat))
    }
}

/// Numbers are counted on, and go round.
proof fn lemma_nth_seq(start: u64, k: nat)
    ensures
        nth_seq(start, k) == (start + k) % 0x1_0000_0000_0000_0000,
    decreases k,
{
    if k > 0 {
        lemma_nth_seq(start, (k - 1) as nat);
    }
}

/// Any two events of a process have different ids, at whatever times they are made, unless
/// all numbers have been given out between them.
pub proof fn law_calls_give_different_ids(start: u64, i: nat, j: nat, ms1: nat, ms2: nat)
    requires
        i < j,
        j - i < 0x1_0000_0000_0000_0000,
    ensures
        event_id_text(ms1, nth_seq(start, i) as nat) != event_id_text(
            ms2,
            nth_seq(start, j) as nat,
        ),
{
    lemma_nth_seq(start, i);
    lemma_nth_seq(start, j);
    law_event_ids_differ(ms1, nth_seq(start, i), ms2, nth_seq(start, j));
}

/// Of two events of the same millisecond, the one with the greater number has the id that is
/// greater as a text.
pub proof fn law_event_ids_ascend_within_a_millisecond(ms: nat, seq1: u64, seq2: u64)
    requires
        seq1 < seq2,
    ensures
        text_less(event_id_text(ms, seq1 as nat), event_id_text(ms, seq2 as nat)),
{
    lemma_numbers_ascend(seq1, seq2);
    lemma_text_less_prefix(
        "evt-"@ + decimal(ms) + "-"@,
        padded(seq1 as nat, SEQ_DIGITS as nat),
        padded(seq2 as nat, SEQ_DIGITS as nat),
    );
}

/// A later event has an id that is greater as a text: of the same millisecond, the one with
/// the greater number; of different milliseconds, whatever the numbers, the later one, as
/// long as the times have as many digits, which they have from 2001 to 2286.
pub proof fn law_event_ids_ascend(ms1: nat, seq1: u64, ms2: nat, seq2: u64)
    requires
        ms1 < ms2 || (ms1 == ms2 && seq1 < seq2),
        decimal(ms1).len() == decimal(ms2).len(),
    ensures
        text_less(event_id_text(ms1, seq1 as nat), event_id_text(ms2, seq2 as nat)),
{
    if ms1 == ms2 {
        law_event_ids_ascend_within_a_millisecond(ms1, seq1, seq2);
    } else {
        let p = "-"@ + padded(seq1 as nat, SEQ_DIGITS as nat);
        let q = "-"@ + padded(seq2 as nat, SEQ_DIGITS as nat);
        lemma_decimal_less(ms1, ms2);
        lemma_text_less_extend(decimal(ms1), p, decimal(ms2), q);
        lemma_text_less_prefix("evt-"@, decimal(ms1) + p, decimal(ms2) + q);
        assert(event_id_text(ms1, seq1 as nat) =~= "evt-"@ + (decimal(ms1) + p));
        assert(event_id_text(ms2, seq2 as nat) =~= "evt-"@ + (decimal(ms2) + q));
    }
}

/// An event's frame says that it is an event, of which kind, with which data, under which id
/// and of which time, and nothing else.
pub proof fn law_event_frame_carries_its_parts(
    kind: Seq<char>,
    data: JsonTree,
    event_id: Seq<char>,
    ts: u64,
    k: Seq<char>,
)
    ensures
        ({
            let f = event_tree(kind, data, event_id, ts);
            &&& f.get("kind"@) == Some(JsonTree::Str("event"@))
            &&& f.get("type"@) == Some(JsonTree::Str(kind))
            &&& f.get("data"@) == Some(data)
            &&& f.get("eventId"@) == Some(JsonTree::Str(event_id))
            &&& f.get("ts"@) == Some(JsonTree::Int(ts as int))
            &&& f.get(k) is Some ==> k == "kind"@ || k == "type"@ || k == "data"@ || k == "eventId"@
                || k == "ts"@
        }),
{
    broadcast use lemma_put_get;

    reveal_strlit("kind");
    reveal_strlit("type");
    reveal_strlit("data");
    reveal_strlit("eventId");
    reveal_strlit("ts");
    assert("kind"@.len() == 4);
    assert("type"@.len() == 4);
    assert("data"@.len() == 4);
    assert("eventId"@.len() == 7);
    assert("ts"@.len() == 2);
    assert("kind"@[0] != "type"@[0]);
    assert("kind"@[0] != "data"@[0]);
    assert("type"@[0] != "data"@[0]);
}

/// An event that goes up carries the data it was made for, under an id with the number that was
/// next.
pub proof fn law_fresh_event_carries_its_data(
    t: JsonTree,
    kind: Seq<char>,
    data: JsonTree,
    seq: u64,
)
    requires
        fresh_event(t, kind, data, seq),
    ensures
        t.get("kind"@) == Some(JsonTree::Str("event"@)),
        t.get("type"@) == Some(JsonTree::Str(kind)),
        t.get("data"@) == Some(data),
        exists|ms: u64|
            t.get("eventId"@) == Some(
                JsonTree::Str(#[trigger] event_id_text(ms as nat, seq as nat)),
            ),
        t.get("ts"@) matches Some(JsonTree::Int(ts)) && 0 <= ts <= u64::MAX,
{
    let (ms, ts) = choose|ms: u64, ts: u64|
        t == #[trigger] event_tree(kind, data, event_id_text(ms as nat, seq as nat), ts);
    law_event_frame_carries_its_parts(
        kind,
        data,
        event_id_text(ms as nat, seq as nat),
        ts,
        "kind"@,
    );
}

/// A message goes up as the sidecar has told it: each text of the notification is found in the
/// event, and a default stands only where the notification has no text. The transcript of a
/// voice takes the place of the content, and the path of a picture is added.
pub proof fn law_message_is_reported_as_it_came(
    n: JsonTree,
    downloaded: Option<Seq<char>>,
    voice: Option<Seq<char>>,
    k: Seq<char>,
)
    ensures
        ({
            let d = message_data(n, downloaded, voice);
            &&& match n.get("chat_who"@) {
                Some(JsonTree::Str(s)) => d.get("chatName"@) == Some(JsonTree::Str(s)),
                _ => d.get("chatName"@) == Some(JsonTree::Str(""@)),
            }
            &&& match n.get("attr"@) {
                Some(JsonTree::Str(s)) => d.get("attr"@) == Some(JsonTree::Str(s)),
                _ => d.get("attr"@) == Some(JsonTree::Str("friend"@)),
            }
            &&& match n.get("msg_type"@) {
                Some(JsonTree::Str(s)) => d.get("msgType"@) == Some(JsonTree::Str(s)),
                _ => d.get("msgType"@) == Some(JsonTree::Str("text"@)),
            }
            &&& match n.get("sender"@) {
                Some(JsonTree::Str(s)) => d.get("sender"@) == Some(JsonTree::Str(s)),
                _ => d.get("sender"@) == Some(JsonTree::Str(""@)),
            }
            &&& voice matches Some(s) ==> d.get("content"@) == Some(JsonTree::Str(s))
            &&& voice is None ==> match n.get("content"@) {
                Some(JsonTree::Str(s)) => d.get("content"@) == Some(JsonTree::Str(s)),
                _ => d.get("content"@) == Some(JsonTree::Str(""@)),
            }
            &&& n.get("chat_type"@) == Some(JsonTree::Str("group"@)) ==> d.get("chatType"@) == Some(
                JsonTree::Str("group"@),
            )
            &&& n.get("chat_type"@) != Some(JsonTree::Str("group"@)) ==> d.get("chatType"@) == Some(
                JsonTree::Str("friend"@),
            )
            &&& d.get("isAt"@) == Some(
                JsonTree::Bool(n.get("is_at"@) == Some(JsonTree::Bool(true))),
            )
            &&& downloaded matches Some(s) ==> d.get("downloadedMedia"@) == Some(JsonTree::Str(s))
            &&& downloaded is None ==> d.get("downloadedMedia"@) == Some(JsonTree::Str(""@))
            &&& d.get(k) is Some ==> k == "chatName"@ || k == "chatType"@ || k == "attr"@ || k
                == "msgType"@ || k == "sender"@ || k == "content"@ || k == "isAt"@ || k
                == "downloadedMedia"@
        }),
{
    broadcast use lemma_put_get;

    reveal_strlit("chatName");
    reveal_strlit("chatType");
    reveal_strlit("attr");
    reveal_strlit("msgType");
    reveal_strlit("sender");
    reveal_strlit("content");
    reveal_strlit("isAt");
    reveal_strlit("downloadedMedia");
    assert("chatName"@.len() == 8);
    assert("chatType"@.len() == 8);
    assert("attr"@.len() == 4);
    assert("msgType"@.len() == 7);
    assert("sender"@.len() == 6);
    assert("content"@.len() == 7);
    assert("isAt"@.len() == 4);
    assert("downloadedMedia"@.len() == 15);
    assert("chatName"@[4] != "chatType"@[4]);
    assert("msgType"@[0] != "content"@[0]);
    assert("attr"@[0] != "isAt"@[0]);
}

/// Two notifications that differ in a text that goes up give different events.
pub proof fn law_different_messages_are_told_apart(m: JsonTree, n: JsonTree, a: Seq<char>, b: Seq<char>)
    requires
        a != b,
    ensures
        m.get("chat_who"@) == Some(JsonTree::Str(a)) && n.get("chat_who"@) == Some(JsonTree::Str(b))
            ==> message_data(m, None, None) != message_data(n, None, None),
        m.get("attr"@) == Some(JsonTree::Str(a)) && n.get("attr"@) == Some(JsonTree::Str(b))
            ==> message_data(m, None, None) != message_data(n, None, None),
        m.get("msg_type"@) == Some(JsonTree::Str(a)) && n.get("msg_type"@) == Some(JsonTree::Str(b))
            ==> message_data(m, None, None) != message_data(n, None, None),
        m.get("sender"@) == Some(JsonTree::Str(a)) && n.get("sender"@) == Some(JsonTree::Str(b))
            ==> message_data(m, None, None) != message_data(n, None, None),
        m.get("content"@) == Some(JsonTree::Str(a)) && n.get("content"@) == Some(JsonTree::Str(b))
            ==> message_data(m, None, None) != message_data(n, None, None),
{
    law_message_is_reported_as_it_came(m, None, None, a);
    law_message_is_reported_as_it_came(n, None, None, a);
}

/// A friend request goes up with the name of who asks, and the words.
pub proof fn law_friend_request_names_who_asks(name: Seq<char>, msg: Seq<char>, k: Seq<char>)
    ensures
        ({
            let d = friend_request_data(name, msg);
            &&& d.get("name"@) == Some(JsonTree::Str(name))
            &&& d.get("msg"@) == Some(JsonTree::Str(msg))
            &&& d.get(k) is Some ==> k == "name"@ || k == "msg"@
        }),
{
    broadcast use lemma_put_get;

    reveal_strlit("name");
    reveal_strlit("msg");
    assert("name"@.len() == 4);
    assert("msg"@.len() == 3);
}

/// A status goes up with what is known of WeChat, the number of chats that are listened to, and
/// whether the sidecar is there.
pub proof fn law_status_says_what_is_known(
    wx_online: bool,
    wx_state: Seq<char>,
    listeners: nat,
    sidecar_alive: bool,
    k: Seq<char>,
)
    ensures
        ({
            let d = status_data(wx_online, wx_state, listeners, sidecar_alive);
            &&& d.get("wxOnline"@) == Some(JsonTree::Bool(wx_online))
            &&& d.get("wxState"@) == Some(JsonTree::Str(wx_state))
            &&& d.get("listeners"@) == Some(JsonTree::Int(listeners as int))
            &&& d.get("sidecarAlive"@) == Some(JsonTree::Bool(sidecar_alive))
            &&& d.get(k) is Some ==> k == "wxOnline"@ || k == "wxState"@ || k == "listeners"@ || k
                == "sidecarAlive"@
        }),
{
    broadcast use lemma_put_get;

    reveal_strlit("wxOnline");
    reveal_strlit("wxState");
    reveal_strlit("listeners");
    reveal_strlit("sidecarAlive");
    assert("wxOnline"@.len() == 8);
    assert("wxState"@.len() == 7);
    assert("listeners"@.len() == 9);
    assert("sidecarAlive"@.len() == 12);
}

/// The numbers of events are counted on by one, and after the last number of 64 bits comes 0.
pub proof fn law_event_numbers_count_on(start: u64, k: nat)
    ensures
        seq_after(start) == (start + 1) % 0x1_0000_0000_0000_0000,
        nth_seq(start, k) == (start + k) % 0x1_0000_0000_0000_0000,
{
    lemma_nth_seq(start, k);
}

/// An optional text is taken as it is.
pub proof fn law_optional_text_is_taken_as_it_is(s: &str)
    ensures
        opt_str(Some(s)) == Some(s@),
        opt_str(None) is None,
{
}

} // verus!
