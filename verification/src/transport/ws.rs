//! The web socket: what is done about what happens on the connection, and how long to wait
//! before the next one.
//!
//! Every new connection begins by throwing away the frames that piled up while there was
//! none, so that the link's `hello` is the first frame on it. Then frames go both ways
//! until the connection ends.

use vstd::arithmetic::power2::{lemma2_to64, pow2};
use vstd::prelude::*;
use crate::json::{parse_json, text_tree, tree_text, write_json, Json};
use crate::text::{chars_of, decimal, decimal_text, join2, join3, text_of};
use crate::wx::random_upto;

verus! {

/// The longest wait before a reconnect, before chance has its say, in milliseconds.
pub const MAX_BACKOFF: u64 = 30_000;

/// The wait before a reconnect, before chance has its say: a second, doubled with every
/// attempt, half a minute at most.
pub open spec fn backoff_base(attempt: nat) -> nat {
    let doubled = 1000 * pow2(
        if attempt < 5 {
            attempt
        } else {
            5
        },
    );
    if doubled < MAX_BACKOFF {
        doubled
    } else {
        MAX_BACKOFF as nat
    }
}

/// The wait before a reconnect, before chance has its say.
pub fn backoff_base_ms(attempt: u32) -> (r: u64)
    ensures
        r == backoff_base(attempt as nat),
        1000 <= r <= MAX_BACKOFF,
{
    proof {
        lemma2_to64();
    }
    if attempt == 0 {
        1000
    } else if attempt == 1 {
        2000
    } else if attempt == 2 {
        4000
    } else if attempt == 3 {
        8000
    } else if attempt == 4 {
        16000
    } else {
        MAX_BACKOFF
    }
}

/// The wait before a reconnect, for a number that chance has picked out of the fifth more
/// or less that the wait may be.
pub fn backoff_for(attempt: u32, pick: u64) -> (r: u64)
    requires
        pick <= backoff_base(attempt as nat) * 6 / 5 - backoff_base(attempt as nat) * 8 / 10,
    ensures
        r == backoff_base(attempt as nat) * 8 / 10 + pick,
{
    let base = backoff_base_ms(attempt);
    base * 8 / 10 + pick
}

/// A wait before a reconnect, in milliseconds: the base, a fifth more or less.
pub fn backoff_delay(attempt: u32) -> (r: u64)
    ensures
        backoff_base(attempt as nat) * 8 / 10 <= r <= backoff_base(attempt as nat) * 6 / 5,
{
    let base = backoff_base_ms(attempt);
    let lo: u64 = base * 8 / 10;
    let hi: u64 = base * 6 / 5;
    backoff_for(attempt, random_upto(hi - lo))
}

/// The waits do not shrink from one attempt to the next, and from the sixth on they stay
/// the same.
pub proof fn law_backoff_grows_to_a_cap(a: nat, b: nat)
    requires
        a <= b,
    ensures
        backoff_base(a) <= backoff_base(b) <= MAX_BACKOFF,
        a >= 5 ==> backoff_base(a) == MAX_BACKOFF,
{
    lemma2_to64();
    assert forall|n: nat| n < 5 implies #[trigger] pow2(n) == if n == 0 {
        1nat
    } else if n == 1 {
        2
    } else if n == 2 {
        4
    } else if n == 3 {
        8
    } else {
        16
    } by {}
}

/// A URL without its query, which holds the token: for the log.
pub open spec fn without_query(url: Seq<char>) -> Seq<char>
    decreases url.len(),
{
    if url.len() == 0 || url[0] == '?' {
        Seq::empty()
    } else {
        seq![url[0]] + without_query(url.drop_first())
    }
}

/// A URL without its query.
pub fn log_url(url: &str) -> (r: String)
    ensures
        r@ == without_query(url@),
{
    let chars = chars_of(url);
    let mut n: usize = 0;
    assert(url@.skip(0) =~= url@);
    assert(without_query(url@) =~= url@.take(0) + without_query(url@.skip(0)));
    while n < chars.len() && chars[n] != '?'
        invariant
            n <= chars@.len(),
            chars@ == url@,
            without_query(url@) == url@.take(n as int) + without_query(url@.skip(n as int)),
        decreases chars.len() - n,
    {
        let ghost rest = url@.skip(n as int);
        assert(rest.drop_first() =~= url@.skip(n as int + 1));
        n = n + 1;
        assert(url@.take(n as int - 1) + (seq![rest[0]] + without_query(rest.drop_first()))
            =~= url@.take(n as int) + without_query(url@.skip(n as int)));
    }
    assert(without_query(url@.skip(n as int)) =~= Seq::empty());
    assert(without_query(url@) =~= url@.subrange(0, n as int));
    text_of(&chars, 0, n)
}

/// What is logged of a URL holds no query, and the token with it.
pub proof fn law_log_url_hides_the_query(server: Seq<char>, query: Seq<char>)
    requires
        !server.contains('?'),
    ensures
        without_query(server + seq!['?'] + query) == server,
        !without_query(server + seq!['?'] + query).contains('?'),
    decreases server.len(),
{
    let url = server + seq!['?'] + query;
    if server.len() == 0 {
        assert(url[0] == '?');
        assert(without_query(url) =~= server);
    } else {
        assert(server.contains(server[0]));
        assert(url.drop_first() =~= server.drop_first() + seq!['?'] + query);
        assert forall|c: char| server.drop_first().contains(c) implies server.contains(c) by {
            let i = choose|i: int| 0 <= i < server.drop_first().len() && server.drop_first()[i] == c;
            assert(server[i + 1] == c);
        }
        law_log_url_hides_the_query(server.drop_first(), query);
        assert(without_query(url) =~= server);
    }
}

/// What happens on a connection, or instead of one.
pub enum WsEvent {
    /// The transport begins, or the wait before the next connection is over.
    Begin,
    /// The connection has been made.
    Connected,
    /// The connection could not be made.
    ConnectFailed(String),
    /// A text has come in.
    Text(String),
    /// The server closes, with or without a code and a reason.
    Close(Option<(u16, String)>),
    /// Something came in that is no text: the protocol has none such.
    Other,
    /// The connection has failed.
    Failed(String),
    /// The connection has ended.
    Ended,
    /// A frame is to go out.
    Outbound(Json),
    /// A frame could not be sent.
    SendFailed(String),
    /// Nobody can send any more.
    SendersGone,
}

/// What the transport does next.
pub enum WsAction {
    /// Make a connection.
    Connect,
    /// Throw away the frames that piled up, then tell the link of the connection.
    Welcome,
    /// Hand the frame to the link.
    Deliver(Json),
    /// Send the text.
    Send(String),
    /// Nothing.
    Ignore,
    /// Tell the link why the connection is gone, then wait so many milliseconds.
    Disconnect { reason: String, delay: u64 },
    /// Stop for good.
    Exit,
}

/// Where the transport stands.
#[derive(Debug, Clone, Copy, PartialEq, Eq, Structural)]
pub enum WsPhase {
    /// Waiting, or not begun.
    Idle,
    Connecting,
    Open,
    Stopped,
}

/// The transport: where it goes, where it stands, and how many connections have been waited
/// for since the last one that was made.
pub struct WsTransport {
    url: String,
    phase: WsPhase,
    attempt: u32,
}

/// What the transport knows.
pub struct WsState {
    pub url: Seq<char>,
    pub phase: WsPhase,
    pub attempt: u32,
}

/// The reason of a close: its code, by which the server says for instance that a token is
/// refused, and its words.
pub open spec fn close_reason(code: u16, words: Seq<char>) -> Seq<char> {
    "["@ + decimal(code as nat) + "] "@ + words
}

/// Why a connection is gone, where an event says that it is.
pub open spec fn loss_reason(phase: WsPhase, e: WsEvent) -> Option<Seq<char>> {
    match (phase, e) {
        (WsPhase::Connecting, WsEvent::ConnectFailed(s)) => Some("连接失败: "@ + s@),
        (WsPhase::Open, WsEvent::Close(Some((code, reason)))) => Some(
            close_reason(code, reason@),
        ),
        (WsPhase::Open, WsEvent::Close(None)) => Some("服务端关闭"@),
        (WsPhase::Open, WsEvent::Failed(s)) => Some("连接错误: "@ + s@),
        (WsPhase::Open, WsEvent::Ended) => Some("连接关闭"@),
        (WsPhase::Open, WsEvent::SendFailed(s)) => Some("发送失败: "@ + s@),
        _ => None,
    }
}

impl WsState {
    /// What the transport knows after an event. The attempts are counted anew with every
    /// connection, and an event that does not belong into the phase changes nothing.
    pub open spec fn after(self, e: WsEvent) -> WsState {
        if loss_reason(self.phase, e) is Some {
            WsState {
                phase: WsPhase::Idle,
                attempt: if self.attempt == u32::MAX {
                    u32::MAX
                } else {
                    (self.attempt + 1) as u32
                },
                ..self
            }
        } else {
            match (self.phase, e) {
                (WsPhase::Idle, WsEvent::Begin) => WsState { phase: WsPhase::Connecting, ..self },
                (WsPhase::Connecting, WsEvent::Connected) => WsState {
                    phase: WsPhase::Open,
                    attempt: 0,
                    ..self
                },
                (WsPhase::Open, WsEvent::SendersGone) => WsState { phase: WsPhase::Stopped, ..self },
                _ => self,
            }
        }
    }

    /// Whether an action is what an event calls for. A text that is no JSON is passed over;
    /// the wait after a loss grows with the attempts, and a fifth of it is left to chance.
    pub open spec fn calls_for(self, e: WsEvent, a: WsAction) -> bool {
        match loss_reason(self.phase, e) {
            Some(why) => a matches WsAction::Disconnect { reason, delay } && reason@ == why
                && backoff_base(self.attempt as nat) * 8 / 10 <= delay <= backoff_base(
                self.attempt as nat,
            ) * 6 / 5,
            None => match (self.phase, e) {
                (WsPhase::Idle, WsEvent::Begin) => a == WsAction::Connect,
                (WsPhase::Connecting, WsEvent::Connected) => a == WsAction::Welcome,
                (WsPhase::Open, WsEvent::Text(t)) => match text_tree(t@) {
                    Some(j) => a matches WsAction::Deliver(f) && f@ == j,
                    None => a == WsAction::Ignore,
                },
                (WsPhase::Open, WsEvent::Outbound(j)) => a matches WsAction::Send(t) && t@
                    == tree_text(j@),
                (WsPhase::Open, WsEvent::SendersGone) => a == WsAction::Exit,
                _ => a == WsAction::Ignore,
            },
        }
    }
}

impl WsTransport {
    /// What the transport knows.
    pub closed spec fn view(&self) -> WsState {
        WsState { url: self.url@, phase: self.phase, attempt: self.attempt }
    }

    /// A transport to an address.
    pub fn new(url: String) -> (r: WsTransport)
        ensures
            r.view() == (WsState { url: url@, phase: WsPhase::Idle, attempt: 0 }),
    {
        WsTransport { url, phase: WsPhase::Idle, attempt: 0 }
    }

    /// The address.
    pub fn url(&self) -> (r: &str)
        ensures
            r@ == self.view().url,
    {
        self.url.as_str()
    }

    /// The connection is gone: the wait before the next one; one attempt more is counted.
    fn lose(&mut self, reason: String) -> (r: WsAction)
        ensures
            final(self).view() == (WsState {
                phase: WsPhase::Idle,
                attempt: if old(self).view().attempt == u32::MAX {
                    u32::MAX
                } else {
                    (old(self).view().attempt + 1) as u32
                },
                ..old(self).view()
            }),
            r matches WsAction::Disconnect { reason: why, delay } && why@ == reason@
                && backoff_base(old(self).view().attempt as nat) * 8 / 10 <= delay
                <= backoff_base(old(self).view().attempt as nat) * 6 / 5,
    {
        let delay = backoff_delay(self.attempt);
        if self.attempt < u32::MAX {
            self.attempt = self.attempt + 1;
        }
        self.phase = WsPhase::Idle;
        WsAction::Disconnect { reason, delay }
    }

    /// Takes in an event and says what to do next.
    pub fn run(&mut self, event: WsEvent) -> (r: WsAction)
        ensures
            final(self).view() == old(self).view().after(event),
            old(self).view().calls_for(event, r),
    {
        match (self.phase, event) {
            (WsPhase::Idle, WsEvent::Begin) => {
                self.phase = WsPhase::Connecting;
                WsAction::Connect
            },
            (WsPhase::Connecting, WsEvent::Connected) => {
                self.phase = WsPhase::Open;
                self.attempt = 0;
                WsAction::Welcome
            },
            (WsPhase::Connecting, WsEvent::ConnectFailed(s)) => {
                self.lose(join2("连接失败: ", s.as_str()))
            },
            (WsPhase::Open, WsEvent::Text(t)) => match parse_json(t.as_str()) {
                Some(j) => WsAction::Deliver(j),
                None => WsAction::Ignore,
            },
            (WsPhase::Open, WsEvent::Close(Some((code, words)))) => {
                let head = join3("[", decimal_text(code as u64).as_str(), "] ");
                self.lose(join2(head.as_str(), words.as_str()))
            },
            (WsPhase::Open, WsEvent::Close(None)) => self.lose("服务端关闭".to_owned()),
            (WsPhase::Open, WsEvent::Failed(s)) => self.lose(join2("连接错误: ", s.as_str())),
            (WsPhase::Open, WsEvent::Ended) => self.lose("连接关闭".to_owned()),
            (WsPhase::Open, WsEvent::SendFailed(s)) => self.lose(join2("发送失败: ", s.as_str())),
            (WsPhase::Open, WsEvent::Outbound(j)) => WsAction::Send(write_json(&j)),
            (WsPhase::Open, WsEvent::SendersGone) => {
                self.phase = WsPhase::Stopped;
                WsAction::Exit
            },
            _ => WsAction::Ignore,
        }
    }
}

/// A connection that is lost is always followed by another attempt: the transport stops only
/// when nobody can send any more. The link is told of a connection only when one has been
/// made, and the attempts are counted anew then.
pub proof fn law_transport_goes_on(s: WsState, e: WsEvent, a: WsAction)
    requires
        s.calls_for(e, a),
    ensures
        s.after(e).phase == WsPhase::Stopped && s.phase != WsPhase::Stopped ==> e is SendersGone,
        a is Disconnect ==> s.after(e).phase == WsPhase::Idle && s.after(e).calls_for(
            WsEvent::Begin,
            WsAction::Connect,
        ),
        a is Welcome ==> s.phase == WsPhase::Connecting && s.after(e).phase == WsPhase::Open,
        a is Welcome ==> s.after(e).attempt == 0,
{
}

/// A close with a code and words is handed on with both: the layer above can tell a token
/// that was refused from other ends.
pub proof fn law_close_code_is_handed_on(s: WsState, code: u16, words: String, a: WsAction)
    requires
        s.phase == WsPhase::Open,
        s.calls_for(WsEvent::Close(Some((code, words))), a),
    ensures
        ({
            let n = decimal(code as nat).len() as int;
            &&& a matches WsAction::Disconnect { reason, .. } && reason@.subrange(1, 1 + n)
                == decimal(code as nat) && reason@.skip(3 + n) == words@
        }),
{
    reveal_strlit("[");
    reveal_strlit("] ");
    let n = decimal(code as nat).len() as int;
    let t = close_reason(code, words@);
    assert(t.subrange(1, 1 + n) =~= decimal(code as nat));
    assert(t.skip(3 + n) =~= words@);
}

/// As long as no connection can be made the waits follow the table: the `n`-th loss in a row
/// is waited for by the `n`-th wait, a fifth more or less.
pub proof fn law_waits_grow_with_losses(s: WsState, e: WsEvent, a: WsAction)
    requires
        s.calls_for(e, a),
        a is Disconnect,
        s.attempt < u32::MAX,
    ensures
        s.after(e).attempt == s.attempt + 1,
        a matches WsAction::Disconnect { reason, delay } && backoff_base(s.attempt as nat) * 8 / 10
            <= delay <= backoff_base(s.attempt as nat) * 6 / 5,
{
}

/// The wait begins at a second and doubles with every attempt, up to half a minute, where it stays.
pub proof fn law_waits_double_up_to_half_a_minute(a: nat)
    ensures
        backoff_base(0) == 1000,
        a < 4 ==> backoff_base(a + 1) == 2 * backoff_base(a),
        a >= 5 ==> backoff_base(a) == 30_000,
{
    lemma2_to64();
    assert(a < 4 ==> a == 0 || a == 1 || a == 2 || a == 3);
}

/// An address without a query is logged as it is.
pub proof fn law_address_without_a_query_is_logged_as_it_is(server: Seq<char>)
    requires
        !server.contains('?'),
    ensures
        without_query(server) == server,
    decreases server.len(),
{
    if server.len() > 0 {
        assert(server.contains(server[0]));
        assert forall|c: char| server.drop_first().contains(c) implies server.contains(c) by {
            let i = choose|i: int| 0 <= i < server.drop_first().len() && server.drop_first()[i] == c;
            assert(server[i + 1] == c);
        }
        law_address_without_a_query_is_logged_as_it_is(server.drop_first());
        assert(without_query(server) =~= server);
    } else {
        assert(without_query(server) =~= server);
    }
}

/// The transport connects when it begins, welcomes a connection that has been made, delivers what
/// is read from a text, sends out a frame as its compact text, and tells of every loss in the words
/// of what happened; whatever does not belong where it stands is passed over, and so is a text that
/// is no JSON.
pub proof fn law_transport_does_what_happens(s: WsState, e: WsEvent, a: WsAction)
    requires
        s.calls_for(e, a),
    ensures
        a is Connect <==> s.phase == WsPhase::Idle && e is Begin,
        a is Connect ==> s.after(e).phase == WsPhase::Connecting && s.after(e).attempt == s.attempt,
        a is Welcome <==> s.phase == WsPhase::Connecting && e is Connected,
        a is Deliver <==> s.phase == WsPhase::Open && (e matches WsEvent::Text(t) && text_tree(t@)
            is Some),
        a matches WsAction::Deliver(f) ==> (e matches WsEvent::Text(t) && text_tree(t@) == Some(f@)),
        a is Send <==> s.phase == WsPhase::Open && e is Outbound,
        a matches WsAction::Send(t) ==> (e matches WsEvent::Outbound(j) && t@ == tree_text(j@)),
        a is Exit <==> s.phase == WsPhase::Open && e is SendersGone,
        a is Exit ==> s.after(e).phase == WsPhase::Stopped,
        a is Disconnect <==> (s.phase == WsPhase::Connecting && e is ConnectFailed) || (s.phase
            == WsPhase::Open && (e is Close || e is Failed || e is Ended || e is SendFailed)),
        a matches WsAction::Disconnect { reason, delay } ==> match e {
            WsEvent::ConnectFailed(why) => reason@ == "连接失败: "@ + why@,
            WsEvent::Close(Some((code, words))) => reason@ == "["@ + decimal(code as nat) + "] "@
                + words@,
            WsEvent::Close(None) => reason@ == "服务端关闭"@,
            WsEvent::Failed(why) => reason@ == "连接错误: "@ + why@,
            WsEvent::Ended => reason@ == "连接关闭"@,
            WsEvent::SendFailed(why) => reason@ == "发送失败: "@ + why@,
            _ => false,
        },
        a is Disconnect ==> s.after(e).attempt == if s.attempt == u32::MAX {
            s.attempt as int
        } else {
            s.attempt + 1
        },
        a is Deliver || a is Send || a is Ignore ==> s.after(e) == s,
        s.after(e).url == s.url,
{
}

/// The first loss after a connection is waited for by a second, a fifth more or less.
pub proof fn law_first_wait_is_a_second(s: WsState, e: WsEvent, a: WsAction)
    requires
        s.attempt == 0,
        s.calls_for(e, a),
        a is Disconnect,
    ensures
        a matches WsAction::Disconnect { reason, delay } && 800 <= delay <= 1200,
{
    lemma2_to64();
}

} // verus!
