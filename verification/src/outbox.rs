//! The outbox of events: written to disk before they are sent, struck when the server has
//! acknowledged them, sent again after a reconnect.
//!
//! On disk the outbox is a text of one entry per line. An entry is appended when it goes
//! in; an acknowledgement has the whole text written anew.

use vstd::prelude::*;
use vstd::string::*;
use crate::files::FileRead;
use crate::json::{
    as_record, law_record_members_go_by_place, lemma_object_plain, lemma_put_get, lemma_put_plain,
    parse_json, record, text_tree,
    tree_text, write_json, Json, JsonTree, PARSE_DEPTH,
};
use crate::text::{
    join2, lemma_lines_append, lines_of, same_text, split_lines, trim, trimmed,
    whole_lines,
};

verus! {

/// How many entries the outbox holds.
pub const MAX_ENTRIES: usize = 2000;

/// How long an entry is kept, in seconds: seven days.
pub const EXPIRY_SECS: u64 = 604_800;

/// How long an entry is kept, in milliseconds.
pub const EXPIRY_MS: u64 = 604_800_000;

/// An event that the server has not acknowledged.
pub struct Entry {
    pub event_id: String,
    /// When it went in, in milliseconds since the epoch, by the local clock.
    pub ts: u64,
    pub frame: Json,
}

/// What an entry says.
pub struct EntryView {
    pub event_id: Seq<char>,
    pub ts: u64,
    pub frame: JsonTree,
}

impl View for Entry {
    type V = EntryView;

    open spec fn view(&self) -> EntryView {
        EntryView { event_id: self.event_id@, ts: self.ts, frame: self.frame@ }
    }
}

impl EntryView {
    /// The entry in JSON.
    pub open spec fn tree(self) -> JsonTree {
        JsonTree::object().put("event_id"@, JsonTree::Str(self.event_id)).put(
            "ts"@,
            JsonTree::Int(self.ts as int),
        ).put("frame"@, self.frame)
    }

    /// The entry's line on disk.
    pub open spec fn line(self) -> Seq<char> {
        tree_text(self.tree()) + "\n"@
    }

    /// Whether the entry is still kept at a time.
    pub open spec fn kept(self, now: u64) -> bool {
        now - self.ts < EXPIRY_MS
    }

    /// Whether the entry's text can be read back: its frame has no fraction and is not
    /// nested too deep.
    pub open spec fn readable(self) -> bool {
        self.frame.plain((PARSE_DEPTH - 1) as nat)
    }
}

/// The names of an entry's members, in order.
pub const ENTRY_MEMBERS: [&'static str; 3] = ["event_id", "ts", "frame"];

/// The entry that a JSON value holds.
pub open spec fn entry_of(t: JsonTree) -> Option<EntryView> {
    let t = as_record(t, ENTRY_MEMBERS@);
    match (
        t.get_str("event_id"@),
        match t.get("ts"@) {
            Some(v) => v.as_u64(),
            None => None,
        },
        t.get("frame"@),
    ) {
        (Some(event_id), Some(ts), Some(frame)) => Some(EntryView { event_id, ts, frame }),
        _ => None,
    }
}

/// The entry on a line: none on a blank line or one that cannot be read.
pub open spec fn line_entry(line: Seq<char>) -> Option<EntryView> {
    if trimmed(line).len() == 0 {
        None
    } else {
        match text_tree(line) {
            Some(t) => entry_of(t),
            None => None,
        }
    }
}

/// The entries on lines, in order.
pub open spec fn lines_entries(lines: Seq<Seq<char>>) -> Seq<EntryView>
    decreases lines.len(),
{
    if lines.len() == 0 {
        Seq::empty()
    } else {
        match line_entry(lines.last()) {
            Some(e) => lines_entries(lines.drop_last()).push(e),
            None => lines_entries(lines.drop_last()),
        }
    }
}

/// The entries in a text, in order.
pub open spec fn text_entries(text: Seq<char>) -> Seq<EntryView> {
    lines_entries(lines_of(text))
}

/// The newest entries, as many as the outbox holds.
pub open spec fn newest(s: Seq<EntryView>) -> Seq<EntryView> {
    if s.len() > MAX_ENTRIES {
        s.skip(s.len() - MAX_ENTRIES)
    } else {
        s
    }
}

/// The entries that are still kept at a time.
pub open spec fn unexpired(s: Seq<EntryView>, now: u64) -> Seq<EntryView>
    decreases s.len(),
{
    if s.len() == 0 {
        s
    } else if s.last().kept(now) {
        unexpired(s.drop_last(), now).push(s.last())
    } else {
        unexpired(s.drop_last(), now)
    }
}

/// What the outbox holds when it is opened on a text at a time.
pub open spec fn opened(text: Seq<char>, now: u64) -> Seq<EntryView> {
    newest(unexpired(text_entries(text), now))
}

/// Whether a frame belongs into the outbox: messages and friend requests that have an id.
pub open spec fn belongs(frame: JsonTree) -> bool {
    &&& frame.get_str("eventId"@) is Some
    &&& frame.get_str("type"@) == Some("message"@) || frame.get_str("type"@) == Some(
        "friend_request"@,
    )
}

/// The entry for a frame that goes in at a time.
pub open spec fn entry_for(frame: JsonTree, now: u64) -> EntryView {
    EntryView { event_id: frame.get_str("eventId"@)->0, ts: now, frame }
}

/// The entries without those of an event.
pub open spec fn without(s: Seq<EntryView>, id: Seq<char>) -> Seq<EntryView>
    decreases s.len(),
{
    if s.len() == 0 {
        s
    } else if s.last().event_id == id {
        without(s.drop_last(), id)
    } else {
        without(s.drop_last(), id).push(s.last())
    }
}

/// The text of a whole outbox.
pub open spec fn body(s: Seq<EntryView>) -> Seq<char>
    decreases s.len(),
{
    if s.len() == 0 {
        Seq::empty()
    } else {
        body(s.drop_last()) + s.last().line()
    }
}

/// What can be said of an entry whose line has been written.
pub open spec fn written(e: EntryView) -> bool {
    &&& !tree_text(e.tree()).contains('\n')
    &&& !tree_text(e.tree()).contains('\r')
    &&& line_entry(tree_text(e.tree())) == Some(e)
}

/// The entries whose text can be read back are written so that it is.
pub open spec fn all_written(s: Seq<EntryView>) -> bool {
    forall|i: int| 0 <= i < s.len() && (#[trigger] s[i]).readable() ==> written(s[i])
}

/// What each entry says.
pub open spec fn views(s: Seq<Entry>) -> Seq<EntryView> {
    Seq::new(s.len(), |i: int| s[i]@)
}

/// The frames of entries.
pub open spec fn frames(s: Seq<EntryView>) -> Seq<JsonTree> {
    Seq::new(s.len(), |i: int| s[i].frame)
}

/// What values mean.
pub open spec fn json_views(s: Seq<Json>) -> Seq<JsonTree> {
    Seq::new(s.len(), |i: int| s[i]@)
}

impl Entry {
    /// The entry in JSON.
    pub fn to_json(&self) -> (r: Json)
        ensures
            r@ == self@.tree(),
    {
        Json::object().put("event_id", Json::text(self.event_id.as_str())).put(
            "ts",
            Json::Uint(self.ts),
        ).put("frame", self.frame.copy())
    }

    /// Reads an entry.
    pub fn from_json(j: &Json) -> (r: Option<Entry>)
        ensures
            match r {
                Some(e) => entry_of(j@) == Some(e@),
                None => entry_of(j@) is None,
            },
    {
        let j = record(j, &ENTRY_MEMBERS);
        let ts = match j.get("ts") {
            Some(v) => v.as_u64(),
            None => None,
        };
        match (j.get_str("event_id"), ts, j.get("frame")) {
            (Some(event_id), Some(ts), Some(frame)) => Some(
                Entry { event_id: event_id.to_owned(), ts, frame: frame.copy() },
            ),
            _ => None,
        }
    }

    /// The entry's line on disk.
    pub fn line(&self) -> (r: String)
        ensures
            r@ == self@.line(),
            self@.readable() ==> written(self@),
    {
        let j = self.to_json();
        proof {
            lemma_entry_reads_back(self@);
        }
        let text = write_json(&j);
        join2(text.as_str(), "\n")
    }
}

/// Reading an entry's JSON gives the entry, and the JSON is plain if the frame is.
proof fn lemma_entry_reads_back(e: EntryView)
    ensures
        entry_of(e.tree()) == Some(e),
        e.readable() ==> e.tree().plain(PARSE_DEPTH as nat),
{
    broadcast use {lemma_put_get, lemma_object_plain, lemma_put_plain};

    reveal_strlit("event_id");
    reveal_strlit("ts");
    reveal_strlit("frame");
    assert("event_id"@.len() == 8 && "ts"@.len() == 2 && "frame"@.len() == 5);
    if e.readable() {
        assert(e.tree().plain(PARSE_DEPTH as nat));
    }
}

/// The outbox.
pub struct Outbox {
    enabled: bool,
    entries: Vec<Entry>,
}

impl Outbox {
    /// The entries, oldest first.
    pub closed spec fn view(&self) -> Seq<EntryView> {
        views(self.entries@)
    }

    /// Whether events are kept at all.
    pub closed spec fn is_enabled(&self) -> bool {
        self.enabled
    }

    /// The outbox is within its bounds; a disabled one is empty.
    pub open spec fn wf(&self) -> bool {
        &&& self.view().len() <= MAX_ENTRIES
        &&& !self.is_enabled() ==> self.view().len() == 0
    }

    /// An outbox that keeps nothing.
    pub fn disabled() -> (r: Outbox)
        ensures
            r.wf(),
            !r.is_enabled(),
            r.view() == Seq::<EntryView>::empty(),
    {
        let r = Outbox { enabled: false, entries: Vec::new() };
        assert(r.view() =~= Seq::<EntryView>::empty());
        r
    }

    /// Opens the outbox on what was read of its file: entries that have expired are left
    /// out, and of too many the oldest. A file that is not there is an empty outbox.
    pub fn open(file: FileRead, now: u64) -> (r: Result<Outbox, String>)
        ensures
            match file {
                FileRead::Failed(e) => r matches Err(text) && text@ == "outbox 读取失败: "@ + e@,
                FileRead::Missing => r matches Ok(o) && o.wf() && o.is_enabled() && o.view()
                    == Seq::<EntryView>::empty(),
                FileRead::Text(t) => r matches Ok(o) && o.wf() && o.is_enabled() && o.view()
                    == opened(t@, now),
            },
    {
        match file {
            FileRead::Failed(e) => Err(join2("outbox 读取失败: ", e.as_str())),
            FileRead::Missing => {
                let r = Outbox { enabled: true, entries: Vec::new() };
                assert(r.view() =~= Seq::<EntryView>::empty());
                Ok(r)
            },
            FileRead::Text(t) => {
                let entries = Outbox::load(t.as_str());
                Ok(Outbox { enabled: true, entries: Outbox::prune(entries, now) })
            },
        }
    }

    /// The entries in a text: blank lines and those that cannot be read are skipped.
    fn load(text: &str) -> (r: Vec<Entry>)
        ensures
            views(r@) == text_entries(text@),
    {
        let lines = split_lines(text);
        let ghost all = Seq::new(lines@.len(), |i: int| lines@[i]@);
        assert(all =~= lines_of(text@));
        let mut out: Vec<Entry> = Vec::new();
        let mut i: usize = 0;
        assert(views(out@) =~= lines_entries(all.take(0)));
        while i < lines.len()
            invariant
                i <= lines@.len(),
                all == Seq::new(lines@.len(), |i: int| lines@[i]@),
                views(out@) == lines_entries(all.take(i as int)),
            decreases lines.len() - i,
        {
            let ghost upto = all.take(i as int + 1);
            assert(upto.drop_last() =~= all.take(i as int));
            assert(upto.last() == lines@[i as int]@);
            let line = lines[i].as_str();
            if trim(line).as_str().unicode_len() > 0 {
                match parse_json(line) {
                    Some(j) => match Entry::from_json(&j) {
                        Some(e) => {
                            let ghost before = out@;
                            out.push(e);
                            assert(views(out@) =~= views(before).push(e@));
                        },
                        None => {},
                    },
                    None => {},
                }
            }
            i = i + 1;
        }
        assert(all.take(i as int) =~= all);
        out
    }

    /// Leaves out what has expired, and of too many the oldest.
    fn prune(entries: Vec<Entry>, now: u64) -> (r: Vec<Entry>)
        ensures
            views(r@) == newest(unexpired(views(entries@), now)),
    {
        let ghost all = views(entries@);
        let ghost source = entries@;
        let mut out: Vec<Entry> = Vec::new();
        assert(views(out@) =~= unexpired(all.take(0), now));
        for e in it: entries
            invariant
                it.seq() == source,
                all == views(source),
                views(out@) == unexpired(all.take(it.index() as int), now),
        {
            let ghost n = it.index() as int;
            let ghost upto = all.take(n + 1);
            assert(upto.drop_last() =~= all.take(n));
            assert(upto.last() == e@);
            let age: u64 = if now >= e.ts {
                now - e.ts
            } else {
                0
            };
            if age < EXPIRY_MS {
                let ghost before = out@;
                out.push(e);
                assert(views(out@) =~= views(before).push(e@));
            }
        }
        assert(all.take(all.len() as int) =~= all);
        let ghost kept = views(out@);
        if out.len() > MAX_ENTRIES {
            let drop: usize = out.len() - MAX_ENTRIES;
            let ghost before = out@;
            let rest = out.split_off(drop);
            assert(views(rest@) =~= kept.skip(drop as int));
            rest
        } else {
            out
        }
    }

    /// Puts a frame into the outbox, if it belongs there, and returns the line to append
    /// to the file. The time is that of the local clock; the frame's own is not trusted.
    pub fn enqueue(&mut self, frame: &Json, now: u64) -> (r: Option<String>)
        requires
            old(self).wf(),
        ensures
            final(self).wf(),
            final(self).is_enabled() == old(self).is_enabled(),
            if old(self).is_enabled() && belongs(frame@) {
                let e = entry_for(frame@, now);
                &&& final(self).view() == newest(old(self).view().push(e))
                &&& r matches Some(line) && line@ == e.line()
                &&& e.readable() ==> written(e)
            } else {
                r is None && final(self).view() == old(self).view()
            },
    {
        if !self.enabled {
            return None;
        }
        let event_id = match frame.get_str("eventId") {
            Some(s) => s.to_owned(),
            None => return None,
        };
        let kind = match frame.get_str("type") {
            Some(s) => s,
            None => return None,
        };
        if !same_text(kind, "message") && !same_text(kind, "friend_request") {
            return None;
        }
        let entry = Entry { event_id, ts: now, frame: frame.copy() };
        let line = entry.line();
        let ghost before = self.view();
        let ghost e = entry@;
        assert(e == entry_for(frame@, now));
        self.entries.push(entry);
        assert(self.view() =~= before.push(e));
        if self.entries.len() > MAX_ENTRIES {
            self.entries.remove(0);
            assert(self.view() =~= before.push(e).skip(1));
        }
        assert(self.view() =~= newest(before.push(e)));
        Some(line)
    }

    /// Strikes an event that the server has acknowledged, and returns the text that the
    /// file is to hold from now on. `None` where the event is not there.
    pub fn ack(&mut self, event_id: &str) -> (r: Option<String>)
        requires
            old(self).wf(),
        ensures
            final(self).wf(),
            final(self).is_enabled() == old(self).is_enabled(),
            final(self).view() == without(old(self).view(), event_id@),
            match r {
                Some(text) => {
                    &&& text@ == body(final(self).view())
                    &&& all_written(final(self).view())
                    &&& exists|i: int|
                        0 <= i < old(self).view().len() && (#[trigger] old(self).view()[i]).event_id
                            == event_id@
                },
                None => final(self).view() == old(self).view() && forall|i: int|
                    0 <= i < old(self).view().len() ==> (#[trigger] old(self).view()[i]).event_id
                        != event_id@,
            },
    {
        let ghost all = self.view();
        let before: usize = self.entries.len();
        assert(without(all.take(0), event_id@) =~= Seq::empty());
        let mut kept: Vec<Entry> = Vec::new();
        let mut source: Vec<Entry> = Vec::new();
        std::mem::swap(&mut source, &mut self.entries);
        let ghost src = source@;
        assert(views(kept@) =~= without(all.take(0), event_id@));
        for e in it: source
            invariant
                it.seq() == src,
                all == views(src),
                views(kept@) == without(all.take(it.index() as int), event_id@),
        {
            let ghost n = it.index() as int;
            let ghost upto = all.take(n + 1);
            assert(upto.drop_last() =~= all.take(n));
            assert(upto.last() == e@);
            if !same_text(e.event_id.as_str(), event_id) {
                let ghost k = kept@;
                kept.push(e);
                assert(views(kept@) =~= views(k).push(e@));
            }
        }
        assert(all.take(all.len() as int) =~= all);
        proof {
            lemma_without_len(all, event_id@);
        }
        let struck = kept.len() != before;
        self.entries = kept;
        if struck {
            Some(self.text())
        } else {
            None
        }
    }

    /// The text of the whole outbox.
    fn text(&self) -> (r: String)
        ensures
            r@ == body(self.view()),
            all_written(self.view()),
    {
        let mut out = String::new();
        let mut i: usize = 0;
        assert(body(self.view().take(0)) =~= Seq::empty());
        while i < self.entries.len()
            invariant
                i <= self.entries@.len(),
                out@ == body(self.view().take(i as int)),
                all_written(self.view().take(i as int)),
            decreases self.entries.len() - i,
        {
            let ghost upto = self.view().take(i as int + 1);
            assert(upto.drop_last() =~= self.view().take(i as int));
            let line = self.entries[i].line();
            out.append(line.as_str());
            proof {
                let before = self.view().take(i as int);
                assert forall|k: int| 0 <= k < upto.len() && (#[trigger] upto[k]).readable()
                    implies written(upto[k]) by {
                    if k < before.len() {
                        assert(before[k] == upto[k]);
                    }
                }
            }
            i = i + 1;
        }
        assert(self.view().take(i as int) =~= self.view());
        out
    }

    /// The frames that wait for an acknowledgement, oldest first.
    pub fn pending(&self) -> (r: Vec<Json>)
        ensures
            json_views(r@) == frames(self.view()),
    {
        let mut out: Vec<Json> = Vec::new();
        let mut i: usize = 0;
        while i < self.entries.len()
            invariant
                i <= self.entries@.len(),
                json_views(out@) == frames(self.view()).take(i as int),
            decreases self.entries.len() - i,
        {
            let ghost before = out@;
            let f = self.entries[i].frame.copy();
            out.push(f);
            i = i + 1;
            assert(json_views(out@) =~= json_views(before).push(f@));
            assert(json_views(out@) =~= frames(self.view()).take(i as int));
        }
        assert(frames(self.view()).take(i as int) =~= frames(self.view()));
        out
    }

    /// How many events wait for an acknowledgement.
    pub fn len(&self) -> (r: usize)
        ensures
            r == self.view().len(),
    {
        self.entries.len()
    }
}

/// Striking an event shortens the list exactly if the event is on it.
proof fn lemma_without_len(s: Seq<EntryView>, id: Seq<char>)
    ensures
        without(s, id).len() <= s.len(),
        without(s, id).len() == s.len() ==> without(s, id) == s && forall|i: int|
            0 <= i < s.len() ==> (#[trigger] s[i]).event_id != id,
        without(s, id).len() != s.len() ==> exists|i: int|
            0 <= i < s.len() && (#[trigger] s[i]).event_id == id,
    decreases s.len(),
{
    if s.len() > 0 {
        let init = s.drop_last();
        lemma_without_len(init, id);
        assert(init.push(s.last()) =~= s);
        assert forall|i: int| 0 <= i < init.len() implies init[i] == s[i] by {}
        if without(s, id).len() != s.len() {
            if s.last().event_id == id {
                assert(s[s.len() - 1].event_id == id);
            } else {
                let i = choose|i: int| 0 <= i < init.len() && (#[trigger] init[i]).event_id == id;
                assert(s[i].event_id == id);
            }
        } else {
            assert forall|i: int| 0 <= i < s.len() implies (#[trigger] s[i]).event_id != id by {
                if i < init.len() {
                    assert(init[i].event_id != id);
                }
            }
        }
    }
}

/// Acknowledging an event strikes that event and nothing else, and keeps the order.
pub proof fn law_ack_strikes_only_its_event(s: Seq<EntryView>, id: Seq<char>)
    ensures
        without(s, id) == s.filter(|e: EntryView| e.event_id != id),
        without(without(s, id), id) == without(s, id),
    decreases s.len(),
{
    reveal(Seq::filter);
    if s.len() > 0 {
        law_ack_strikes_only_its_event(s.drop_last(), id);
        if s.last().event_id != id {
            assert(without(s, id).drop_last() =~= without(s.drop_last(), id));
        }
    }
}

/// What can be done with the outbox.
pub enum OutboxOp {
    /// An event goes in, if it belongs there.
    Enqueue { frame: JsonTree, now: u64 },
    /// An event is acknowledged.
    Ack(Seq<char>),
}

/// The entries after an operation.
pub open spec fn entries_after(s: Seq<EntryView>, op: OutboxOp) -> Seq<EntryView> {
    match op {
        OutboxOp::Enqueue { frame, now } => if belongs(frame) {
            newest(s.push(entry_for(frame, now)))
        } else {
            s
        },
        OutboxOp::Ack(id) => without(s, id),
    }
}

/// The entries after a number of operations.
pub open spec fn entries_after_all(s: Seq<EntryView>, ops: Seq<OutboxOp>) -> Seq<EntryView>
    decreases ops.len(),
{
    if ops.len() == 0 {
        s
    } else {
        entries_after(entries_after_all(s, ops.drop_last()), ops.last())
    }
}

/// Whether an entry is among the last `n`.
pub open spec fn among_last(s: Seq<EntryView>, e: EntryView, n: int) -> bool {
    exists|i: int| 0 <= i < s.len() && s.len() - i <= n && #[trigger] s[i] == e
}

/// Striking another event brings an entry no further from the end.
proof fn lemma_without_keeps(s: Seq<EntryView>, id: Seq<char>, e: EntryView, n: int)
    requires
        among_last(s, e, n),
        e.event_id != id,
    ensures
        among_last(without(s, id), e, n),
    decreases s.len(),
{
    let i = choose|i: int| 0 <= i < s.len() && s.len() - i <= n && #[trigger] s[i] == e;
    let init = s.drop_last();
    let rest = without(init, id);
    if i == s.len() - 1 {
        assert(without(s, id)[without(s, id).len() - 1] == e);
    } else {
        assert(init[i] == e);
        assert(among_last(init, e, n - 1));
        lemma_without_keeps(init, id, e, n - 1);
        let k = choose|k: int| 0 <= k < rest.len() && rest.len() - k <= n - 1 && #[trigger] rest[k] == e;
        assert(without(s, id)[k] == e);
    }
}

/// How many of the operations put an event in.
pub open spec fn entering(ops: Seq<OutboxOp>) -> nat
    decreases ops.len(),
{
    if ops.len() == 0 {
        0
    } else {
        entering(ops.drop_last()) + match ops.last() {
            OutboxOp::Enqueue { frame, .. } => if belongs(frame) {
                1nat
            } else {
                0nat
            },
            OutboxOp::Ack(_) => 0nat,
        }
    }
}

/// An event that has gone in stays, to be sent again after every reconnect, until it is
/// acknowledged; only so many newer ones that they fill the outbox drive it out.
pub proof fn law_unacknowledged_events_stay(s: Seq<EntryView>, e: EntryView, ops: Seq<OutboxOp>)
    requires
        s.len() > 0,
        s.last() == e,
        entering(ops) < MAX_ENTRIES,
        forall|i: int| 0 <= i < ops.len() ==> #[trigger] ops[i] != OutboxOp::Ack(e.event_id),
    ensures
        among_last(entries_after_all(s, ops), e, entering(ops) as int + 1),
        entries_after_all(s, ops).contains(e),
        frames(entries_after_all(s, ops)).contains(e.frame),
    decreases ops.len(),
{
    let all = entries_after_all(s, ops);
    if ops.len() == 0 {
        assert(s[s.len() - 1] == e);
    } else {
        let init = ops.drop_last();
        assert forall|i: int| 0 <= i < init.len() implies #[trigger] init[i] != OutboxOp::Ack(
            e.event_id,
        ) by {
            assert(init[i] == ops[i]);
        }
        law_unacknowledged_events_stay(s, e, init);
        let before = entries_after_all(s, init);
        let n = entering(init) as int + 1;
        let i = choose|i: int|
            0 <= i < before.len() && before.len() - i <= n && #[trigger] before[i] == e;
        match ops.last() {
            OutboxOp::Enqueue { frame, now } => {
                if belongs(frame) {
                    let more = before.push(entry_for(frame, now));
                    assert(more[i] == e);
                    assert(all[all.len() - (more.len() - i)] == e);
                } else {
                    assert(all[i] == e);
                }
            },
            OutboxOp::Ack(id) => {
                assert(ops[ops.len() - 1] != OutboxOp::Ack(e.event_id));
                lemma_without_keeps(before, id, e, n);
            },
        }
    }
    let m = entering(ops) as int + 1;
    let k = choose|k: int| 0 <= k < all.len() && all.len() - k <= m && #[trigger] all[k] == e;
    assert(frames(all)[k] == e.frame);
}

/// An event that has been acknowledged is not sent again, unless it goes in again.
pub proof fn law_acknowledged_events_are_gone(s: Seq<EntryView>, id: Seq<char>)
    ensures
        forall|i: int| 0 <= i < without(s, id).len() ==> (#[trigger] without(s, id)[i]).event_id
            != id,
    decreases s.len(),
{
    if s.len() > 0 {
        law_acknowledged_events_are_gone(s.drop_last(), id);
        let rest = without(s.drop_last(), id);
        assert forall|i: int| 0 <= i < without(s, id).len() implies (#[trigger] without(
            s,
            id,
        )[i]).event_id != id by {
            if i < rest.len() {
                assert(rest[i].event_id != id);
            }
        }
    }
}

/// The lines of two sequences give the entries of the first and then those of the second.
proof fn lemma_lines_entries_append(a: Seq<Seq<char>>, b: Seq<Seq<char>>)
    ensures
        lines_entries(a + b) == lines_entries(a) + lines_entries(b),
    decreases b.len(),
{
    if b.len() == 0 {
        assert(a + b =~= a);
        assert(lines_entries(a) + lines_entries(b) =~= lines_entries(a));
    } else {
        assert((a + b).drop_last() =~= a + b.drop_last());
        lemma_lines_entries_append(a, b.drop_last());
        assert(lines_entries(a + b) =~= lines_entries(a) + lines_entries(b));
    }
}

/// A line that is appended to a text of whole lines adds its entry and changes no other.
pub proof fn law_append_adds_one_entry(text: Seq<char>, e: EntryView)
    requires
        whole_lines(text),
        written(e),
    ensures
        whole_lines(text + e.line()),
        text_entries(text + e.line()) == text_entries(text).push(e),
{
    let l = tree_text(e.tree());
    reveal_strlit("\n");
    assert("\n"@ =~= seq!['\n']);
    assert(e.line() =~= l.push('\n'));
    lemma_lines_append(text, l);
    assert(text + e.line() =~= text + l.push('\n'));
    lemma_lines_entries_append(lines_of(text), seq![l]);
    assert(lines_of(text).push(l) =~= lines_of(text) + seq![l]);
    let one = seq![l];
    assert(one.last() == l);
    assert(lines_entries(one.drop_last()) =~= Seq::empty());
    assert(lines_entries(one) =~= seq![e]);
    assert(text_entries(text) + seq![e] =~= text_entries(text).push(e));
}

/// The text of a whole outbox, read again, gives the same entries.
pub proof fn law_rewritten_text_reads_back(s: Seq<EntryView>)
    requires
        forall|i: int| 0 <= i < s.len() ==> written(#[trigger] s[i]),
    ensures
        whole_lines(body(s)),
        text_entries(body(s)) == s,
    decreases s.len(),
{
    if s.len() == 0 {
        assert(text_entries(body(s)) =~= s);
    } else {
        let init = s.drop_last();
        assert forall|i: int| 0 <= i < init.len() implies written(#[trigger] init[i]) by {
            assert(init[i] == s[i]);
        }
        law_rewritten_text_reads_back(init);
        assert(written(s[s.len() - 1]));
        law_append_adds_one_entry(body(init), s.last());
        assert(text_entries(body(s)) =~= s);
    }
}

/// An entry that is pushed and kept is pushed onto the kept ones.
proof fn lemma_unexpired_push(s: Seq<EntryView>, e: EntryView, now: u64)
    ensures
        unexpired(s.push(e), now) == if e.kept(now) {
            unexpired(s, now).push(e)
        } else {
            unexpired(s, now)
        },
{
    assert(s.push(e).drop_last() =~= s);
}

/// Entries of which all are kept are all there.
proof fn lemma_unexpired_all(s: Seq<EntryView>, now: u64)
    requires
        forall|i: int| 0 <= i < s.len() ==> (#[trigger] s[i]).kept(now),
    ensures
        unexpired(s, now) == s,
    decreases s.len(),
{
    if s.len() > 0 {
        let init = s.drop_last();
        assert forall|i: int| 0 <= i < init.len() implies (#[trigger] init[i]).kept(now) by {
            assert(init[i] == s[i]);
        }
        lemma_unexpired_all(init, now);
        assert(s[s.len() - 1].kept(now));
        assert(unexpired(s, now) =~= s);
    }
}

/// What is left after the expired ones are gone is not expired.
proof fn lemma_unexpired_kept(s: Seq<EntryView>, now: u64)
    ensures
        forall|i: int|
            0 <= i < unexpired(s, now).len() ==> (#[trigger] unexpired(s, now)[i]).kept(now),
    decreases s.len(),
{
    if s.len() > 0 {
        lemma_unexpired_kept(s.drop_last(), now);
        let init = unexpired(s.drop_last(), now);
        assert forall|i: int| 0 <= i < unexpired(s, now).len() implies (#[trigger] unexpired(
            s,
            now,
        )[i]).kept(now) by {
            if i < init.len() {
                assert(init[i].kept(now));
            }
        }
    }
}

/// The file agrees with the outbox: it consists of whole lines, and the outbox that was
/// opened at `t` would hold the same if it were opened on the file as it is now.
pub open spec fn agrees(text: Seq<char>, s: Seq<EntryView>, t: u64) -> bool {
    whole_lines(text) && opened(text, t) == s
}

/// Putting an event in and appending its line keeps the file in agreement with the outbox,
/// for a clock that has not gone back by a week.
pub proof fn law_enqueue_keeps_agreement(
    text: Seq<char>,
    s: Seq<EntryView>,
    t: u64,
    e: EntryView,
)
    requires
        agrees(text, s, t),
        written(e),
        e.kept(t),
    ensures
        agrees(text + e.line(), newest(s.push(e)), t),
{
    law_append_adds_one_entry(text, e);
    let all = unexpired(text_entries(text), t);
    lemma_unexpired_push(text_entries(text), e, t);
    assert(opened(text + e.line(), t) == newest(all.push(e)));
    assert(newest(all.push(e)) =~= newest(newest(all).push(e)));
}

/// Striking an event and writing the whole text anew keeps the file in agreement with the
/// outbox.
pub proof fn law_ack_keeps_agreement(s: Seq<EntryView>, t: u64, id: Seq<char>)
    requires
        s.len() <= MAX_ENTRIES,
        forall|i: int| 0 <= i < s.len() ==> written(#[trigger] s[i]) && s[i].kept(t),
    ensures
        agrees(body(without(s, id)), without(s, id), t),
    decreases s.len(),
{
    let w = without(s, id);
    lemma_without_len(s, id);
    lemma_without_members(s, id, t);
    law_rewritten_text_reads_back(w);
    lemma_unexpired_all(w, t);
}

/// What is left after striking was there before.
proof fn lemma_without_members(s: Seq<EntryView>, id: Seq<char>, t: u64)
    requires
        forall|i: int| 0 <= i < s.len() ==> written(#[trigger] s[i]) && s[i].kept(t),
    ensures
        forall|i: int|
            0 <= i < without(s, id).len() ==> written(#[trigger] without(s, id)[i]) && without(
                s,
                id,
            )[i].kept(t),
    decreases s.len(),
{
    if s.len() > 0 {
        let init = s.drop_last();
        assert forall|i: int| 0 <= i < init.len() implies written(#[trigger] init[i])
            && init[i].kept(t) by {
            assert(init[i] == s[i]);
        }
        lemma_without_members(init, id, t);
        let w = without(init, id);
        assert forall|i: int| 0 <= i < without(s, id).len() implies written(
            #[trigger] without(s, id)[i],
        ) && without(s, id)[i].kept(t) by {
            if i < w.len() {
                assert(written(w[i]) && w[i].kept(t));
            } else {
                assert(written(s[s.len() - 1]) && s[s.len() - 1].kept(t));
            }
        }
    }
}

/// What has expired early has expired late: of the entries that are kept at a time, those are
/// left at a later time that are kept then.
proof fn lemma_unexpired_later(s: Seq<EntryView>, t: u64, now: u64)
    requires
        t <= now,
    ensures
        unexpired(unexpired(s, t), now) == unexpired(s, now),
    decreases s.len(),
{
    if s.len() > 0 {
        lemma_unexpired_later(s.drop_last(), t, now);
        if s.last().kept(t) {
            lemma_unexpired_push(unexpired(s.drop_last(), t), s.last(), now);
        }
    }
}

/// Of two lists in a row those are kept that are kept of either.
proof fn lemma_unexpired_append(a: Seq<EntryView>, b: Seq<EntryView>, now: u64)
    ensures
        unexpired(a + b, now) == unexpired(a, now) + unexpired(b, now),
    decreases b.len(),
{
    if b.len() == 0 {
        assert(a + b =~= a);
        assert(unexpired(a, now) + unexpired(b, now) =~= unexpired(a, now));
    } else {
        assert((a + b).drop_last() =~= a + b.drop_last());
        lemma_unexpired_append(a, b.drop_last(), now);
        assert(unexpired(a + b, now) =~= unexpired(a, now) + unexpired(b, now));
    }
}

/// An outbox whose file agrees with it is restored by opening the file again, at any later
/// time at which none of its entries has expired.
pub proof fn law_reopening_restores(text: Seq<char>, s: Seq<EntryView>, t: u64, now: u64)
    requires
        agrees(text, s, t),
        t <= now,
        forall|i: int| 0 <= i < s.len() ==> (#[trigger] s[i]).kept(now),
    ensures
        opened(text, now) == s,
{
    let all = text_entries(text);
    let kept = unexpired(all, t);
    lemma_unexpired_later(all, t, now);
    lemma_unexpired_all(s, now);
    if kept.len() > MAX_ENTRIES {
        let cut = kept.len() - MAX_ENTRIES;
        let gone = kept.take(cut);
        assert(gone + s =~= kept);
        lemma_unexpired_append(gone, s, now);
        assert(newest(unexpired(gone, now) + s) =~= s);
    }
}

/// The file after an operation on an outbox that holds `s`: a line is appended for an event
/// that goes in, and the whole text written anew when one is struck.
pub open spec fn file_after(text: Seq<char>, s: Seq<EntryView>, op: OutboxOp) -> Seq<char> {
    match op {
        OutboxOp::Enqueue { frame, now } => if belongs(frame) {
            text + entry_for(frame, now).line()
        } else {
            text
        },
        OutboxOp::Ack(id) => if without(s, id).len() != s.len() {
            body(without(s, id))
        } else {
            text
        },
    }
}

/// The file after a number of operations on an outbox that holds `s` at the beginning.
pub open spec fn file_after_all(text: Seq<char>, s: Seq<EntryView>, ops: Seq<OutboxOp>) -> Seq<char>
    decreases ops.len(),
{
    if ops.len() == 0 {
        text
    } else {
        file_after(
            file_after_all(text, s, ops.drop_last()),
            entries_after_all(s, ops.drop_last()),
            ops.last(),
        )
    }
}

/// Whether an operation is made at or after a time, and what it puts in can be written.
pub open spec fn proper_op(op: OutboxOp, t: u64) -> bool {
    op matches OutboxOp::Enqueue { frame, now } ==> belongs(frame) ==> t <= now && written(
        entry_for(frame, now),
    )
}

/// Through a whole run of operations the file stays in agreement with the outbox.
proof fn lemma_run_keeps_agreement(text: Seq<char>, t: u64, ops: Seq<OutboxOp>)
    requires
        whole_lines(text),
        forall|i: int|
            0 <= i < opened(text, t).len() ==> written(#[trigger] opened(text, t)[i]),
        forall|i: int| 0 <= i < ops.len() ==> proper_op(#[trigger] ops[i], t),
    ensures
        ({
            let s = entries_after_all(opened(text, t), ops);
            &&& agrees(file_after_all(text, opened(text, t), ops), s, t)
            &&& s.len() <= MAX_ENTRIES
            &&& forall|i: int| 0 <= i < s.len() ==> written(#[trigger] s[i]) && s[i].kept(t)
        }),
    decreases ops.len(),
{
    let first = opened(text, t);
    if ops.len() == 0 {
        let kept = unexpired(text_entries(text), t);
        lemma_unexpired_kept(text_entries(text), t);
        assert forall|i: int| 0 <= i < first.len() implies written(#[trigger] first[i])
            && first[i].kept(t) by {
            let k = i + (kept.len() - first.len());
            assert(kept[k] == first[i]);
        }
    } else {
        let init = ops.drop_last();
        assert forall|i: int| 0 <= i < init.len() implies proper_op(#[trigger] init[i], t) by {
            assert(init[i] == ops[i]);
        }
        lemma_run_keeps_agreement(text, t, init);
        let s = entries_after_all(first, init);
        let file = file_after_all(text, first, init);
        let after = entries_after_all(first, ops);
        assert(proper_op(ops[ops.len() - 1], t));
        match ops.last() {
            OutboxOp::Enqueue { frame, now } => {
                if belongs(frame) {
                    let e = entry_for(frame, now);
                    law_enqueue_keeps_agreement(file, s, t, e);
                    let more = s.push(e);
                    assert forall|i: int| 0 <= i < after.len() implies written(#[trigger] after[i])
                        && after[i].kept(t) by {
                        let k = i + (more.len() - after.len());
                        assert(more[k] == after[i]);
                        if k < s.len() {
                            assert(written(s[k]) && s[k].kept(t));
                        }
                    }
                }
            },
            OutboxOp::Ack(id) => {
                lemma_without_len(s, id);
                lemma_without_members(s, id, t);
                if without(s, id).len() != s.len() {
                    law_ack_keeps_agreement(s, t, id);
                }
            },
        }
    }
}

/// An outbox is opened on a file, events go in and are acknowledged, and its file is opened
/// again later: the same events wait, in the same order. None that was acknowledged or driven
/// out comes back, and none that waits is lost, as long as none of them has expired, every
/// write has gone through, and the clock has not gone back.
pub proof fn law_a_run_is_restored(text: Seq<char>, t: u64, ops: Seq<OutboxOp>, now: u64)
    requires
        whole_lines(text),
        forall|i: int|
            0 <= i < opened(text, t).len() ==> written(#[trigger] opened(text, t)[i]),
        forall|i: int| 0 <= i < ops.len() ==> proper_op(#[trigger] ops[i], t),
        t <= now,
        forall|i: int|
            0 <= i < entries_after_all(opened(text, t), ops).len() ==> (
            #[trigger] entries_after_all(opened(text, t), ops)[i]).kept(now),
    ensures
        opened(file_after_all(text, opened(text, t), ops), now) == entries_after_all(
            opened(text, t),
            ops,
        ),
        frames(opened(file_after_all(text, opened(text, t), ops), now)) == frames(
            entries_after_all(opened(text, t), ops),
        ),
{
    lemma_run_keeps_agreement(text, t, ops);
    law_reopening_restores(
        file_after_all(text, opened(text, t), ops),
        entries_after_all(opened(text, t), ops),
        t,
        now,
    );
}

/// A missing or empty file agrees with an empty outbox.
pub proof fn law_empty_file_agrees(t: u64)
    ensures
        agrees(Seq::empty(), Seq::empty(), t),
{
    assert(text_entries(Seq::empty()) =~= Seq::empty());
}

/// Messages and friend requests that have an id go into the outbox, and nothing else does. What
/// goes in is the frame as it is, under its own id, at the time of the local clock.
pub proof fn law_messages_and_requests_go_in(frame: JsonTree, now: u64)
    ensures
        belongs(frame) <==> (frame.get("eventId"@) matches Some(JsonTree::Str(_))) && (frame.get(
            "type"@,
        ) == Some(JsonTree::Str("message"@)) || frame.get("type"@) == Some(
            JsonTree::Str("friend_request"@),
        )),
        belongs(frame) ==> frame.get("eventId"@) == Some(
            JsonTree::Str(entry_for(frame, now).event_id),
        ),
        entry_for(frame, now).ts == now,
        entry_for(frame, now).frame == frame,
{
}

/// An entry is kept for seven days, to the millisecond; one whose time is still to come is kept.
pub proof fn law_entries_are_kept_for_a_week(e: EntryView, now: u64)
    ensures
        e.kept(now) <==> now < e.ts + 7 * 24 * 3600 * 1000,
        EXPIRY_SECS == 7 * 24 * 3600,
        EXPIRY_MS == EXPIRY_SECS * 1000,
{
}

/// The outbox holds two thousand entries. Of more than that the oldest are dropped, and no more
/// of them than must be; the others stay in their order.
pub proof fn law_only_the_oldest_are_driven_out(s: Seq<EntryView>)
    ensures
        s.len() <= 2000 ==> newest(s) == s,
        s.len() > 2000 ==> newest(s).len() == 2000,
        forall|i: int|
            0 <= i < newest(s).len() ==> #[trigger] newest(s)[i] == s[s.len() - newest(s).len() + i],
{
}

/// Opening the outbox leaves out exactly the entries that have expired, and keeps the order.
pub proof fn law_only_the_expired_are_left_out(s: Seq<EntryView>, now: u64)
    ensures
        unexpired(s, now) == s.filter(|e: EntryView| now < e.ts + 604_800_000),
    decreases s.len(),
{
    reveal(Seq::filter);
    if s.len() > 0 {
        law_only_the_expired_are_left_out(s.drop_last(), now);
    }
}

/// An outbox that is opened on a text holds the entries of its lines that have not expired, the
/// newest two thousand of them, oldest first.
pub proof fn law_opening_reads_the_lines(text: Seq<char>, now: u64)
    ensures
        ({
            let kept = lines_entries(lines_of(text)).filter(
                |e: EntryView| now < e.ts + 604_800_000,
            );
            opened(text, now) == if kept.len() > 2000 {
                kept.skip(kept.len() - 2000)
            } else {
                kept
            }
        }),
{
    law_only_the_expired_are_left_out(text_entries(text), now);
}

/// Every line is read by itself, and gives one entry or none: a line that cannot be read costs no
/// other its entry.
pub proof fn law_lines_are_read_one_by_one(a: Seq<Seq<char>>, line: Seq<char>, b: Seq<Seq<char>>)
    ensures
        lines_entries(a + b) == lines_entries(a) + lines_entries(b),
        lines_entries(seq![line]) == match line_entry(line) {
            Some(e) => seq![e],
            None => Seq::empty(),
        },
        lines_entries(a + seq![line] + b) == lines_entries(a) + match line_entry(line) {
            Some(e) => seq![e],
            None => Seq::empty(),
        } + lines_entries(b),
{
    let one = seq![line];
    assert(one.last() == line);
    assert(one.drop_last() =~= Seq::empty());
    assert(lines_entries(one.drop_last()) =~= Seq::empty());
    assert(lines_entries(one) =~= match line_entry(line) {
        Some(e) => seq![e],
        None => Seq::empty(),
    });
    lemma_lines_entries_append(a, b);
    lemma_lines_entries_append(a, one);
    lemma_lines_entries_append(a + one, b);
}

/// A line holds an entry exactly where it is a JSON object, or an array of the three values, with
/// an id that is a text, a time that is a number of 64 bits, and a frame: and that is the entry.
pub proof fn law_line_holds_what_it_says(line: Seq<char>, t: JsonTree, e: EntryView)
    requires
        trimmed(line).len() > 0,
        text_tree(line) == Some(t),
    ensures
        t is Obj ==> (line_entry(line) == Some(e) <==> {
            &&& t.get("event_id"@) == Some(JsonTree::Str(e.event_id))
            &&& t.get("ts"@) == Some(JsonTree::Int(e.ts as int))
            &&& t.get("frame"@) == Some(e.frame)
        }),
        t matches JsonTree::Arr(a) ==> (line_entry(line) == Some(e) <==> a =~= seq![
            JsonTree::Str(e.event_id),
            JsonTree::Int(e.ts as int),
            e.frame,
        ]),
        !(t is Obj) && !(t is Arr) ==> line_entry(line) is None,
{
    if let JsonTree::Arr(a) = t {
        reveal_strlit("event_id");
        reveal_strlit("ts");
        reveal_strlit("frame");
        assert("event_id"@.len() == 8 && "ts"@.len() == 2 && "frame"@.len() == 5);
        let names = ENTRY_MEMBERS@;
        assert(names[0]@ == "event_id"@ && names[1]@ == "ts"@ && names[2]@ == "frame"@);
        assert(names.len() == 3);
        if a.len() <= 3 {
            law_record_members_go_by_place(a, names, 0);
            law_record_members_go_by_place(a, names, 1);
            law_record_members_go_by_place(a, names, 2);
        }
        assert(as_record(t, names).get("frame"@) is Some ==> a.len() == 3);
        if line_entry(line) == Some(e) {
            assert(a =~= seq![JsonTree::Str(e.event_id), JsonTree::Int(e.ts as int), e.frame]);
        }
    }
}

/// A blank line holds no entry, and neither does one that is no JSON.
pub proof fn law_unreadable_lines_are_skipped(line: Seq<char>)
    ensures
        trimmed(line).len() == 0 ==> line_entry(line) is None,
        text_tree(line) is None ==> line_entry(line) is None,
{
}

/// An entry is written as its id, its time and its frame, and as nothing else; reading it gives
/// the entry.
pub proof fn law_entry_is_written_in_full(e: EntryView, k: Seq<char>)
    ensures
        e.tree().get("event_id"@) == Some(JsonTree::Str(e.event_id)),
        e.tree().get("ts"@) == Some(JsonTree::Int(e.ts as int)),
        e.tree().get("frame"@) == Some(e.frame),
        e.tree().get(k) is Some ==> k == "event_id"@ || k == "ts"@ || k == "frame"@,
        entry_of(e.tree()) == Some(e),
{
    broadcast use lemma_put_get;

    reveal_strlit("event_id");
    reveal_strlit("ts");
    reveal_strlit("frame");
    assert("event_id"@.len() == 8 && "ts"@.len() == 2 && "frame"@.len() == 5);
    lemma_entry_reads_back(e);
}

/// The text of an outbox is the lines of its entries, one after the other, each of them the
/// compact JSON of the entry and a line break.
pub proof fn law_text_is_the_lines_in_order(a: Seq<EntryView>, e: EntryView, b: Seq<EntryView>)
    ensures
        body(a + b) == body(a) + body(b),
        body(seq![e]) == tree_text(e.tree()).push('\n'),
        body(Seq::<EntryView>::empty()).len() == 0,
    decreases b.len(),
{
    reveal_strlit("\n");
    let one = seq![e];
    assert(one.last() == e);
    assert(one.drop_last() =~= Seq::empty());
    assert(body(one.drop_last()) =~= Seq::empty());
    assert(body(one) =~= e.line());
    assert(body(one) =~= tree_text(e.tree()).push('\n'));
    if b.len() == 0 {
        assert(a + b =~= a);
        assert(body(a) + body(b) =~= body(a));
    } else {
        law_text_is_the_lines_in_order(a, e, b.drop_last());
        assert((a + b).drop_last() =~= a + b.drop_last());
        assert((a + b).last() == b.last());
        assert(body(a + b) =~= body(a) + body(b));
    }
}

/// What is sent again is the frames of the entries, each as it went in, in the same order.
pub proof fn law_frames_are_sent_again_in_order(s: Seq<EntryView>, js: Seq<Json>, i: int)
    ensures
        frames(s).len() == s.len(),
        0 <= i < s.len() ==> frames(s)[i] == s[i].frame,
        json_views(js).len() == js.len(),
        0 <= i < js.len() ==> json_views(js)[i] == js[i]@,
{
}

/// An entry says what it holds.
pub proof fn law_entry_says_what_it_holds(e: Entry)
    ensures
        e@.event_id == e.event_id@,
        e@.ts == e.ts,
        e@.frame == e.frame@,
{
}

} // verus!
