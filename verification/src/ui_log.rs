//! The run-time log: entries, and a ring that keeps the newest of them.

use std::collections::VecDeque;
use vstd::prelude::*;
use crate::json::{lemma_put_get, Json, JsonTree};

verus! {

/// How urgent an entry is.
#[derive(Debug, Clone, Copy, PartialEq, Eq, Structural)]
pub enum AppLogLevel {
    Error,
    Warn,
    Info,
    Debug,
    Trace,
}

impl AppLogLevel {
    /// The level's name.
    pub open spec fn name(self) -> Seq<char> {
        match self {
            AppLogLevel::Error => "error"@,
            AppLogLevel::Warn => "warn"@,
            AppLogLevel::Info => "info"@,
            AppLogLevel::Debug => "debug"@,
            AppLogLevel::Trace => "trace"@,
        }
    }

    /// The level's name.
    pub fn as_str(&self) -> (r: &'static str)
        ensures
            r@ == self.name(),
    {
        match self {
            AppLogLevel::Error => "error",
            AppLogLevel::Warn => "warn",
            AppLogLevel::Info => "info",
            AppLogLevel::Debug => "debug",
            AppLogLevel::Trace => "trace",
        }
    }
}

/// Where an entry comes from: this program, or the sidecar's error stream.
#[derive(Debug, Clone, Copy, PartialEq, Eq, Structural)]
pub enum AppLogSource {
    Rust,
    Sidecar,
}

impl AppLogSource {
    /// The source's name.
    pub open spec fn name(self) -> Seq<char> {
        match self {
            AppLogSource::Rust => "rust"@,
            AppLogSource::Sidecar => "sidecar"@,
        }
    }

    /// The source's name.
    pub fn as_str(&self) -> (r: &'static str)
        ensures
            r@ == self.name(),
    {
        match self {
            AppLogSource::Rust => "rust",
            AppLogSource::Sidecar => "sidecar",
        }
    }
}

/// One entry of the log.
#[derive(Debug, Clone)]
pub struct AppLogEntry {
    /// When, in milliseconds since the epoch.
    pub ts: u64,
    pub level: AppLogLevel,
    pub source: AppLogSource,
    pub message: String,
}

/// What an entry says.
pub struct AppLogEntryView {
    pub ts: u64,
    pub level: AppLogLevel,
    pub source: AppLogSource,
    pub message: Seq<char>,
}

impl View for AppLogEntry {
    type V = AppLogEntryView;

    open spec fn view(&self) -> AppLogEntryView {
        AppLogEntryView {
            ts: self.ts,
            level: self.level,
            source: self.source,
            message: self.message@,
        }
    }
}

impl AppLogEntryView {
    /// The entry in JSON, as the front end reads it.
    pub open spec fn tree(self) -> JsonTree {
        JsonTree::object().put("ts"@, JsonTree::Int(self.ts as int)).put(
            "level"@,
            JsonTree::Str(self.level.name()),
        ).put("source"@, JsonTree::Str(self.source.name())).put(
            "message"@,
            JsonTree::Str(self.message),
        )
    }
}

impl AppLogEntry {
    /// Another entry that says the same.
    pub fn copy(&self) -> (r: AppLogEntry)
        ensures
            r@ == self@,
    {
        AppLogEntry {
            ts: self.ts,
            level: self.level,
            source: self.source,
            message: self.message.clone(),
        }
    }

    /// The entry in JSON.
    pub fn to_json(&self) -> (r: Json)
        ensures
            r@ == self@.tree(),
    {
        Json::object().put("ts", Json::Uint(self.ts)).put(
            "level",
            Json::text(self.level.as_str()),
        ).put("source", Json::text(self.source.as_str())).put(
            "message",
            Json::text(self.message.as_str()),
        )
    }
}

/// A log that keeps the newest entries.
pub struct LogRing {
    inner: VecDeque<AppLogEntry>,
    cap: usize,
}

/// What each entry of a sequence says.
pub open spec fn entries_view(s: Seq<AppLogEntry>) -> Seq<AppLogEntryView> {
    Seq::new(s.len(), |i: int| s[i]@)
}

/// The entries after one more: at capacity the oldest makes room.
pub open spec fn ring_push(
    s: Seq<AppLogEntryView>,
    cap: nat,
    e: AppLogEntryView,
) -> Seq<AppLogEntryView> {
    if s.len() >= cap && s.len() > 0 {
        s.drop_first().push(e)
    } else {
        s.push(e)
    }
}

/// The entries after a number of further ones.
pub open spec fn ring_push_all(
    s: Seq<AppLogEntryView>,
    cap: nat,
    es: Seq<AppLogEntryView>,
) -> Seq<AppLogEntryView>
    decreases es.len(),
{
    if es.len() == 0 {
        s
    } else {
        ring_push(ring_push_all(s, cap, es.drop_last()), cap, es.last())
    }
}

impl LogRing {
    /// The entries, oldest first.
    pub closed spec fn view(&self) -> Seq<AppLogEntryView> {
        entries_view(self.inner@)
    }

    /// How many entries are kept.
    pub closed spec fn capacity(&self) -> nat {
        self.cap as nat
    }

    /// An empty log that keeps `cap` entries.
    pub fn new(cap: usize) -> (r: LogRing)
        ensures
            r.view() == Seq::<AppLogEntryView>::empty(),
            r.capacity() == cap,
    {
        let r = LogRing { inner: VecDeque::new(), cap };
        assert(r.view() =~= Seq::<AppLogEntryView>::empty());
        r
    }

    /// Adds an entry.
    pub fn push(&mut self, entry: AppLogEntry)
        ensures
            final(self).capacity() == old(self).capacity(),
            final(self).view() == ring_push(old(self).view(), old(self).capacity(), entry@),
    {
        let ghost before = self.view();
        if self.inner.len() >= self.cap {
            let _ = self.inner.pop_front();
        }
        self.inner.push_back(entry);
        assert(self.view() =~= ring_push(before, self.capacity(), entry@));
    }

    /// The entries, oldest first.
    pub fn snapshot(&self) -> (r: Vec<AppLogEntry>)
        ensures
            entries_view(r@) == self.view(),
    {
        let mut out: Vec<AppLogEntry> = Vec::new();
        let mut i: usize = 0;
        while i < self.inner.len()
            invariant
                i <= self.inner@.len(),
                entries_view(out@) == self.view().take(i as int),
            decreases self.inner@.len() - i,
        {
            let ghost before = out@;
            let e = self.inner[i].copy();
            out.push(e);
            i = i + 1;
            assert(entries_view(out@) =~= entries_view(before).push(e@));
            assert(entries_view(out@) =~= self.view().take(i as int));
        }
        assert(self.view().take(i as int) =~= self.view());
        out
    }

    /// Forgets every entry.
    pub fn clear(&mut self)
        ensures
            final(self).capacity() == old(self).capacity(),
            final(self).view() == Seq::<AppLogEntryView>::empty(),
    {
        self.inner.clear();
        assert(self.view() =~= Seq::<AppLogEntryView>::empty());
    }
}

/// The log never outgrows its capacity, and it holds the newest entries in the order in
/// which they came.
pub proof fn law_ring_keeps_the_newest(cap: nat, es: Seq<AppLogEntryView>)
    requires
        cap > 0,
    ensures
        ring_push_all(Seq::empty(), cap, es).len() <= cap,
        ring_push_all(Seq::empty(), cap, es) == if es.len() <= cap {
            es
        } else {
            es.skip(es.len() - cap)
        },
    decreases es.len(),
{
    let all = ring_push_all(Seq::empty(), cap, es);
    if es.len() == 0 {
        assert(all =~= es);
    } else {
        law_ring_keeps_the_newest(cap, es.drop_last());
        if es.len() <= cap {
            assert(all =~= es);
        } else {
            assert(all =~= es.skip(es.len() - cap));
        }
    }
}

/// A point in time.
#[verifier::external_type_specification]
#[verifier::external_body]
pub struct ExSystemTime(std::time::SystemTime);

/// `std::time::SystemTime::now`. Nothing is claimed of the time.
#[verifier::external_body]
fn clock() -> (r: std::time::SystemTime) {
    std::time::SystemTime::now()
}

/// `std::time::SystemTime::duration_since` for `UNIX_EPOCH`, `None` for a time before it.
/// Nothing is claimed of the distance.
#[verifier::external_body]
fn after_epoch(t: std::time::SystemTime) -> (r: Option<std::time::Duration>) {
    t.duration_since(std::time::UNIX_EPOCH).ok()
}

/// `std::time::Duration::as_millis`. Nothing is claimed of the number.
#[verifier::external_body]
fn whole_millis(d: std::time::Duration) -> (r: u128) {
    d.as_millis()
}

/// The milliseconds since the epoch by the clock; `None` for a clock that is set before it.
fn millis_since_epoch() -> (r: Option<u128>) {
    match after_epoch(clock()) {
        Some(d) => Some(whole_millis(d)),
        None => None,
    }
}

/// The low 64 bits of a clock reading, and 0 for a clock that is set before the epoch.
pub fn clock_ms(reading: Option<u128>) -> (r: u64)
    ensures
        r == match reading {
            Some(ms) => (ms % 0x1_0000_0000_0000_0000) as int,
            None => 0,
        },
{
    match reading {
        Some(ms) => (ms % 0x1_0000_0000_0000_0000) as u64,
        None => 0,
    }
}

/// The time, in milliseconds since the epoch. Of the time itself nothing can be said.
pub fn now_ms() -> (r: u64)
    ensures
        exists|reading: Option<u128>| #[trigger] reading_ms(reading) == r,
{
    let reading = millis_since_epoch();
    let r = clock_ms(reading);
    assert(reading_ms(reading) == r);
    r
}

/// What a clock reading is taken for.
pub open spec fn reading_ms(reading: Option<u128>) -> int {
    match reading {
        Some(ms) => (ms % 0x1_0000_0000_0000_0000) as int,
        None => 0,
    }
}

/// The time, in seconds since the epoch.
pub fn now_secs() -> (r: u64)
    ensures
        exists|reading: Option<u128>| #[trigger] reading_ms(reading) / 1000 == r,
{
    let reading = millis_since_epoch();
    let r = clock_ms(reading) / 1000;
    assert(reading_ms(reading) / 1000 == r);
    r
}

/// An entry is shown with its time, its level, its source and its message, and nothing else.
pub proof fn law_entry_is_shown_in_full(e: AppLogEntryView, k: Seq<char>)
    ensures
        e.tree().get("ts"@) == Some(JsonTree::Int(e.ts as int)),
        e.tree().get("level"@) == Some(JsonTree::Str(e.level.name())),
        e.tree().get("source"@) == Some(JsonTree::Str(e.source.name())),
        e.tree().get("message"@) == Some(JsonTree::Str(e.message)),
        e.tree().get(k) is Some ==> k == "ts"@ || k == "level"@ || k == "source"@ || k
            == "message"@,
{
    broadcast use lemma_put_get;

    reveal_strlit("ts");
    reveal_strlit("level");
    reveal_strlit("source");
    reveal_strlit("message");
    assert("ts"@.len() == 2);
    assert("level"@.len() == 5);
    assert("source"@.len() == 6);
    assert("message"@.len() == 7);
}

/// A new entry is the last one, and at most the oldest makes room for it, where there is none left;
/// the others stay in their order.
pub proof fn law_ring_drops_the_oldest_only(
    s: Seq<AppLogEntryView>,
    cap: nat,
    e: AppLogEntryView,
    i: int,
)
    ensures
        ring_push(s, cap, e).len() > 0,
        ring_push(s, cap, e).last() == e,
        s.len() < cap ==> ring_push(s, cap, e).drop_last() == s,
        s.len() >= cap && s.len() > 0 ==> ring_push(s, cap, e).drop_last() == s.drop_first(),
        s.len() == 0 ==> ring_push(s, cap, e) == seq![e],
{
    assert(s.push(e).drop_last() =~= s);
    if s.len() > 0 {
        assert(s.drop_first().push(e).drop_last() =~= s.drop_first());
    } else {
        assert(s.push(e) =~= seq![e]);
    }
}

/// Each entry is shown as what it says, in order.
pub proof fn law_entries_are_shown_in_order(s: Seq<AppLogEntry>, i: int)
    ensures
        entries_view(s).len() == s.len(),
        0 <= i < s.len() ==> entries_view(s)[i].ts == s[i].ts && entries_view(s)[i].level
            == s[i].level && entries_view(s)[i].source == s[i].source && entries_view(s)[i].message
            == s[i].message@,
{
}

/// A reading of the clock that 64 bits hold is taken as it is.
pub proof fn law_readings_are_taken_as_they_are(ms: u128)
    ensures
        ms <= u64::MAX ==> reading_ms(Some(ms)) == ms,
        reading_ms(None) == 0,
        0 <= reading_ms(Some(ms)) <= u64::MAX,
{
}

} // verus!
