//! The log on disk: one file a day, kept for a week.
//!
//! A sink that cannot open its file, or cannot write to it, is closed for good: the log never
//! stands in anybody's way.

use vstd::prelude::*;
use vstd::string::*;
use crate::calendar::{
    date_digits, date_of, date_text, days_from_civil, law_arithmetic_follows_the_calendar,
    time_digits, time_text, Date,
};
use crate::text::{
    chars_of, decimal, is_digit, join2, join3, lemma_padded, number_of, opt_text, padded,
    same_text, text_of,
};
use crate::ui_log::{AppLogEntry, AppLogEntryView};

verus! {

/// How many days a file is kept.
pub const LOG_KEEP_DAYS: u64 = 7;

/// The number of the day of a second.
pub fn day_number(epoch_secs: u64) -> (r: i64)
    ensures
        r == epoch_secs / 86400,
{
    (epoch_secs / 86400) as i64
}

/// The date of a day as it stands in a file's name.
pub open spec fn day_digits(n: int) -> Seq<char> {
    date_text(date_of(n), ""@)
}

/// The date of a day as it stands in a file's name: `YYYYMMDD`. Days before 1970 have
/// negative numbers.
pub fn day_stamp_from_number(n: i64) -> (r: String)
    ensures
        r@ == day_digits(n as int),
{
    date_digits(n, "")
}

/// The date of a second as it stands in a file's name.
pub fn day_stamp(epoch_secs: u64) -> (r: String)
    ensures
        r@ == day_digits(epoch_secs as int / 86400),
{
    day_stamp_from_number(day_number(epoch_secs))
}

/// The time of the day of a millisecond: `HH:MM:SS`.
pub fn time_of_day(ts_ms: u64) -> (r: String)
    ensures
        r@ == time_text(((ts_ms / 1000) % 86400) as nat),
{
    time_digits((ts_ms / 1000) % 86400)
}

/// The line of an entry: `[date time] [source] [level] message`.
pub open spec fn line_of(e: AppLogEntryView) -> Seq<char> {
    "["@ + day_digits(e.ts as int / 1000 / 86400) + " "@ + time_text(
        ((e.ts / 1000) % 86400) as nat,
    ) + "] ["@ + e.source.name() + "] ["@ + e.level.name() + "] "@ + e.message + "\n"@
}

/// The line of an entry.
pub fn format_line(e: &AppLogEntry) -> (r: String)
    ensures
        r@ == line_of(e@),
{
    let mut s = join2("[", day_stamp(e.ts / 1000).as_str());
    s.append(" ");
    s.append(time_of_day(e.ts).as_str());
    s.append("] [");
    s.append(e.source.as_str());
    s.append("] [");
    s.append(e.level.as_str());
    s.append("] ");
    s.append(e.message.as_str());
    s.append("\n");
    s
}

/// The name of a day's file.
pub open spec fn file_name_of(day: Seq<char>) -> Seq<char> {
    "app-"@ + day + ".log"@
}

/// The log of a directory.
pub struct FileSink {
    dir: String,
    day: Option<String>,
    dead: bool,
}

/// What a sink knows.
pub struct FileSinkState {
    pub dir: Seq<char>,
    /// The day whose file is open.
    pub day: Option<Seq<char>>,
    /// Whether the sink is closed for good.
    pub dead: bool,
}

/// What writing an entry calls for.
pub enum SinkPlan {
    /// Nothing: the sink is closed, or not there.
    Skip,
    /// Append to the file that is open.
    Append(String),
    /// Open the day's file first, and say what came of it.
    Open { file_name: String, day: String, line: String },
}

/// What a plan says.
pub enum SinkPlanView {
    Skip,
    Append(Seq<char>),
    Open { file_name: Seq<char>, day: Seq<char>, line: Seq<char> },
}

impl View for SinkPlan {
    type V = SinkPlanView;

    open spec fn view(&self) -> SinkPlanView {
        match self {
            SinkPlan::Skip => SinkPlanView::Skip,
            SinkPlan::Append(s) => SinkPlanView::Append(s@),
            SinkPlan::Open { file_name, day, line } => SinkPlanView::Open {
                file_name: file_name@,
                day: day@,
                line: line@,
            },
        }
    }
}

/// What came of opening a day's file.
#[derive(Debug, Clone, Copy, PartialEq, Eq, Structural)]
pub enum OpenOutcome {
    /// It is open; whether it is empty.
    Opened { empty: bool },
    /// Its directory could not be made.
    DirFailed,
    /// It could not be opened.
    OpenFailed,
}

/// What writing an entry calls for.
pub open spec fn write_plan(s: FileSinkState, e: AppLogEntryView) -> SinkPlanView {
    let day = day_digits(e.ts as int / 1000 / 86400);
    if s.dead {
        SinkPlanView::Skip
    } else if s.day == Some(day) {
        SinkPlanView::Append(line_of(e))
    } else {
        SinkPlanView::Open { file_name: file_name_of(day), day, line: line_of(e) }
    }
}

/// A sink that is closed for good.
pub open spec fn shut(s: FileSinkState) -> FileSinkState {
    FileSinkState { day: None, dead: true, ..s }
}

/// The sink once a day's file has been opened, or could not be, and the text to write: a
/// new file begins with a mark that its text is Unicode.
pub open spec fn after_open(
    s: FileSinkState,
    day: Seq<char>,
    line: Seq<char>,
    outcome: OpenOutcome,
) -> (FileSinkState, Option<Seq<char>>) {
    match outcome {
        OpenOutcome::Opened { empty } => (
            FileSinkState { day: Some(day), ..s },
            Some(
                if empty {
                    "\u{feff}"@ + line
                } else {
                    line
                },
            ),
        ),
        _ => (shut(s), None),
    }
}

impl FileSink {
    /// What the sink knows.
    pub closed spec fn view(&self) -> FileSinkState {
        FileSinkState { dir: self.dir@, day: opt_text(self.day), dead: self.dead }
    }

    /// A log in a directory; no file is open yet.
    pub fn new(dir: String) -> (r: FileSink)
        ensures
            r.view() == (FileSinkState { dir: dir@, day: None, dead: false }),
    {
        FileSink { dir, day: None, dead: false }
    }

    /// The directory.
    pub fn dir(&self) -> (r: &str)
        ensures
            r@ == self.view().dir,
    {
        self.dir.as_str()
    }

    /// Whether the sink is closed for good.
    pub fn is_dead(&self) -> (r: bool)
        ensures
            r == self.view().dead,
    {
        self.dead
    }

    /// What writing an entry calls for.
    pub fn write(&self, entry: &AppLogEntry) -> (r: SinkPlan)
        ensures
            r@ == write_plan(self.view(), entry@),
    {
        if self.dead {
            return SinkPlan::Skip;
        }
        let day = day_stamp(entry.ts / 1000);
        let line = format_line(entry);
        let open = match &self.day {
            Some(d) => same_text(d.as_str(), day.as_str()),
            None => false,
        };
        if open {
            SinkPlan::Append(line)
        } else {
            let file_name = join3("app-", day.as_str(), ".log");
            SinkPlan::Open { file_name, day, line }
        }
    }

    /// The day's file has been opened, or could not be: the text to write, if any. After a
    /// failure the sink is closed for good.
    pub fn opened(&mut self, day: String, line: String, outcome: OpenOutcome) -> (r: Option<String>)
        ensures
            (final(self).view(), opt_text(r)) == after_open(
                old(self).view(),
                day@,
                line@,
                outcome,
            ),
    {
        match outcome {
            OpenOutcome::Opened { empty } => {
                self.day = Some(day);
                if empty {
                    Some(join2("\u{feff}", line.as_str()))
                } else {
                    Some(line)
                }
            },
            _ => {
                self.append_failed();
                None
            },
        }
    }

    /// A text could not be written to the file: the sink is closed for good.
    pub fn append_failed(&mut self)
        ensures
            final(self).view() == shut(old(self).view()),
    {
        self.day = None;
        self.dead = true;
    }
}

/// Whatever fails, be it the making of the directory, the opening of the file or the writing
/// of a text, closes the sink; and a sink that is closed writes nothing any more, whatever is
/// to be written.
pub proof fn law_failed_sink_stays_closed(
    s: FileSinkState,
    day: Seq<char>,
    line: Seq<char>,
    outcome: OpenOutcome,
    e: AppLogEntryView,
)
    requires
        outcome == OpenOutcome::DirFailed || outcome == OpenOutcome::OpenFailed,
    ensures
        after_open(s, day, line, outcome) == (shut(s), None::<Seq<char>>),
        shut(s).dead,
        shut(shut(s)) == shut(s),
        s.dead ==> write_plan(s, e) is Skip,
{
}

/// An entry of the day whose file was opened is appended to it; one of another day has
/// another file opened.
pub proof fn law_sink_changes_files_with_the_day(
    s: FileSinkState,
    day: Seq<char>,
    line: Seq<char>,
    empty: bool,
    e: AppLogEntryView,
)
    requires
        !s.dead,
    ensures
        ({
            let after = after_open(s, day, line, OpenOutcome::Opened { empty }).0;
            write_plan(after, e) is Append <==> day_digits(e.ts as int / 1000 / 86400) == day
        }),
{
}

/// Sets up the log of the sidecar's lines, the first time that it is given a directory.
pub fn install_sidecar_file_sink(slot: &mut Option<FileSink>, dir: Option<String>)
    ensures
        match (*old(slot), dir) {
            (None, Some(d)) => *final(slot) matches Some(s) && s.view() == (FileSinkState {
                dir: d@,
                day: None,
                dead: false,
            }),
            _ => *final(slot) == *old(slot),
        },
{
    if slot.is_none() {
        if let Some(d) = dir {
            *slot = Some(FileSink::new(d));
        }
    }
}

/// What writing a line of the sidecar calls for: nothing where its log is not set up.
pub fn write_sidecar_entry(slot: &Option<FileSink>, entry: &AppLogEntry) -> (r: SinkPlan)
    ensures
        r@ == match slot {
            Some(s) => write_plan(s.view(), entry@),
            None => SinkPlanView::Skip,
        },
{
    match slot {
        Some(s) => s.write(entry),
        None => SinkPlan::Skip,
    }
}

/// Whether a name is that of a day's file: `app-`, eight digits, `.log`.
pub open spec fn is_log_name(name: Seq<char>) -> bool {
    &&& name.len() == 16
    &&& name.take(4) == "app-"@
    &&& name.skip(12) == ".log"@
    &&& forall|i: int| 4 <= i < 12 ==> is_digit(#[trigger] name[i])
}

/// The date in a file's name.
pub open spec fn log_date(name: Seq<char>) -> Date {
    Date {
        year: number_of(name.subrange(4, 8)),
        month: number_of(name.subrange(8, 10)),
        day: number_of(name.subrange(10, 12)),
    }
}

/// Whether a file is to be removed on a day: it is a day's file, and its day is more than
/// the days to keep ago. The day is that of its name, not of its last change.
pub open spec fn stale(name: Seq<char>, today: int, keep_days: int) -> bool {
    &&& is_log_name(name)
    &&& log_date(name).year > 0
    &&& log_date(name).month > 0
    &&& log_date(name).index() < today - keep_days
}

/// The number that the digits at some places write.
fn number_at(chars: &Vec<char>, from: usize, to: usize) -> (r: u64)
    requires
        from <= to <= chars@.len(),
        to - from <= 4,
        forall|i: int| from <= i < to ==> is_digit(#[trigger] chars@[i]),
    ensures
        r == number_of(chars@.subrange(from as int, to as int)),
        r <= 9999,
        to - from <= 2 ==> r <= 99,
{
    let mut n: u64 = 0;
    let mut i: usize = from;
    let mut limit: u64 = 1;
    assert(chars@.subrange(from as int, from as int) =~= Seq::empty());
    while i < to
        invariant
            from <= i <= to <= chars@.len(),
            to - from <= 4,
            forall|i: int| from <= i < to ==> is_digit(#[trigger] chars@[i]),
            n == number_of(chars@.subrange(from as int, i as int)),
            n < limit,
            i == from ==> limit == 1,
            i == from + 1 ==> limit == 10,
            i == from + 2 ==> limit == 100,
            i == from + 3 ==> limit == 1000,
            i == from + 4 ==> limit == 10000,
        decreases to - i,
    {
        let ghost upto = chars@.subrange(from as int, i as int + 1);
        assert(upto.drop_last() =~= chars@.subrange(from as int, i as int));
        let c = chars[i];
        let v: u64 = (c as u32 - '0' as u32) as u64;
        n = n * 10 + v;
        limit = limit * 10;
        i = i + 1;
    }
    n
}

/// Whether a file is to be removed on a day.
pub fn is_stale_log(name: &str, today: i64, keep_days: u64) -> (r: bool)
    ensures
        r == stale(name@, today as int, keep_days as int),
{
    let chars = chars_of(name);
    if chars.len() != 16 {
        return false;
    }
    let head = text_of(&chars, 0, 4);
    let tail = text_of(&chars, 12, 16);
    assert(head@ =~= name@.take(4));
    assert(tail@ =~= name@.skip(12));
    if !same_text(head.as_str(), "app-") || !same_text(tail.as_str(), ".log") {
        return false;
    }
    let mut i: usize = 4;
    while i < 12
        invariant
            4 <= i <= 12,
            chars@.len() == 16,
            chars@ == name@,
            forall|k: int| 4 <= k < i ==> is_digit(#[trigger] chars@[k]),
        decreases 12 - i,
    {
        let c = chars[i];
        if c < '0' || c > '9' {
            assert(!is_digit(name@[i as int]));
            return false;
        }
        i = i + 1;
    }
    let year = number_at(&chars, 4, 8);
    let month = number_at(&chars, 8, 10);
    let day = number_at(&chars, 10, 12);
    if year == 0 || month == 0 {
        return false;
    }
    let days = days_from_civil(year, month, day);
    (days as i128) + (keep_days as i128) < today as i128
}

/// Whether files are to be removed, given their names.
pub fn cleanup_old_logs(names: &Vec<String>, today: i64, keep_days: u64) -> (r: Vec<bool>)
    ensures
        r@ == Seq::new(
            names@.len(),
            |i: int| stale(names@[i]@, today as int, keep_days as int),
        ),
{
    let mut out: Vec<bool> = Vec::new();
    let mut i: usize = 0;
    let ghost all = Seq::new(
        names@.len(),
        |i: int| stale(names@[i]@, today as int, keep_days as int),
    );
    while i < names.len()
        invariant
            i <= names@.len(),
            all == Seq::new(
                names@.len(),
                |i: int| stale(names@[i]@, today as int, keep_days as int),
            ),
            out@ == all.take(i as int),
        decreases names.len() - i,
    {
        out.push(is_stale_log(names[i].as_str(), today, keep_days));
        i = i + 1;
        assert(out@ =~= all.take(i as int));
    }
    assert(all.take(i as int) =~= all);
    out
}

/// A file is removed exactly when its day is more than the days to keep ago: the name that a
/// day's file is given is understood by the clearing. It holds for the years that have four
/// digits, from the year 1 on.
pub proof fn law_old_files_are_cleared(n: int, today: int, keep_days: int)
    requires
        1 <= date_of(n).year <= 9999,
    ensures
        is_log_name(file_name_of(day_digits(n))),
        log_date(file_name_of(day_digits(n))) == date_of(n),
        stale(file_name_of(day_digits(n)), today, keep_days) <==> n < today - keep_days,
{
    law_arithmetic_follows_the_calendar(n);
    let d = date_of(n);
    reveal_with_fuel(decimal, 5);
    lemma_padded(d.year as nat, 4);
    lemma_padded(d.month as nat, 2);
    lemma_padded(d.day as nat, 2);
    reveal_strlit("");
    reveal_strlit("app-");
    reveal_strlit(".log");
    let y = padded(d.year as nat, 4);
    let m = padded(d.month as nat, 2);
    let dd = padded(d.day as nat, 2);
    let name = file_name_of(day_digits(n));
    assert(day_digits(n) =~= y + m + dd);
    assert(name =~= "app-"@ + y + m + dd + ".log"@);
    assert(name.len() == 16);
    assert(name.take(4) =~= "app-"@);
    assert(name.skip(12) =~= ".log"@);
    assert(name.subrange(4, 8) =~= y);
    assert(name.subrange(8, 10) =~= m);
    assert(name.subrange(10, 12) =~= dd);
    assert forall|i: int| 4 <= i < 12 implies is_digit(#[trigger] name[i]) by {
        if i < 8 {
            assert(name[i] == y[i - 4]);
        } else if i < 10 {
            assert(name[i] == m[i - 8]);
        } else {
            assert(name[i] == dd[i - 10]);
        }
    }
}

/// The line of an entry has its day, as the name of its file has it, its time of the day, its
/// source, its level and its message, in this order, and ends with a line break.
pub proof fn law_line_tells_the_entry(e: AppLogEntryView)
    ensures
        ({
            let t = line_of(e);
            let day = day_digits(e.ts as int / 86_400_000);
            let time = time_text((e.ts as int / 1000 % 86400) as nat);
            let a = 1 + day.len() as int;
            let b = a + 1 + time.len();
            let c = b + 3 + e.source.name().len();
            let d = c + 3 + e.level.name().len();
            &&& t.len() == d + 3 + e.message.len()
            &&& t[0] == '['
            &&& t.subrange(1, a) == day
            &&& t[a] == ' '
            &&& t.subrange(a + 1, b) == time
            &&& t.subrange(b, b + 3) == "] ["@
            &&& t.subrange(b + 3, c) == e.source.name()
            &&& t.subrange(c, c + 3) == "] ["@
            &&& t.subrange(c + 3, d) == e.level.name()
            &&& t.subrange(d, d + 2) == "] "@
            &&& t.subrange(d + 2, d + 2 + e.message.len()) == e.message
            &&& t.last() == '\n'
        }),
{
    reveal_strlit("[");
    reveal_strlit(" ");
    reveal_strlit("] [");
    reveal_strlit("] ");
    reveal_strlit("\n");
    let t = line_of(e);
    assert(e.ts as int / 86_400_000 == e.ts as int / 1000 / 86400);
    let day = day_digits(e.ts as int / 86_400_000);
    let time = time_text((e.ts as int / 1000 % 86400) as nat);
    let a = 1 + day.len() as int;
    let b = a + 1 + time.len();
    let c = b + 3 + e.source.name().len();
    let d = c + 3 + e.level.name().len();
    assert(t =~= "["@ + day + " "@ + time + "] ["@ + e.source.name() + "] ["@ + e.level.name()
        + "] "@ + e.message + "\n"@);
    assert(t.subrange(1, a) =~= day);
    assert(t.subrange(a + 1, b) =~= time);
    assert(t.subrange(b, b + 3) =~= "] ["@);
    assert(t.subrange(b + 3, c) =~= e.source.name());
    assert(t.subrange(c, c + 3) =~= "] ["@);
    assert(t.subrange(c + 3, d) =~= e.level.name());
    assert(t.subrange(d, d + 2) =~= "] "@);
    assert(t.subrange(d + 2, d + 2 + e.message.len()) =~= e.message);
}

/// An entry is written to the file of its own day, as its line: to the one that is open where it is
/// that day's, to that day's once it has been opened otherwise. A sink that is closed writes
/// nothing.
pub proof fn law_entries_go_to_the_file_of_their_day(s: FileSinkState, e: AppLogEntryView)
    ensures
        ({
            let day = day_digits(e.ts as int / 86_400_000);
            let plan = write_plan(s, e);
            &&& s.dead ==> plan is Skip
            &&& !s.dead && s.day == Some(day) ==> plan == SinkPlanView::Append(line_of(e))
            &&& !s.dead && s.day != Some(day) ==> (plan matches SinkPlanView::Open {
                file_name,
                day: opened,
                line,
            } && file_name == "app-"@ + day + ".log"@ && opened == day && line == line_of(e))
        }),
{
    assert(e.ts as int / 86_400_000 == e.ts as int / 1000 / 86400);
}

/// What is written to a file that has just been opened is the line, behind the mark that the text
/// is Unicode where the file is empty; the file stays open for its day.
pub proof fn law_new_files_begin_with_a_mark(
    s: FileSinkState,
    day: Seq<char>,
    line: Seq<char>,
    outcome: OpenOutcome,
)
    ensures
        ({
            let (t, text) = after_open(s, day, line, outcome);
            match outcome {
                OpenOutcome::Opened { empty } => {
                    &&& t.day == Some(day) && t.dead == s.dead && t.dir == s.dir
                    &&& empty ==> (text matches Some(w) && w.len() == line.len() + 1 && w[0]
                        == '\u{feff}' && w.skip(1) == line)
                    &&& !empty ==> text == Some(line)
                },
                _ => t.dead && t.day is None && t.dir == s.dir && text is None,
            }
        }),
        shut(s).dead && shut(s).day is None && shut(s).dir == s.dir,
{
    reveal_strlit("\u{feff}");
    assert(("\u{feff}"@ + line).skip(1) =~= line);
}

/// Only files whose names are those of a day's file are ever removed: `app-`, eight digits, `.log`.
/// The digits are those of the year, the month and the day.
pub proof fn law_other_files_are_left_alone(name: Seq<char>, today: int, keep_days: int)
    requires
        stale(name, today, keep_days),
    ensures
        name.len() == 16,
        name.take(4) == "app-"@,
        name.skip(12) == ".log"@,
        forall|i: int| 4 <= i < 12 ==> 48 <= (#[trigger] name[i]) as int <= 57,
        (Date {
            year: number_of(name.subrange(4, 8)),
            month: number_of(name.subrange(8, 10)),
            day: number_of(name.subrange(10, 12)),
        }).index() < today - keep_days,
        number_of(name.subrange(4, 8)) > 0,
        number_of(name.subrange(8, 10)) > 0,
{
}

/// A file is removed on a day on which it is older than the days to keep, and on every later one;
/// keeping longer removes no more.
pub proof fn law_clearing_goes_by_age(name: Seq<char>, today: int, later: int, keep: int, longer: int)
    requires
        today <= later,
        keep <= longer,
    ensures
        stale(name, today, keep) ==> stale(name, later, keep),
        stale(name, today, longer) ==> stale(name, today, keep),
{
}

/// A plan says what it holds.
pub proof fn law_plan_says_what_it_holds(file_name: String, day: String, line: String)
    ensures
        (SinkPlan::Open { file_name, day, line })@ == (SinkPlanView::Open {
            file_name: file_name@,
            day: day@,
            line: line@,
        }),
        SinkPlan::Append(line)@ == SinkPlanView::Append(line@),
        SinkPlan::Skip@ is Skip,
        LOG_KEEP_DAYS == 7,
{
}

} // verus!
