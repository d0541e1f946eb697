//! The report on how the sidecar was found: one file for each start.

use vstd::prelude::*;
use crate::calendar::{
    date_digits, date_of, date_text, law_arithmetic_follows_the_calendar,
    law_date_is_written_in_digits, law_time_is_written_in_digits, law_year_is_not_before_the_epoch,
    time_digits, time_text,
};
use crate::text::{join3, number_of};

verus! {

/// A time as it stands in the report: `YYYY-MM-DD HH:MM:SS`.
pub open spec fn stamp_text(ts_ms: u64) -> Seq<char> {
    date_text(date_of(ts_ms as int / 1000 / 86400), "-"@) + " "@ + time_text(
        ((ts_ms / 1000) % 86400) as nat,
    )
}

/// A time as it stands in the report.
pub fn stamp(ts_ms: u64) -> (r: String)
    ensures
        r@ == stamp_text(ts_ms),
{
    let day = date_digits((ts_ms / 1000 / 86400) as i64, "-");
    let time = time_digits((ts_ms / 1000) % 86400);
    join3(day.as_str(), " ", time.as_str())
}

/// A line of the report.
pub open spec fn report_line(ts_ms: u64, msg: Seq<char>) -> Seq<char> {
    "["@ + stamp_text(ts_ms) + "] [probe] "@ + msg + "\n"@
}

/// A line of the report, to be appended.
pub fn probe_line(ts_ms: u64, msg: &str) -> (r: String)
    ensures
        r@ == report_line(ts_ms, msg@),
{
    let head = join3("[", stamp(ts_ms).as_str(), "] [probe] ");
    join3(head.as_str(), msg, "\n")
}

/// The first line of a report, which takes the place of the last start's.
pub fn start_report(ts_ms: u64) -> (r: String)
    ensures
        r@ == report_line(ts_ms, "===== 启动 ====="@),
{
    probe_line(ts_ms, "===== 启动 =====")
}

/// A time stands in the report as its date and its time of the day: reading the digits gives the
/// date of its day and the seconds of the day. It holds for the years of four digits.
pub proof fn law_report_tells_the_time(ts_ms: u64)
    requires
        date_of(ts_ms as int / 86_400_000).year <= 9999,
    ensures
        ({
            let t = stamp_text(ts_ms);
            let d = date_of(ts_ms as int / 86_400_000);
            &&& t.len() == 19
            &&& number_of(t.subrange(0, 4)) == d.year
            &&& t[4] == '-'
            &&& number_of(t.subrange(5, 7)) == d.month
            &&& t[7] == '-'
            &&& number_of(t.subrange(8, 10)) == d.day
            &&& t[10] == ' '
            &&& number_of(t.subrange(11, 13)) * 3600 + number_of(t.subrange(14, 16)) * 60
                + number_of(t.subrange(17, 19)) == ts_ms as int / 1000 % 86400
            &&& t[13] == ':' && t[16] == ':'
        }),
{
    reveal_strlit("-");
    reveal_strlit(" ");
    let n = ts_ms as int / 1000 / 86400;
    assert(n == ts_ms as int / 86_400_000);
    let d = date_of(n);
    let seconds = ((ts_ms / 1000) % 86400) as nat;
    law_arithmetic_follows_the_calendar(n);
    law_year_is_not_before_the_epoch(n);
    law_date_is_written_in_digits(d, "-"@);
    law_time_is_written_in_digits(seconds);
    let a = date_text(d, "-"@);
    let b = time_text(seconds);
    let t = stamp_text(ts_ms);
    assert(t =~= a + " "@ + b);
    assert(t.subrange(0, 4) =~= a.subrange(0, 4));
    assert(a.subrange(4, 5)[0] == a[4]);
    assert(t.subrange(5, 7) =~= a.subrange(5, 7));
    assert(a.subrange(7, 8)[0] == a[7]);
    assert(t.subrange(8, 10) =~= a.subrange(8, 10));
    assert(t.subrange(11, 13) =~= b.subrange(0, 2));
    assert(t.subrange(14, 16) =~= b.subrange(3, 5));
    assert(t.subrange(17, 19) =~= b.subrange(6, 8));
    assert(t[13] == b[2] && t[16] == b[5]);
}

/// A line of the report begins with its time and ends with its message and a line break.
pub proof fn law_report_line_ends_with_its_message(ts_ms: u64, msg: Seq<char>)
    ensures
        ({
            let t = report_line(ts_ms, msg);
            let n = stamp_text(ts_ms).len() as int;
            &&& t.len() == n + 12 + msg.len()
            &&& t[0] == '['
            &&& t.subrange(1, 1 + n) == stamp_text(ts_ms)
            &&& t.subrange(1 + n, 11 + n) == "] [probe] "@
            &&& t.subrange(11 + n, 11 + n + msg.len()) == msg
            &&& t.last() == '\n'
        }),
{
    reveal_strlit("[");
    reveal_strlit("] [probe] ");
    reveal_strlit("\n");
    let t = report_line(ts_ms, msg);
    let n = stamp_text(ts_ms).len() as int;
    assert(t.subrange(1, 1 + n) =~= stamp_text(ts_ms));
    assert(t.subrange(1 + n, 11 + n) =~= "] [probe] "@);
    assert(t.subrange(11 + n, 11 + n + msg.len()) =~= msg);
}

} // verus!
