//! The Gregorian calendar: days counted from the first of January 1970, forwards and
//! backwards.

use vstd::prelude::*;
use vstd::string::*;
use crate::text::{
    decimal, join3, lemma_padded, number_of, padded, padded_text, signed_padded, signed_padded_text,
};

verus! {

/// A date.
pub struct Date {
    pub year: int,
    pub month: int,
    pub day: int,
}

/// Whether a year has a leap day.
pub open spec fn leap(year: int) -> bool {
    year % 4 == 0 && (year % 100 != 0 || year % 400 == 0)
}

/// How many days a month has.
pub open spec fn month_len(year: int, month: int) -> int {
    if month == 2 {
        if leap(year) {
            29
        } else {
            28
        }
    } else if month == 4 || month == 6 || month == 9 || month == 11 {
        30
    } else {
        31
    }
}

impl Date {
    /// Whether the date exists.
    pub open spec fn valid(self) -> bool {
        1 <= self.month <= 12 && 1 <= self.day <= month_len(self.year, self.month)
    }

    /// The day after.
    pub open spec fn next(self) -> Date {
        if self.day < month_len(self.year, self.month) {
            Date { day: self.day + 1, ..self }
        } else if self.month < 12 {
            Date { month: self.month + 1, day: 1, ..self }
        } else {
            Date { year: self.year + 1, month: 1, day: 1 }
        }
    }

    /// The day before.
    pub open spec fn prev(self) -> Date {
        if self.day > 1 {
            Date { day: self.day - 1, ..self }
        } else if self.month > 1 {
            Date { month: self.month - 1, day: month_len(self.year, self.month - 1), ..self }
        } else {
            Date { year: self.year - 1, month: 12, day: 31 }
        }
    }

    /// The number of the day, by arithmetic: years are counted from March, so that the leap
    /// day is the last of its year.
    pub open spec fn index(self) -> int {
        let y = if self.month <= 2 {
            self.year - 1
        } else {
            self.year
        };
        let m = if self.month > 2 {
            self.month - 3
        } else {
            self.month + 9
        };
        365 * y + y / 4 - y / 100 + y / 400 + (153 * m + 2) / 5 + self.day - 1 - 719468
    }
}

/// The date of a day: the first of January 1970 is day 0, every later day follows the one
/// before it, and every earlier day precedes the one after it.
pub open spec fn date_of(n: int) -> Date
    decreases
            if n < 0 {
                -n
            } else {
                n
            },
{
    if n == 0 {
        Date { year: 1970, month: 1, day: 1 }
    } else if n > 0 {
        date_of(n - 1).next()
    } else {
        date_of(n + 1).prev()
    }
}

/// Where a day lies: its era of four hundred years, the century in the era, the span of
/// four years in the century, the year in the span, the day in the year. Years begin in
/// March; the last year of a span, and of an era, may have a day more.
pub struct Place {
    pub era: int,
    pub century: int,
    pub span: int,
    pub year: int,
    pub day: int,
}

/// Where a day lies, counted from the first of March of the year 0.
pub open spec fn place(z: int) -> Place {
    let doe = z % 146097;
    let century = if doe / 36524 > 3 {
        3
    } else {
        doe / 36524
    };
    let r1 = doe - 36524 * century;
    let span = r1 / 1461;
    let r2 = r1 - 1461 * span;
    let year = if r2 / 365 > 3 {
        3
    } else {
        r2 / 365
    };
    Place { era: z / 146097, century, span, year, day: r2 - 365 * year }
}

impl Place {
    /// The year, from March on.
    pub open spec fn full_year(self) -> int {
        400 * self.era + 100 * self.century + 4 * self.span + self.year
    }

    /// The parts are within their bounds, and only a year that ends in a leap day has a day
    /// more.
    pub open spec fn proper(self) -> bool {
        &&& 0 <= self.century <= 3
        &&& 0 <= self.span <= 24
        &&& 0 <= self.year <= 3
        &&& 0 <= self.day <= 365
        &&& self.day == 365 ==> self.year == 3 && (self.span == 24 ==> self.century == 3)
    }

    /// The number of the day.
    pub open spec fn count(self) -> int {
        146097 * self.era + 36524 * self.century + 1461 * self.span + 365 * self.year + self.day
    }
}

/// The date of a day of a year that begins in March.
pub open spec fn march_date(yy: int, doy: int) -> Date {
    let mp = (5 * doy + 2) / 153;
    let month = if mp < 10 {
        mp + 3
    } else {
        mp - 9
    };
    Date {
        year: if month <= 2 {
            yy + 1
        } else {
            yy
        },
        month,
        day: doy - (153 * mp + 2) / 5 + 1,
    }
}

/// The date of a day, by arithmetic.
pub open spec fn civil(n: int) -> Date {
    let p = place(n + 719468);
    march_date(p.full_year(), p.day)
}

/// A place is proper, and its number is the day's.
proof fn lemma_place(z: int)
    ensures
        place(z).proper(),
        place(z).count() == z,
{
    let doe = z % 146097;
    let p = place(z);
    let r1 = doe - 36524 * p.century;
    assert(0 <= r1 <= 36524 && (p.century < 3 ==> r1 < 36524));
    let r2 = r1 - 1461 * p.span;
    assert(0 <= r2 <= 1460);
    if p.day == 365 {
        assert(r2 == 1460);
    }
}

/// A proper place is where its day lies.
proof fn lemma_place_unique(p: Place)
    requires
        p.proper(),
    ensures
        place(p.count()) == p,
{
    let z = p.count();
    let doe = 36524 * p.century + 1461 * p.span + 365 * p.year + p.day;
    let r1 = 1461 * p.span + 365 * p.year + p.day;
    let r2 = 365 * p.year + p.day;
    assert(0 <= r2 <= 1460);
    assert(0 <= r1 <= 36524 && (p.century < 3 ==> r1 < 36524));
    assert(0 <= doe < 146097);
    assert(z / 146097 == p.era && z % 146097 == doe);
    let q = place(z);
    assert(q.century == p.century);
    assert(r1 / 1461 == p.span);
    assert(q.year == p.year);
}

/// The day that a year has more is a leap day.
proof fn lemma_last_day_is_leap(p: Place)
    requires
        p.proper(),
        p.day == 365,
    ensures
        leap(p.full_year() + 1),
{
    let y = p.full_year() + 1;
    if p.span == 24 {
        assert(y == 400 * (p.era + 1));
    } else {
        assert(y == 400 * p.era + 100 * p.century + 4 * (p.span + 1));
    }
}

/// The years of a place, divided.
proof fn lemma_year_divisions(p: Place)
    requires
        p.proper(),
    ensures
        p.full_year() / 4 == 100 * p.era + 25 * p.century + p.span,
        p.full_year() / 100 == 4 * p.era + p.century,
        p.full_year() / 400 == p.era,
{
}

/// The place of a day of a year.
pub open spec fn year_place(yy: int, doy: int) -> Place {
    let r = yy % 400;
    let s = r % 100;
    Place { era: yy / 400, century: r / 100, span: s / 4, year: s % 4, day: doy }
}

/// The parts of the place of a year make up the year.
proof fn lemma_year_parts(yy: int, doy: int)
    ensures
        year_place(yy, doy).full_year() == yy,
        0 <= year_place(yy, doy).century <= 3,
        0 <= year_place(yy, doy).span <= 24,
        0 <= year_place(yy, doy).year <= 3,
{
    let r = yy % 400;
    let s = r % 100;
    assert(yy == 400 * (yy / 400) + r);
    assert(r == 100 * (r / 100) + s);
    assert(s == 4 * (s / 4) + s % 4);
}

/// The place of a day of a year is proper.
proof fn lemma_year_place(yy: int, doy: int)
    requires
        0 <= doy <= 365,
        doy == 365 ==> leap(yy + 1),
    ensures
        year_place(yy, doy).proper(),
        year_place(yy, doy).full_year() == yy,
{
    lemma_year_parts(yy, doy);
    let p = year_place(yy, doy);
    if doy == 365 {
        let k = 100 * p.era + 25 * p.century + p.span;
        assert(yy + 1 == 4 * k + (p.year + 1));
        assert((yy + 1) % 4 == 0);
        assert((4 * k + (p.year + 1)) % 4 == (p.year + 1) % 4);
        assert(p.year == 3);
        if p.span == 24 {
            let h = 4 * p.era + p.century + 1;
            assert(yy + 1 == 100 * h);
            assert((yy + 1) % 100 == 0);
            assert((yy + 1) % 400 == 0);
            assert(yy + 1 == 400 * p.era + 100 * (p.century + 1));
            assert((100 * (p.century + 1)) % 400 == 0);
        }
    }
}

/// The month and the day for a day of the year that begins in March.
proof fn lemma_month_of(doy: int)
    requires
        0 <= doy <= 365,
    ensures
        ({
            let mp = (5 * doy + 2) / 153;
            let day = doy - (153 * mp + 2) / 5 + 1;
            &&& 0 <= mp <= 11
            &&& 1 <= day
            &&& mp == 0 || mp == 2 || mp == 4 || mp == 5 || mp == 7 || mp == 9 || mp == 10 ==> day <= 31
            &&& mp == 1 || mp == 3 || mp == 6 || mp == 8 ==> day <= 30
            &&& mp == 11 ==> day <= 29 && (day == 29 ==> doy == 365)
        }),
{
    let mp = (5 * doy + 2) / 153;
    assert(0 <= mp <= 11);
    assert(mp == 0 || mp == 1 || mp == 2 || mp == 3 || mp == 4 || mp == 5 || mp == 6 || mp == 7
        || mp == 8 || mp == 9 || mp == 10 || mp == 11);
}

/// A date of a year that begins in March, with its number.
proof fn lemma_march_date(yy: int, doy: int)
    requires
        0 <= doy <= 365,
        doy == 365 ==> leap(yy + 1),
    ensures
        march_date(yy, doy).valid(),
        march_date(yy, doy).index() == 365 * yy + yy / 4 - yy / 100 + yy / 400 + doy - 719468,
{
    lemma_month_of(doy);
    let mp = (5 * doy + 2) / 153;
    assert(mp == 0 || mp == 1 || mp == 2 || mp == 3 || mp == 4 || mp == 5 || mp == 6 || mp == 7
        || mp == 8 || mp == 9 || mp == 10 || mp == 11);
}

/// The arithmetic gives dates that exist, and their number is the day's.
proof fn lemma_civil_index(n: int)
    ensures
        civil(n).valid(),
        civil(n).index() == n,
{
    let p = place(n + 719468);
    lemma_place(n + 719468);
    if p.day == 365 {
        lemma_last_day_is_leap(p);
    }
    lemma_march_date(p.full_year(), p.day);
    lemma_year_divisions(p);
}

/// A date that exists is the date of a day of its year.
proof fn lemma_date_in_year(d: Date) -> (r: (int, int))
    requires
        d.valid(),
    ensures
        0 <= r.1 <= 365,
        r.1 == 365 ==> leap(r.0 + 1),
        march_date(r.0, r.1) == d,
        d.index() == 365 * r.0 + r.0 / 4 - r.0 / 100 + r.0 / 400 + r.1 - 719468,
{
    let yy = if d.month <= 2 {
        d.year - 1
    } else {
        d.year
    };
    let mm = if d.month > 2 {
        d.month - 3
    } else {
        d.month + 9
    };
    let doy = (153 * mm + 2) / 5 + d.day - 1;
    assert(mm == 0 || mm == 1 || mm == 2 || mm == 3 || mm == 4 || mm == 5 || mm == 6 || mm == 7
        || mm == 8 || mm == 9 || mm == 10 || mm == 11);
    assert(0 <= doy <= 365);
    assert((5 * doy + 2) / 153 == mm);
    (yy, doy)
}

/// A date that exists is what the arithmetic gives for its number.
proof fn lemma_index_civil(d: Date)
    requires
        d.valid(),
    ensures
        civil(d.index()) == d,
{
    let (yy, doy) = lemma_date_in_year(d);
    lemma_year_place(yy, doy);
    let p = year_place(yy, doy);
    lemma_year_divisions(p);
    lemma_place_unique(p);
    assert(p.count() == d.index() + 719468);
}

/// How the divisions of a year go on from those of the year before.
proof fn lemma_divisions_go_on(y: int)
    ensures
        y / 4 == (y - 1) / 4 + if y % 4 == 0 {
            1int
        } else {
            0
        },
        y / 100 == (y - 1) / 100 + if y % 100 == 0 {
            1int
        } else {
            0
        },
        y / 400 == (y - 1) / 400 + if y % 400 == 0 {
            1int
        } else {
            0
        },
        y % 400 == 0 ==> y % 100 == 0,
        y % 100 == 0 ==> y % 4 == 0,
{
}

/// The number of the next day is one more, and the next day exists.
proof fn lemma_next_index(d: Date)
    requires
        d.valid(),
    ensures
        d.next().valid(),
        d.next().index() == d.index() + 1,
{
    let y = d.year;
    if d.day < month_len(y, d.month) {
        assert(d.next().index() == d.index() + 1);
    } else if d.month == 2 {
        lemma_divisions_go_on(y);
        assert(d.next().index() == d.index() + 1);
    } else {
        lemma_month_goes_on(d);
    }
}

/// Where the last day of a month but February is followed by the first of the next, its
/// number is one more.
proof fn lemma_month_goes_on(d: Date)
    requires
        d.valid(),
        d.month != 2,
        d.day == month_len(d.year, d.month),
    ensures
        d.next().valid(),
        d.next().index() == d.index() + 1,
{
    let m = d.month;
    let y = if m <= 2 {
        d.year - 1
    } else {
        d.year
    };
    let years = 365 * y + y / 4 - y / 100 + y / 400;
    assert(m == 1 || m == 3 || m == 4 || m == 5 || m == 6 || m == 7 || m == 8 || m == 9 || m == 10
        || m == 11 || m == 12);
    let k = if m > 2 {
        m - 3
    } else {
        m + 9
    };
    assert(d.index() == years + (153 * k + 2) / 5 + d.day - 1 - 719468);
    if m == 12 {
        assert(d.next().index() == years + (153 * 10 + 2) / 5 - 719468);
    } else {
        assert(d.next().index() == years + (153 * (k + 1) + 2) / 5 - 719468);
    }
}

/// The day before exists, and the day itself is the next one.
proof fn lemma_prev_next(d: Date)
    requires
        d.valid(),
    ensures
        d.prev().valid(),
        d.prev().next() == d,
{
}

/// Counting days and reckoning with them come to the same: the date that the arithmetic
/// gives is the one that is reached day by day, and its number is the number of days.
pub proof fn law_arithmetic_follows_the_calendar(n: int)
    ensures
        civil(n) == date_of(n),
        date_of(n).valid(),
        date_of(n).index() == n,
    decreases
            if n < 0 {
                -n
            } else {
                n
            },
{
    lemma_civil_index(n);
    if n == 0 {
        let d = Date { year: 1970, month: 1, day: 1 };
        assert(d.index() == 0);
        lemma_index_civil(d);
    } else if n > 0 {
        law_arithmetic_follows_the_calendar(n - 1);
        let d = date_of(n - 1);
        lemma_next_index(d);
        lemma_index_civil(d.next());
    } else {
        law_arithmetic_follows_the_calendar(n + 1);
        let d = date_of(n + 1);
        lemma_prev_next(d);
        lemma_next_index(d.prev());
        lemma_index_civil(d.prev());
    }
}

/// Every day, before 1970 and after, is followed by the next day of the calendar.
pub proof fn law_days_follow_one_another(n: int)
    ensures
        date_of(n + 1) == date_of(n).next(),
        date_of(n) == date_of(n + 1).prev(),
{
    law_arithmetic_follows_the_calendar(n);
    law_arithmetic_follows_the_calendar(n + 1);
    if n < 0 {
        lemma_prev_next(date_of(n + 1));
    } else {
        lemma_next_prev(date_of(n));
    }
}

/// The next day's day before is the day itself.
proof fn lemma_next_prev(d: Date)
    requires
        d.valid(),
    ensures
        d.next().prev() == d,
{
}

/// Different days have different dates, and every date is the date of the day that its
/// number says.
pub proof fn law_dates_determine_days(d: Date)
    requires
        d.valid(),
    ensures
        date_of(d.index()) == d,
{
    lemma_index_civil(d);
    law_arithmetic_follows_the_calendar(d.index());
}

/// A date in whole numbers.
#[derive(Debug, Clone, Copy, PartialEq, Eq, Structural)]
pub struct Civil {
    pub year: i64,
    pub month: u64,
    pub day: u64,
}

/// So many eras before the year 0 the reckoning begins: before every day that 64 bits count.
const ERAS_BEFORE: i64 = 70_000_000_000_000;

/// The date of a day.
pub fn civil_from_days(n: i64) -> (r: Civil)
    ensures
        r.year == date_of(n as int).year,
        r.month == date_of(n as int).month,
        r.day == date_of(n as int).day,
        date_of(n as int).valid(),
{
    let w: u128 = (n as i128 + 719468 + 146097 * ERAS_BEFORE as i128) as u128;
    let doe: u64 = (w % 146097) as u64;
    let era: i64 = (w / 146097) as i64 - ERAS_BEFORE;
    assert(era == (n + 719468) / 146097 && doe == (n + 719468) % 146097) by {
        let z = n + 719468;
        assert(w == z + 146097 * ERAS_BEFORE);
        assert(w / 146097 == z / 146097 + ERAS_BEFORE);
        assert(w % 146097 == z % 146097);
    }
    let c: u64 = if doe / 36524 > 3 {
        3
    } else {
        doe / 36524
    };
    let r1: u64 = doe - 36524 * c;
    let q: u64 = r1 / 1461;
    let r2: u64 = r1 - 1461 * q;
    let a: u64 = if r2 / 365 > 3 {
        3
    } else {
        r2 / 365
    };
    let doy: u64 = r2 - 365 * a;
    let yy: i64 = 400 * era + (100 * c + 4 * q + a) as i64;
    proof {
        lemma_civil_index(n as int);
        law_arithmetic_follows_the_calendar(n as int);
        lemma_month_of(doy as int);
    }
    let mp: u64 = (5 * doy + 2) / 153;
    let day: u64 = doy + 1 - (153 * mp + 2) / 5;
    let month: u64 = if mp < 10 {
        mp + 3
    } else {
        mp - 9
    };
    let year: i64 = if month <= 2 {
        yy + 1
    } else {
        yy
    };
    Civil { year, month, day }
}

/// The number of a day in a year, a month and a day of the month, which need not exist.
pub fn days_from_civil(year: u64, month: u64, day: u64) -> (r: i64)
    requires
        1 <= year <= 9999,
        1 <= month <= 99,
        day <= 99,
    ensures
        r == (Date { year: year as int, month: month as int, day: day as int }).index(),
{
    let y: i64 = if month <= 2 {
        year as i64 - 1
    } else {
        year as i64
    };
    let m: i64 = if month > 2 {
        month as i64 - 3
    } else {
        month as i64 + 9
    };
    365 * y + y / 4 - y / 100 + y / 400 + (153 * m + 2) / 5 + (day as i64 - 1) - 719468
}

/// A date in digits, with something between them.
pub open spec fn date_text(d: Date, between: Seq<char>) -> Seq<char> {
    signed_padded(d.year, 4) + between + padded(d.month as nat, 2) + between + padded(
        d.day as nat,
        2,
    )
}

/// A date in digits, with something between them.
pub fn date_digits(n: i64, between: &str) -> (r: String)
    ensures
        r@ == date_text(date_of(n as int), between@),
{
    let d = civil_from_days(n);
    let y = signed_padded_text(d.year, 4);
    let m = padded_text(d.month, 2);
    let day = padded_text(d.day, 2);
    let head = join3(y.as_str(), between, m.as_str());
    join3(head.as_str(), between, day.as_str())
}

/// A time of the day in hours, minutes and seconds.
pub open spec fn time_text(seconds: nat) -> Seq<char> {
    padded(seconds / 3600, 2) + ":"@ + padded((seconds % 3600) / 60, 2) + ":"@ + padded(
        seconds % 60,
        2,
    )
}

/// A time of the day in hours, minutes and seconds.
pub fn time_digits(seconds: u64) -> (r: String)
    ensures
        r@ == time_text(seconds as nat),
{
    let h = padded_text(seconds / 3600, 2);
    let m = padded_text((seconds % 3600) / 60, 2);
    let s = padded_text(seconds % 60, 2);
    let head = join3(h.as_str(), ":", m.as_str());
    join3(head.as_str(), ":", s.as_str())
}

/// Every fourth year is a leap year, of the full centuries only every fourth; February has a day
/// more then, and the other months have thirty days or thirty-one.
pub proof fn law_months_have_their_lengths(year: int, month: int)
    ensures
        leap(year) <==> (year % 4 == 0 && year % 100 != 0) || year % 400 == 0,
        month_len(year, 2) == if (year % 4 == 0 && year % 100 != 0) || year % 400 == 0 {
            29int
        } else {
            28
        },
        month == 1 || month == 3 || month == 5 || month == 7 || month == 8 || month == 10 || month
            == 12 ==> month_len(year, month) == 31,
        month == 4 || month == 6 || month == 9 || month == 11 ==> month_len(year, month) == 30,
{
}

/// Day 0 is the first of January 1970. A day that is not the last of its month is followed by the
/// next of the month, the last of a month by the first of the next, and the last of December by the
/// first of January of the next year.
pub proof fn law_calendar_goes_on(n: int)
    ensures
        date_of(0) == (Date { year: 1970, month: 1, day: 1 }),
        ({
            let d = date_of(n);
            let e = date_of(n + 1);
            &&& d.day < month_len(d.year, d.month) ==> e.year == d.year && e.month == d.month
                && e.day == d.day + 1
            &&& d.day >= month_len(d.year, d.month) && d.month < 12 ==> e.year == d.year && e.month
                == d.month + 1 && e.day == 1
            &&& d.day >= month_len(d.year, d.month) && d.month >= 12 ==> e.year == d.year + 1
                && e.month == 1 && e.day == 1
            &&& 1 <= d.month <= 12
            &&& 1 <= d.day <= month_len(d.year, d.month)
        }),
{
    law_days_follow_one_another(n);
    law_arithmetic_follows_the_calendar(n);
}

/// Days of the same month are as far apart as they are in the month, be they in it or not.
pub proof fn law_days_of_a_month_are_counted_on(year: int, month: int, day: int)
    ensures
        (Date { year, month, day }).index() == (Date { year, month, day: 1 }).index() + day - 1,
{
}

/// A date is written as its year, its month and its day, in four digits and two and two, with the
/// same between them; reading the digits gives the date.
pub proof fn law_date_is_written_in_digits(d: Date, between: Seq<char>)
    requires
        d.valid(),
        0 <= d.year <= 9999,
    ensures
        ({
            let t = date_text(d, between);
            let b = between.len() as int;
            &&& t.len() == 8 + 2 * b
            &&& number_of(t.subrange(0, 4)) == d.year
            &&& t.subrange(4, 4 + b) == between
            &&& number_of(t.subrange(4 + b, 6 + b)) == d.month
            &&& t.subrange(6 + b, 6 + 2 * b) == between
            &&& number_of(t.subrange(6 + 2 * b, 8 + 2 * b)) == d.day
        }),
{
    reveal_with_fuel(decimal, 5);
    lemma_padded(d.year as nat, 4);
    lemma_padded(d.month as nat, 2);
    lemma_padded(d.day as nat, 2);
    let y = padded(d.year as nat, 4);
    let m = padded(d.month as nat, 2);
    let dd = padded(d.day as nat, 2);
    let t = date_text(d, between);
    let b = between.len() as int;
    assert(t =~= y + between + m + between + dd);
    assert(t.subrange(0, 4) =~= y);
    assert(t.subrange(4, 4 + b) =~= between);
    assert(t.subrange(4 + b, 6 + b) =~= m);
    assert(t.subrange(6 + b, 6 + 2 * b) =~= between);
    assert(t.subrange(6 + 2 * b, 8 + 2 * b) =~= dd);
}

/// A time of the day is written as hours, minutes and seconds, in two digits each, with colons
/// between them; reading the digits gives the time.
pub proof fn law_time_is_written_in_digits(seconds: nat)
    requires
        seconds < 86400,
    ensures
        ({
            let t = time_text(seconds);
            let h = number_of(t.subrange(0, 2));
            let m = number_of(t.subrange(3, 5));
            let s = number_of(t.subrange(6, 8));
            &&& t.len() == 8
            &&& t[2] == ':' && t[5] == ':'
            &&& 0 <= h < 24 && 0 <= m < 60 && 0 <= s < 60
            &&& h * 3600 + m * 60 + s == seconds
        }),
{
    reveal_strlit(":");
    reveal_with_fuel(decimal, 3);
    lemma_padded(seconds / 3600, 2);
    lemma_padded((seconds % 3600) / 60, 2);
    lemma_padded(seconds % 60, 2);
    let t = time_text(seconds);
    assert(t.subrange(0, 2) =~= padded(seconds / 3600, 2));
    assert(t.subrange(3, 5) =~= padded((seconds % 3600) / 60, 2));
    assert(t.subrange(6, 8) =~= padded(seconds % 60, 2));
}

/// No day from the first of January 1970 on lies in an earlier year.
pub proof fn law_year_is_not_before_the_epoch(n: int)
    requires
        n >= 0,
    ensures
        date_of(n).year >= 1970,
    decreases n,
{
    if n > 0 {
        law_year_is_not_before_the_epoch(n - 1);
        law_days_follow_one_another(n - 1);
    }
}

} // verus!
