//! Timestamps: a calendar date and a wall-clock time, without a zone.
use vstd::prelude::*;

verus! {

/// The earliest year that a timestamp can hold.
pub const MIN_YEAR: i32 = -9999;

/// The latest year that a timestamp can hold.
pub const MAX_YEAR: i32 = 9999;

/// Nanoseconds in one second.
pub const NANOS_PER_SECOND: u32 = 1_000_000_000;

/// A date in the proleptic Gregorian calendar and a time of day with nanosecond
/// resolution. No zone or offset is kept: two values are equal when their clock
/// faces are.
#[derive(Clone, Copy, Debug, PartialEq, Eq, Structural, Hash)]
pub struct Timestamp {
    pub year: i32,
    pub month: u8,
    pub day: u8,
    pub hour: u8,
    pub minute: u8,
    pub second: u8,
    pub nanosecond: u32,
}

/// The fields of a timestamp, from the most significant to the least.
pub type StampKey = (i32, u8, u8, u8, u8, u8, u32);

pub open spec fn is_leap_year(year: int) -> bool {
    (year % 4 == 0 && year % 100 != 0) || year % 400 == 0
}

pub open spec fn days_in_month(year: int, month: int) -> int {
    if month == 2 {
        if is_leap_year(year) {
            29
        } else {
            28
        }
    } else if month == 4 || month == 6 || month == 9 || month == 11 {
        30
    } else {
        31
    }
}

/// Days from 1970-01-01 to the given date of the proleptic Gregorian calendar.
pub open spec fn days_from_civil(year: int, month: int, day: int) -> int {
    let y = if month <= 2 {
        year - 1
    } else {
        year
    };
    let era = y / 400;
    let yoe = y - era * 400;
    let mp = if month > 2 {
        month - 3
    } else {
        month + 9
    };
    let doy = (153 * mp + 2) / 5 + day - 1;
    let doe = yoe * 365 + yoe / 4 - yoe / 100 + doy;
    era * 146097 + doe - 719468
}

/// Lexicographic order on keys: the order of time on timestamps.
pub open spec fn key_le(a: StampKey, b: StampKey) -> bool {
    if a.0 != b.0 {
        a.0 < b.0
    } else if a.1 != b.1 {
        a.1 < b.1
    } else if a.2 != b.2 {
        a.2 < b.2
    } else if a.3 != b.3 {
        a.3 < b.3
    } else if a.4 != b.4 {
        a.4 < b.4
    } else if a.5 != b.5 {
        a.5 < b.5
    } else {
        a.6 <= b.6
    }
}

/// `a` is at or before `b`.
pub open spec fn stamp_le(a: Timestamp, b: Timestamp) -> bool {
    key_le(a.key(), b.key())
}

/// `a` is strictly before `b`.
pub open spec fn stamp_lt(a: Timestamp, b: Timestamp) -> bool {
    !stamp_le(b, a)
}

/// The instant of the earliest timestamp: -9999-01-01T00:00:00.
pub open spec fn min_instant() -> int {
    Timestamp {
        year: MIN_YEAR,
        month: 1,
        day: 1,
        hour: 0,
        minute: 0,
        second: 0,
        nanosecond: 0,
    }.instant()
}

/// The instant of the latest timestamp: 9999-12-31T23:59:59.999999999.
pub open spec fn max_instant() -> int {
    Timestamp {
        year: MAX_YEAR,
        month: 12,
        day: 31,
        hour: 23,
        minute: 59,
        second: 59,
        nanosecond: 999_999_999,
    }.instant()
}

/// The valid timestamp at `instant` nanoseconds since 1970-01-01T00:00:00.
/// There is at most one: a date and a time of day name a single instant.
pub open spec fn stamp_at(instant: int) -> Timestamp {
    choose|t: Timestamp| t.wf() && t.instant() == instant
}

/// The timestamp whose fields are `k`.
pub open spec fn stamp_of_key(k: StampKey) -> Timestamp {
    Timestamp { year: k.0, month: k.1, day: k.2, hour: k.3, minute: k.4, second: k.5, nanosecond: k.6 }
}

/// The value of the ASCII digit at index `i` of `s`.
pub open spec fn digit_at(s: Seq<char>, i: int) -> int {
    s[i] as int - '0' as int
}

pub open spec fn is_ascii_digit(c: char) -> bool {
    '0' <= c && c <= '9'
}

/// Text of the plain UTC form `YYYY-MM-DDTHH:MM:SSZ`, each letter of the
/// pattern standing for one decimal digit.
pub open spec fn is_plain_utc_form(s: Seq<char>) -> bool {
    &&& s.len() == 20
    &&& forall|i: int|
        0 <= i < 19 && i != 4 && i != 7 && i != 10 && i != 13 && i != 16 ==> is_ascii_digit(
            #[trigger] s[i],
        )
    &&& s[4] == '-' && s[7] == '-' && s[10] == 'T' && s[13] == ':' && s[16] == ':' && s[19] == 'Z'
}

/// The timestamp that text of the plain UTC form writes out.
pub open spec fn plain_utc_stamp(s: Seq<char>) -> Timestamp {
    Timestamp {
        year: (digit_at(s, 0) * 1000 + digit_at(s, 1) * 100 + digit_at(s, 2) * 10 + digit_at(s, 3)) as i32,
        month: (digit_at(s, 5) * 10 + digit_at(s, 6)) as u8,
        day: (digit_at(s, 8) * 10 + digit_at(s, 9)) as u8,
        hour: (digit_at(s, 11) * 10 + digit_at(s, 12)) as u8,
        minute: (digit_at(s, 14) * 10 + digit_at(s, 15)) as u8,
        second: (digit_at(s, 17) * 10 + digit_at(s, 18)) as u8,
        nanosecond: 0,
    }
}

/// The fields that `time::PrimitiveDateTime::parse` reads from RFC 3339 text.
pub uninterp spec fn rfc3339_fields(text: Seq<char>) -> Option<StampKey>;

impl Timestamp {
    pub open spec fn key(self) -> StampKey {
        (self.year, self.month, self.day, self.hour, self.minute, self.second, self.nanosecond)
    }

    /// A real date and time within the supported years.
    pub open spec fn wf(self) -> bool {
        &&& MIN_YEAR <= self.year <= MAX_YEAR
        &&& 1 <= self.month <= 12
        &&& 1 <= self.day <= days_in_month(self.year as int, self.month as int)
        &&& self.hour < 24
        &&& self.minute < 60
        &&& self.second < 60
        &&& self.nanosecond < NANOS_PER_SECOND
    }

    /// Nanoseconds since 1970-01-01T00:00:00.
    pub open spec fn instant(self) -> int {
        let days = days_from_civil(self.year as int, self.month as int, self.day as int);
        let secs = ((days * 24 + self.hour) * 60 + self.minute) * 60 + self.second;
        secs * NANOS_PER_SECOND + self.nanosecond
    }

    pub fn from_key(k: StampKey) -> (r: Timestamp)
        ensures
            r.key() == k,
    {
        Timestamp {
            year: k.0,
            month: k.1,
            day: k.2,
            hour: k.3,
            minute: k.4,
            second: k.5,
            nanosecond: k.6,
        }
    }

    pub fn to_key(&self) -> (r: StampKey)
        ensures
            r == self.key(),
    {
        (self.year, self.month, self.day, self.hour, self.minute, self.second, self.nanosecond)
    }

    /// Whether `self` is at or before `other`.
    pub fn le(&self, other: &Timestamp) -> (r: bool)
        ensures
            r == stamp_le(*self, *other),
    {
        if self.year != other.year {
            self.year < other.year
        } else if self.month != other.month {
            self.month < other.month
        } else if self.day != other.day {
            self.day < other.day
        } else if self.hour != other.hour {
            self.hour < other.hour
        } else if self.minute != other.minute {
            self.minute < other.minute
        } else if self.second != other.second {
            self.second < other.second
        } else {
            self.nanosecond <= other.nanosecond
        }
    }

    /// Whether the fields name a real date and time within the supported years.
    pub fn is_valid(&self) -> (r: bool)
        ensures
            r == self.wf(),
    {
        let leap = (self.year % 4 == 0 && self.year % 100 != 0) || self.year % 400 == 0;
        proof {
            assert(leap == is_leap_year(self.year as int)) by {
                assert((self.year % 4 == 0) == ((self.year as int) % 4 == 0));
                assert((self.year % 100 == 0) == ((self.year as int) % 100 == 0));
                assert((self.year % 400 == 0) == ((self.year as int) % 400 == 0));
            }
        }
        let month_days: u8 = if self.month == 2 {
            if leap {
                29
            } else {
                28
            }
        } else if self.month == 4 || self.month == 6 || self.month == 9 || self.month == 11 {
            30
        } else {
            31
        };
        MIN_YEAR <= self.year && self.year <= MAX_YEAR && 1 <= self.month && self.month <= 12
            && 1 <= self.day && self.day <= month_days && self.hour < 24 && self.minute < 60
            && self.second < 60 && self.nanosecond < NANOS_PER_SECOND
    }

    /// Parses RFC 3339 text (`2022-12-12T18:39:27Z`, `2021-07-08T17:47:25.558+01:00`).
    /// A zone or offset must be present; it is read and then dropped.
    pub fn parse_rfc3339(text: &str) -> (r: Option<Timestamp>)
        ensures
            r is Some <==> rfc3339_fields(text@) is Some,
            r matches Some(t) ==> t.key() == rfc3339_fields(text@)->0 && t.wf(),
            is_plain_utc_form(text@) ==> (r is Some <==> plain_utc_stamp(text@).wf()),
            is_plain_utc_form(text@) && r is Some ==> r->0 == plain_utc_stamp(text@),
    {
        parse_primitive(text)
    }

    /// `self` moved by `nanos` nanoseconds, or `None` where that leaves the
    /// supported years.
    pub fn checked_add(&self, nanos: i128) -> (r: Option<Timestamp>)
        requires
            self.wf(),
            -(u64::MAX as int) <= nanos <= u64::MAX,
        ensures
            r is Some <==> min_instant() <= self.instant() + nanos <= max_instant(),
            r matches Some(t) ==> t.wf() && t.instant() == self.instant() + nanos,
            r matches Some(t) ==> t == stamp_at(self.instant() + nanos),
    {
        add_nanos(*self, nanos)
    }
}

/// Relies on `time::PrimitiveDateTime::parse` with the `Rfc3339` description: the
/// fields of the parsed value, which is always a real date and time within the
/// years -9999 to 9999. Text of the plain form `YYYY-MM-DDTHH:MM:SSZ` gives
/// exactly the fields it writes out, where they name a real date and time, and
/// is refused otherwise.
#[verifier::external_body]
fn parse_primitive(text: &str) -> (r: Option<Timestamp>)
    ensures
        r is Some <==> rfc3339_fields(text@) is Some,
        r matches Some(t) ==> t.key() == rfc3339_fields(text@)->0 && t.wf(),
        is_plain_utc_form(text@) ==> (r is Some <==> plain_utc_stamp(text@).wf()),
        is_plain_utc_form(text@) && r is Some ==> r->0 == plain_utc_stamp(text@),
{
    let p = time::PrimitiveDateTime::parse(text, &time::format_description::well_known::Rfc3339).ok()?;
    Some(Timestamp {
        year: p.year(),
        month: u8::from(p.month()),
        day: p.day(),
        hour: p.hour(),
        minute: p.minute(),
        second: p.second(),
        nanosecond: p.nanosecond(),
    })
}

/// Relies on `time::PrimitiveDateTime::checked_add`: `t + nanos`, or `None` where
/// the sum falls outside -9999-01-01T00:00:00 ..= 9999-12-31T23:59:59.999999999.
#[verifier::external_body]
fn add_nanos(t: Timestamp, nanos: i128) -> (r: Option<Timestamp>)
    requires
        t.wf(),
        -(u64::MAX as int) <= nanos <= u64::MAX,
    ensures
        r is Some <==> min_instant() <= t.instant() + nanos <= max_instant(),
        r matches Some(u) ==> u.wf() && u.instant() == t.instant() + nanos,
        r matches Some(u) ==> u == stamp_at(t.instant() + nanos),
{
    let month = time::Month::try_from(t.month).ok()?;
    let date = time::Date::from_calendar_date(t.year, month, t.day).ok()?;
    let clock = time::Time::from_hms_nano(t.hour, t.minute, t.second, t.nanosecond).ok()?;
    let p = time::PrimitiveDateTime::new(date, clock)
        .checked_add(time::Duration::nanoseconds_i128(nanos))?;
    Some(Timestamp {
        year: p.year(),
        month: u8::from(p.month()),
        day: p.day(),
        hour: p.hour(),
        minute: p.minute(),
        second: p.second(),
        nanosecond: p.nanosecond(),
    })
}

} // verus!
