//! Signed durations such as `-1h` or `11h30m`.
use crate::error::OntimeError;
use vstd::prelude::*;

verus! {

/// Nanoseconds in a second, a minute, an hour, a day, a week, a 30-day month
/// and a 365-day year.
pub const SECOND_NANOS: u64 = 1_000_000_000;

pub const MINUTE_NANOS: u64 = 60_000_000_000;

pub const HOUR_NANOS: u64 = 3_600_000_000_000;

pub const DAY_NANOS: u64 = 86_400_000_000_000;

pub const WEEK_NANOS: u64 = 604_800_000_000_000;

pub const MONTH_NANOS: u64 = 2_592_000_000_000_000;

pub const YEAR_NANOS: u64 = 31_536_000_000_000_000;

/// A signed elapsed time, not tied to the calendar.
#[derive(Clone, Copy, Debug, PartialEq, Eq, Structural, Hash)]
pub struct Duration {
    pub nanoseconds: i128,
}

/// The nanoseconds that `duration_str::parse_time` reads from unsigned text
/// (`11h30m`, `1d 2s`), or `None` where it refuses the text.
pub uninterp spec fn duration_text_nanos(text: Seq<char>) -> Option<int>;

pub open spec fn is_digit(c: char) -> bool {
    '0' <= c && c <= '9'
}

/// An upper bound, in nanoseconds, of the unit whose name starts at index `i`
/// of `s`. A number that no letter follows counts in seconds.
pub open spec fn unit_weight(s: Seq<char>, i: int) -> int {
    if i >= s.len() {
        SECOND_NANOS as int
    } else if s[i] == 'y' || s[i] == 'Y' {
        YEAR_NANOS as int
    } else if s[i] == 'm' || s[i] == 'M' {
        if i + 1 < s.len() && (s[i + 1] == 'o' || s[i + 1] == 'O') {
            MONTH_NANOS as int
        } else {
            MINUTE_NANOS as int
        }
    } else if s[i] == 'w' || s[i] == 'W' {
        WEEK_NANOS as int
    } else if s[i] == 'd' || s[i] == 'D' {
        DAY_NANOS as int
    } else if s[i] == 'h' || s[i] == 'H' {
        HOUR_NANOS as int
    } else {
        SECOND_NANOS as int
    }
}

/// After the first `n` characters of `s`: the sum of each finished number
/// times the weight of the unit that follows it, and the value of the number
/// still being read.
pub open spec fn scan(s: Seq<char>, n: int) -> (int, int)
    decreases n,
{
    if n <= 0 {
        (0, 0)
    } else {
        let prev = scan(s, n - 1);
        let c = s[n - 1];
        if is_digit(c) {
            (prev.0, prev.1 * 10 + (c as int - '0' as int))
        } else {
            (prev.0 + prev.1 * unit_weight(s, n - 1), 0)
        }
    }
}

/// Every number of `s` times an upper bound of its unit, summed.
pub open spec fn weighted_total(s: Seq<char>) -> int {
    scan(s, s.len() as int).0 + scan(s, s.len() as int).1 * SECOND_NANOS
}

/// Text that `duration_str::parse_time` reads without overflowing its `u64`
/// count of nanoseconds: no `*` products, and numbers whose sum, each taken in
/// an upper bound of its unit, fits in a `u64`.
pub open spec fn within_parse_limits(s: Seq<char>) -> bool {
    !s.contains('*') && weighted_total(s) <= u64::MAX
}

pub open spec fn is_unit_letter(c: char) -> bool {
    c == 'd' || c == 'D' || c == 'h' || c == 'H' || c == 'm' || c == 'M' || c == 's' || c == 'S'
}

/// Unsigned text of days, hours, minutes and seconds: one or more terms, each
/// decimal digits followed by one of the letters `d`, `h`, `m`, `s` (in either
/// case), with spaces allowed between terms.
pub open spec fn is_plain_duration_text(s: Seq<char>) -> bool {
    &&& s.len() > 0
    &&& is_unit_letter(s.last())
    &&& forall|i: int|
        0 <= i < s.len() ==> is_digit(#[trigger] s[i]) || (is_unit_letter(s[i]) && i > 0
            && is_digit(s[i - 1])) || (s[i] == ' ' && i > 0 && (is_unit_letter(s[i - 1]) || s[i
            - 1] == ' '))
}

/// What a signed duration text stands for, in nanoseconds: an optional leading
/// `-` negates the unsigned duration that follows it.
pub open spec fn signed_duration_nanos(s: Seq<char>) -> Option<int> {
    if s.len() > 0 && s[0] == '-' {
        let rest = s.subrange(1, s.len() as int);
        if within_parse_limits(rest) {
            match duration_text_nanos(rest) {
                Some(v) => Some(-v),
                None => None,
            }
        } else {
            None
        }
    } else if within_parse_limits(s) {
        duration_text_nanos(s)
    } else {
        None
    }
}

proof fn lemma_scan_grows(s: Seq<char>, i: int, j: int)
    requires
        0 <= i <= j <= s.len(),
    ensures
        0 <= scan(s, i).0,
        0 <= scan(s, i).1,
        scan(s, i).0 + scan(s, i).1 <= scan(s, j).0 + scan(s, j).1,
    decreases j,
{
    if j > i {
        lemma_scan_grows(s, i, j - 1);
        lemma_scan_grows(s, j - 1, j - 1);
        let prev = scan(s, j - 1);
        let w = unit_weight(s, j - 1);
        assert(prev.1 * w >= prev.1) by (nonlinear_arith)
            requires
                prev.1 >= 0,
                w >= 1,
        ;
    } else if i > 0 {
        lemma_scan_grows(s, i - 1, i - 1);
        let prev = scan(s, i - 1);
        let w = unit_weight(s, i - 1);
        assert(prev.1 * w >= 0) by (nonlinear_arith)
            requires
                prev.1 >= 0,
                w >= 1,
        ;
    }
}

proof fn lemma_total_bounds_scan(s: Seq<char>, i: int)
    requires
        0 <= i <= s.len(),
    ensures
        scan(s, i).0 + scan(s, i).1 <= weighted_total(s),
{
    let n = s.len() as int;
    lemma_scan_grows(s, i, n);
    lemma_scan_grows(s, n, n);
    let r = scan(s, n).1;
    assert(r * SECOND_NANOS >= r) by (nonlinear_arith)
        requires
            r >= 0,
    ;
}

fn unit_weight_at(s: &str, i: usize, n: usize) -> (w: u64)
    requires
        n == s@.len(),
        i <= n,
    ensures
        w == unit_weight(s@, i as int),
{
    if i >= n {
        return SECOND_NANOS;
    }
    let c = s.get_char(i);
    if c == 'y' || c == 'Y' {
        YEAR_NANOS
    } else if c == 'm' || c == 'M' {
        if i + 1 < n {
            let d = s.get_char(i + 1);
            if d == 'o' || d == 'O' {
                return MONTH_NANOS;
            }
        }
        MINUTE_NANOS
    } else if c == 'w' || c == 'W' {
        WEEK_NANOS
    } else if c == 'd' || c == 'D' {
        DAY_NANOS
    } else if c == 'h' || c == 'H' {
        HOUR_NANOS
    } else {
        SECOND_NANOS
    }
}

/// Whether `duration_str` can be handed the text without overflowing.
pub fn is_within_parse_limits(s: &str) -> (r: bool)
    ensures
        r == within_parse_limits(s@),
{
    let n = s.unicode_len();
    let mut total: u128 = 0;
    let mut run: u128 = 0;
    let mut i: usize = 0;
    while i < n
        invariant
            n == s@.len(),
            i <= n,
            scan(s@, i as int) == (total as int, run as int),
            total + run <= u64::MAX,
            forall|k: int| 0 <= k < i ==> s@[k] != '*',
        decreases n - i,
    {
        let c = s.get_char(i);
        if c == '*' {
            assert(s@.contains('*'));
            return false;
        }
        if '0' <= c && c <= '9' {
            let d = (c as u32 - '0' as u32) as u128;
            run = run * 10 + d;
        } else {
            let w = unit_weight_at(s, i, n) as u128;
            assert(run * w <= u64::MAX * YEAR_NANOS) by (nonlinear_arith)
                requires
                    run <= u64::MAX,
                    w <= YEAR_NANOS,
            ;
            total = total + run * w;
            run = 0;
        }
        i = i + 1;
        if total + run > u64::MAX as u128 {
            proof {
                lemma_total_bounds_scan(s@, i as int);
            }
            return false;
        }
    }
    assert(!s@.contains('*'));
    assert(run * (SECOND_NANOS as u128) <= u64::MAX * SECOND_NANOS) by (nonlinear_arith)
        requires
            run <= u64::MAX,
    ;
    total + run * (SECOND_NANOS as u128) <= u64::MAX as u128
}

/// Relies on `duration_str::parse_time`: the nanoseconds of the unsigned
/// duration that it reads, which it counts in a `u64`. Text of days, hours,
/// minutes and seconds gives the sum of its terms, each number taken in its
/// unit; for such text that sum is `weighted_total`.
#[verifier::external_body]
fn parse_time_nanos(text: &str) -> (r: Option<i128>)
    requires
        within_parse_limits(text@),
    ensures
        r is Some <==> duration_text_nanos(text@) is Some,
        r matches Some(v) ==> v == duration_text_nanos(text@)->0 && 0 <= v <= u64::MAX,
        is_plain_duration_text(text@) ==> r == Some(weighted_total(text@) as i128),
{
    match duration_str::parse_time(text) {
        Ok(d) => Some(d.whole_nanoseconds()),
        Err(_) => None,
    }
}

impl Duration {
    /// Reads a signed duration: an optional `-`, which negates the whole value,
    /// followed by the unsigned duration that `duration_str` reads. Text whose
    /// numbers could overflow that reading (see `within_parse_limits`) is
    /// refused as malformed, as is text that it refuses.
    pub fn from_str(s: &str) -> (r: Result<Duration, OntimeError>)
        ensures
            match signed_duration_nanos(s@) {
                Some(v) => -(u64::MAX as int) <= v <= u64::MAX && r == Ok::<Duration, OntimeError>(
                    Duration { nanoseconds: v as i128 },
                ),
                None => r matches Err(OntimeError::MalformedDuration(m)) && m@ == s@,
            },
            r matches Ok(d) ==> -(u64::MAX as int) <= d.nanoseconds <= u64::MAX,
            r matches Ok(d) ==> (s@.len() > 0 && s@[0] == '-' ==> d.nanoseconds <= 0) && (!(
            s@.len() > 0 && s@[0] == '-') ==> d.nanoseconds >= 0),
            !(s@.len() > 0 && s@[0] == '-') && is_plain_duration_text(s@) && within_parse_limits(
                s@,
            ) ==> (r matches Ok(d) && d.nanoseconds == weighted_total(s@)),
            s@.len() > 0 && s@[0] == '-' && is_plain_duration_text(s@.subrange(1, s@.len() as int))
                && within_parse_limits(s@.subrange(1, s@.len() as int)) ==> (r matches Ok(d)
                && d.nanoseconds == -weighted_total(s@.subrange(1, s@.len() as int))),
    {
        let n = s.unicode_len();
        let negative = n > 0 && s.get_char(0) == '-';
        let body = if negative {
            s.substring_char(1, n)
        } else {
            s
        };
        if !is_within_parse_limits(body) {
            return Err(OntimeError::MalformedDuration(s.to_owned()));
        }
        proof {
            lemma_total_bounds_scan(body@, 0);
        }
        match parse_time_nanos(body) {
            Some(v) => {
                if negative {
                    Ok(Duration { nanoseconds: -v })
                } else {
                    Ok(Duration { nanoseconds: v })
                }
            },
            None => Err(OntimeError::MalformedDuration(s.to_owned())),
        }
    }

    pub fn is_negative(&self) -> (r: bool)
        ensures
            r == (self.nanoseconds < 0),
    {
        self.nanoseconds < 0
    }
}

} // verus!
