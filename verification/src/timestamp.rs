//! Civil UTC timestamps: the library's own model of the absolute expiry
//! instants that temporary credentials carry. A timestamp is a Gregorian
//! calendar date with a time of day; it converts to and from seconds since
//! the Unix epoch, and formats as an RFC 3339 string with a `+00:00` offset,
//! the form the wire payload and the environment contract use.

use vstd::arithmetic::div_mod::{
    lemma_fundamental_div_mod, lemma_mod_division_less_than_divisor, lemma_mod_mod,
};
use vstd::prelude::*;

use crate::text::{digit_char, digit_char_exec, digit_val, digit_val_exec, is_digit};

verus! {

pub open spec fn is_leap_year(y: int) -> bool {
    y % 4 == 0 && (y % 100 != 0 || y % 400 == 0)
}

pub open spec fn days_in_year(y: int) -> int {
    if is_leap_year(y) {
        366
    } else {
        365
    }
}

pub open spec fn days_in_month(y: int, m: int) -> int {
    if m == 2 {
        if is_leap_year(y) {
            29
        } else {
            28
        }
    } else if m == 4 || m == 6 || m == 9 || m == 11 {
        30
    } else {
        31
    }
}

/// Days from the first day of year 1 to the first day of year `y`,
/// proleptic Gregorian.
pub open spec fn days_before_year(y: int) -> int
    decreases y,
{
    if y <= 1 {
        0
    } else {
        days_before_year(y - 1) + days_in_year(y - 1)
    }
}

/// Days from the first day of month 1 to the first day of month `m` in
/// year `y`.
pub open spec fn days_before_month(y: int, m: int) -> int
    decreases m,
{
    if m <= 1 {
        0
    } else {
        days_before_month(y, m - 1) + days_in_month(y, m - 1)
    }
}

/// The months of a year sum to its length.
proof fn lemma_months_sum(y: int)
    ensures
        days_before_month(y, 13) == days_in_year(y),
{
    reveal_with_fuel(days_before_month, 14);
}

/// More years never mean fewer days.
proof fn lemma_days_before_year_mono(a: int, b: int)
    requires
        a <= b,
    ensures
        days_before_year(a) <= days_before_year(b),
    decreases b - a,
{
    if a < b {
        lemma_days_before_year_mono(a, b - 1);
    }
}

/// A year count bounds its day count.
proof fn lemma_days_before_year_bound(y: int)
    requires
        y >= 1,
    ensures
        365 * (y - 1) <= days_before_year(y) <= 366 * (y - 1),
    decreases y,
{
    if y > 1 {
        lemma_days_before_year_bound(y - 1);
    }
}

/// A month count bounds its day count.
proof fn lemma_days_before_month_bound(y: int, m: int)
    requires
        1 <= m <= 13,
    ensures
        0 <= days_before_month(y, m) <= 31 * (m - 1),
    decreases m,
{
    if m > 1 {
        lemma_days_before_month_bound(y, m - 1);
    }
}

/// An absolute UTC instant, as a Gregorian date with a time of day.
#[derive(Debug, Clone, Copy, PartialEq, Eq, Structural)]
pub struct Timestamp {
    pub year: u32,
    pub month: u32,
    pub day: u32,
    pub hour: u32,
    pub minute: u32,
    pub second: u32,
}

impl Timestamp {
    /// A well-formed calendar date (four-digit year) with a time of day.
    pub open spec fn valid(&self) -> bool {
        &&& 1 <= self.year <= 9999
        &&& 1 <= self.month <= 12
        &&& 1 <= self.day
        &&& self.day as int <= days_in_month(self.year as int, self.month as int)
        &&& self.hour <= 23
        &&& self.minute <= 59
        &&& self.second <= 59
    }

    /// Days from the first day of year 1 to this date.
    pub open spec fn day_number(&self) -> int {
        days_before_year(self.year as int) + days_before_month(self.year as int, self.month as int)
            + self.day - 1
    }

    /// Seconds since the Unix epoch.
    pub open spec fn epoch_secs_spec(&self) -> int {
        (self.day_number() - days_before_year(1970)) * 86400 + self.hour * 3600 + self.minute * 60
            + self.second
    }
}

/// The earliest instant this model holds.
pub open spec fn min_epoch_secs() -> int {
    -days_before_year(1970) * 86400
}

/// The latest instant this model holds: the last second of year 9999.
pub open spec fn max_epoch_secs() -> int {
    (days_before_year(10000) - days_before_year(1970)) * 86400 - 1
}

/// Later months never mean fewer days.
proof fn lemma_days_before_month_mono(y: int, a: int, b: int)
    requires
        a <= b,
    ensures
        days_before_month(y, a) <= days_before_month(y, b),
    decreases b - a,
{
    if a < b {
        lemma_days_before_month_mono(y, a, b - 1);
    }
}

/// A valid timestamp's second count lies inside the model's range.
pub proof fn lemma_valid_epoch_in_range(ts: Timestamp)
    requires
        ts.valid(),
    ensures
        min_epoch_secs() <= ts.epoch_secs_spec() <= max_epoch_secs(),
{
    let y = ts.year as int;
    let m = ts.month as int;
    lemma_days_before_year_bound(y);
    lemma_days_before_month_bound(y, m);
    lemma_days_before_month_mono(y, m + 1, 13);
    lemma_months_sum(y);
    assert(days_before_month(y, m + 1) == days_before_month(y, m) + days_in_month(y, m));
    assert(days_before_year(y + 1) == days_before_year(y) + days_in_year(y));
    lemma_days_before_year_mono(y + 1, 10000);
    assert(ts.day_number() < days_before_year(10000));
    lemma_days_before_year_bound(1970);
    lemma_days_before_year_mono(1, y);
}

/// The model's range is tiny next to what a 64-bit second count can hold.
pub proof fn lemma_epoch_range_bounds()
    ensures
        -400000000000 <= min_epoch_secs(),
        max_epoch_secs() <= 400000000000,
{
    lemma_days_before_year_bound(1970);
    lemma_days_before_year_bound(10000);
}

/// Whether `y` is a leap year; matches `is_leap_year`.
pub fn is_leap_year_exec(y: u32) -> (r: bool)
    ensures
        r == is_leap_year(y as int),
{
    y % 4 == 0 && (y % 100 != 0 || y % 400 == 0)
}

/// The length of month `m` of year `y`; matches `days_in_month`.
pub fn days_in_month_exec(y: u32, m: u32) -> (r: u32)
    ensures
        r as int == days_in_month(y as int, m as int),
{
    if m == 2 {
        if is_leap_year_exec(y) {
            29
        } else {
            28
        }
    } else if m == 4 || m == 6 || m == 9 || m == 11 {
        30
    } else {
        31
    }
}

/// The length of year `y`; matches `days_in_year`.
fn days_in_year_exec(y: u32) -> (r: u32)
    ensures
        r as int == days_in_year(y as int),
{
    if is_leap_year_exec(y) {
        366
    } else {
        365
    }
}

/// Days before year `y`; matches `days_before_year`.
fn days_before_year_exec(y: u32) -> (r: u32)
    requires
        1 <= y <= 10000,
    ensures
        r as int == days_before_year(y as int),
        r <= 3660000,
{
    let mut acc: u32 = 0;
    let mut i: u32 = 1;
    while i < y
        invariant
            1 <= i <= y <= 10000,
            acc as int == days_before_year(i as int),
            acc <= 366 * (i - 1),
        decreases y - i,
    {
        acc = acc + days_in_year_exec(i);
        i = i + 1;
    }
    proof {
        lemma_days_before_year_bound(y as int);
    }
    acc
}

/// Days before month `m` of year `y`; matches `days_before_month`.
fn days_before_month_exec(y: u32, m: u32) -> (r: u32)
    requires
        1 <= m <= 13,
    ensures
        r as int == days_before_month(y as int, m as int),
        r <= 372,
{
    let mut acc: u32 = 0;
    let mut i: u32 = 1;
    while i < m
        invariant
            1 <= i <= m <= 13,
            acc as int == days_before_month(y as int, i as int),
            acc <= 31 * (i - 1),
        decreases m - i,
    {
        acc = acc + days_in_month_exec(y, i);
        i = i + 1;
    }
    acc
}

impl Timestamp {
    /// Whether the fields form a well-formed date and time; matches `valid`.
    pub fn valid_exec(&self) -> (r: bool)
        ensures
            r == self.valid(),
    {
        1 <= self.year && self.year <= 9999 && 1 <= self.month && self.month <= 12 && 1 <= self.day
            && self.day <= days_in_month_exec(self.year, self.month) && self.hour <= 23
            && self.minute <= 59 && self.second <= 59
    }

    /// Seconds since the Unix epoch.
    pub fn epoch_secs(&self) -> (r: i64)
        requires
            self.valid(),
        ensures
            r as int == self.epoch_secs_spec(),
    {
        let dby: u32 = days_before_year_exec(self.year);
        let dbm: u32 = days_before_month_exec(self.year, self.month);
        let base: u32 = days_before_year_exec(1970);
        let dn: i64 = dby as i64 + dbm as i64 + self.day as i64 - 1;
        (dn - base as i64) * 86400 + self.hour as i64 * 3600 + self.minute as i64 * 60
            + self.second as i64
    }

    /// The timestamp lying `e` seconds after the Unix epoch. Returns nothing
    /// exactly when `e` falls outside the model's range (years 1 to 9999).
    pub fn from_epoch_secs(e: i64) -> (r: Option<Timestamp>)
        ensures
            match r {
                Some(ts) => ts.valid() && ts.epoch_secs_spec() == e,
                None => e < min_epoch_secs() || e > max_epoch_secs(),
            },
    {
        let base: u32 = days_before_year_exec(1970);
        let total: u32 = days_before_year_exec(10000);
        let shift: i64 = base as i64 * 86400;
        if e < -shift {
            return None;
        }
        if e > total as i64 * 86400 - shift - 1 {
            return None;
        }
        let su: u64 = (e + shift) as u64;
        let dn: u64 = su / 86400;
        let sod: u64 = su % 86400;
        proof {
            lemma_fundamental_div_mod(su as int, 86400);
            lemma_mod_division_less_than_divisor(su as int, 86400);
            assert(dn < total) by {
                assert(su < total as int * 86400);
                assert(dn as int * 86400 <= su as int);
            };
        }
        let mut y: u64 = 1;
        let mut rem: u64 = dn;
        while rem >= days_in_year_exec(y as u32) as u64
            invariant
                1 <= y <= 10000,
                dn as int == days_before_year(y as int) + rem,
                dn < total,
                total as int == days_before_year(10000),
            decreases rem,
        {
            let step: u64 = days_in_year_exec(y as u32) as u64;
            rem = rem - step;
            y = y + 1;
            proof {
                if y > 10000 {
                    lemma_days_before_year_mono(10000, y as int);
                    assert(days_before_year(y as int) >= days_before_year(10000));
                    assert(false);
                }
            }
        }
        proof {
            if y == 10000 {
                assert(dn as int >= days_before_year(10000));
                assert(false);
            }
        }
        let year: u32 = y as u32;
        let mut m: u64 = 1;
        while m < 12 && rem >= days_in_month_exec(year, m as u32) as u64
            invariant
                1 <= m <= 12,
                1 <= year <= 9999,
                dn as int == days_before_year(year as int) + days_before_month(
                    year as int,
                    m as int,
                ) + rem,
                rem < days_in_year(year as int) - days_before_month(year as int, m as int),
            decreases 12 - m,
        {
            let step: u64 = days_in_month_exec(year, m as u32) as u64;
            rem = rem - step;
            m = m + 1;
        }
        proof {
            if m == 12 && rem >= days_in_month(year as int, 12) {
                lemma_months_sum(year as int);
                assert(false);
            }
        }
        let month: u32 = m as u32;
        let day: u32 = rem as u32 + 1;
        let hour: u64 = sod / 3600;
        let rest: u64 = sod % 3600;
        let minute: u64 = rest / 60;
        let second: u64 = rest % 60;
        proof {
            lemma_fundamental_div_mod(sod as int, 3600);
            lemma_mod_division_less_than_divisor(sod as int, 3600);
            lemma_fundamental_div_mod(rest as int, 60);
            lemma_mod_division_less_than_divisor(rest as int, 60);
            assert(hour <= 23) by {
                assert(sod < 86400);
                assert(hour as int * 3600 <= sod as int);
            };
            assert(minute <= 59) by {
                assert(rest < 3600);
                assert(minute as int * 60 <= rest as int);
            };
        }
        let ts = Timestamp {
            year,
            month,
            day,
            hour: hour as u32,
            minute: minute as u32,
            second: second as u32,
        };
        proof {
            assert(ts.valid());
            assert(ts.epoch_secs_spec() == e);
        }
        Some(ts)
    }
}

/// The RFC 3339 rendering of `ts`, with a `+00:00` offset: exactly
/// `YYYY-MM-DDTHH:MM:SS+00:00`.
pub open spec fn rfc3339_chars(ts: Timestamp) -> Seq<char> {
    seq![
        digit_char(ts.year as int / 1000),
        digit_char(ts.year as int % 1000 / 100),
        digit_char(ts.year as int % 100 / 10),
        digit_char(ts.year as int % 10),
        '-',
        digit_char(ts.month as int / 10),
        digit_char(ts.month as int % 10),
        '-',
        digit_char(ts.day as int / 10),
        digit_char(ts.day as int % 10),
        'T',
        digit_char(ts.hour as int / 10),
        digit_char(ts.hour as int % 10),
        ':',
        digit_char(ts.minute as int / 10),
        digit_char(ts.minute as int % 10),
        ':',
        digit_char(ts.second as int / 10),
        digit_char(ts.second as int % 10),
        '+',
        '0',
        '0',
        ':',
        '0',
        '0',
    ]
}

impl Timestamp {
    /// Formats this timestamp as RFC 3339 with a `+00:00` offset.
    #[verifier::rlimit(60)]
    pub fn rfc3339(&self) -> (r: String)
        requires
            self.valid(),
        ensures
            r@ == rfc3339_chars(*self),
    {
        let v: Vec<char> = vec![
            digit_char_exec((self.year / 1000) as u64),
            digit_char_exec((self.year % 1000 / 100) as u64),
            digit_char_exec((self.year % 100 / 10) as u64),
            digit_char_exec((self.year % 10) as u64),
            '-',
            digit_char_exec((self.month / 10) as u64),
            digit_char_exec((self.month % 10) as u64),
            '-',
            digit_char_exec((self.day / 10) as u64),
            digit_char_exec((self.day % 10) as u64),
            'T',
            digit_char_exec((self.hour / 10) as u64),
            digit_char_exec((self.hour % 10) as u64),
            ':',
            digit_char_exec((self.minute / 10) as u64),
            digit_char_exec((self.minute % 10) as u64),
            ':',
            digit_char_exec((self.second / 10) as u64),
            digit_char_exec((self.second % 10) as u64),
            '+',
            '0',
            '0',
            ':',
            '0',
            '0',
        ];
        proof {
            assert(v@ =~= rfc3339_chars(*self));
        }
        crate::text::string_of_chars(&v)
    }
}

/// Reads an RFC 3339 string with a `+00:00` offset back into a timestamp.
/// Anything that is not exactly the rendering of a well-formed timestamp
/// reads as nothing.
pub open spec fn spec_parse_rfc3339(s: Seq<char>) -> Option<Timestamp> {
    if s.len() != 25 {
        None
    } else if !(s[4] == '-' && s[7] == '-' && s[10] == 'T' && s[13] == ':' && s[16] == ':' && s[19]
        == '+' && s[20] == '0' && s[21] == '0' && s[22] == ':' && s[23] == '0' && s[24] == '0') {
        None
    } else if !(is_digit(s[0]) && is_digit(s[1]) && is_digit(s[2]) && is_digit(s[3]) && is_digit(
        s[5],
    ) && is_digit(s[6]) && is_digit(s[8]) && is_digit(s[9]) && is_digit(s[11]) && is_digit(s[12])
        && is_digit(s[14]) && is_digit(s[15]) && is_digit(s[17]) && is_digit(s[18])) {
        None
    } else {
        let ts = Timestamp {
            year: (digit_val(s[0]) * 1000 + digit_val(s[1]) * 100 + digit_val(s[2]) * 10
                + digit_val(s[3])) as u32,
            month: (digit_val(s[5]) * 10 + digit_val(s[6])) as u32,
            day: (digit_val(s[8]) * 10 + digit_val(s[9])) as u32,
            hour: (digit_val(s[11]) * 10 + digit_val(s[12])) as u32,
            minute: (digit_val(s[14]) * 10 + digit_val(s[15])) as u32,
            second: (digit_val(s[17]) * 10 + digit_val(s[18])) as u32,
        };
        if ts.valid() {
            Some(ts)
        } else {
            None
        }
    }
}

/// Reads an RFC 3339 string; matches `spec_parse_rfc3339`.
pub fn parse_rfc3339(s: &str) -> (r: Option<Timestamp>)
    ensures
        r == spec_parse_rfc3339(s@),
{
    let v = crate::text::chars_of(s);
    if v.len() != 25 {
        return None;
    }
    if !(v[4] == '-' && v[7] == '-' && v[10] == 'T' && v[13] == ':' && v[16] == ':' && v[19] == '+'
        && v[20] == '0' && v[21] == '0' && v[22] == ':' && v[23] == '0' && v[24] == '0') {
        return None;
    }
    let d0 = digit_val_exec(v[0]);
    let d1 = digit_val_exec(v[1]);
    let d2 = digit_val_exec(v[2]);
    let d3 = digit_val_exec(v[3]);
    let d5 = digit_val_exec(v[5]);
    let d6 = digit_val_exec(v[6]);
    let d8 = digit_val_exec(v[8]);
    let d9 = digit_val_exec(v[9]);
    let d11 = digit_val_exec(v[11]);
    let d12 = digit_val_exec(v[12]);
    let d14 = digit_val_exec(v[14]);
    let d15 = digit_val_exec(v[15]);
    let d17 = digit_val_exec(v[17]);
    let d18 = digit_val_exec(v[18]);
    if d0 >= 10 || d1 >= 10 || d2 >= 10 || d3 >= 10 || d5 >= 10 || d6 >= 10 || d8 >= 10 || d9 >= 10
        || d11 >= 10 || d12 >= 10 || d14 >= 10 || d15 >= 10 || d17 >= 10 || d18 >= 10 {
        return None;
    }
    let ts = Timestamp {
        year: (d0 * 1000 + d1 * 100 + d2 * 10 + d3) as u32,
        month: (d5 * 10 + d6) as u32,
        day: (d8 * 10 + d9) as u32,
        hour: (d11 * 10 + d12) as u32,
        minute: (d14 * 10 + d15) as u32,
        second: (d17 * 10 + d18) as u32,
    };
    if ts.valid_exec() {
        Some(ts)
    } else {
        None
    }
}

/// Splitting a number below 100 into its two digits loses nothing.
proof fn lemma_two_digit_split(n: int)
    requires
        0 <= n < 100,
    ensures
        0 <= n / 10 < 10,
        0 <= n % 10 < 10,
        (n / 10) * 10 + n % 10 == n,
{
    lemma_fundamental_div_mod(n, 10);
    lemma_mod_division_less_than_divisor(n, 10);
}

/// Splitting a number below 10000 into its four digits loses nothing.
proof fn lemma_four_digit_split(n: int)
    requires
        0 <= n < 10000,
    ensures
        0 <= n / 1000 < 10,
        0 <= n % 1000 / 100 < 10,
        0 <= n % 100 / 10 < 10,
        0 <= n % 10 < 10,
        (n / 1000) * 1000 + (n % 1000 / 100) * 100 + (n % 100 / 10) * 10 + n % 10 == n,
{
    lemma_fundamental_div_mod(n, 1000);
    lemma_mod_division_less_than_divisor(n, 1000);
    lemma_fundamental_div_mod(n % 1000, 100);
    lemma_mod_division_less_than_divisor(n % 1000, 100);
    lemma_mod_mod(n, 100, 10);
    lemma_mod_mod(n, 10, 100);
    assert(n % 1000 % 100 == n % 100) by {
        assert((n % (100int * 10)) % 100 == n % 100) by {
            lemma_mod_mod(n, 100, 10);
        };
    };
    lemma_fundamental_div_mod(n % 100, 10);
    lemma_mod_division_less_than_divisor(n % 100, 10);
    assert(n % 100 % 10 == n % 10) by {
        assert((n % (10int * 10)) % 10 == n % 10) by {
            lemma_mod_mod(n, 10, 10);
        };
    };
}

/// Reading a rendered timestamp back yields the same timestamp.
pub proof fn lemma_rfc3339_round_trip(ts: Timestamp)
    requires
        ts.valid(),
    ensures
        spec_parse_rfc3339(rfc3339_chars(ts)) == Some(ts),
{
    let s = rfc3339_chars(ts);
    lemma_four_digit_split(ts.year as int);
    lemma_two_digit_split(ts.month as int);
    lemma_two_digit_split(ts.day as int);
    lemma_two_digit_split(ts.hour as int);
    lemma_two_digit_split(ts.minute as int);
    lemma_two_digit_split(ts.second as int);
    crate::text::lemma_digit_round_trip(ts.year as int / 1000);
    crate::text::lemma_digit_round_trip(ts.year as int % 1000 / 100);
    crate::text::lemma_digit_round_trip(ts.year as int % 100 / 10);
    crate::text::lemma_digit_round_trip(ts.year as int % 10);
    crate::text::lemma_digit_round_trip(ts.month as int / 10);
    crate::text::lemma_digit_round_trip(ts.month as int % 10);
    crate::text::lemma_digit_round_trip(ts.day as int / 10);
    crate::text::lemma_digit_round_trip(ts.day as int % 10);
    crate::text::lemma_digit_round_trip(ts.hour as int / 10);
    crate::text::lemma_digit_round_trip(ts.hour as int % 10);
    crate::text::lemma_digit_round_trip(ts.minute as int / 10);
    crate::text::lemma_digit_round_trip(ts.minute as int % 10);
    crate::text::lemma_digit_round_trip(ts.second as int / 10);
    crate::text::lemma_digit_round_trip(ts.second as int % 10);
    assert(spec_parse_rfc3339(s) == Some(ts));
}

} // verus!
