//! Date and time: calendar arithmetic, time-zone offsets and the formatted
//! strings of the date/time settings page.
use vstd::prelude::*;
use crate::text::{
    all_ascii, all_ascii_exec, append, append_str, byte_len, byte_len_at_least, chars_of,
    decimal, eq_str, is_boundary, lines, lines_of, pad_zeros, padded_i64, padded_u64, parse_int,
    parse_signed, signed_padded, slice_of, split, split_on, split_once, split_once_exec,
    string_of, string_from, string_views, trim, trimmed, views, words, split_ws, contains, contains_str,
    starts_with, strip_prefix_str,
};

verus! {

/// Time format preference
#[derive(Debug, Clone, Copy, PartialEq, Eq, Structural)]
pub enum TimeFormat {
    /// 12-hour format with AM/PM
    TwelveHour,
    /// 24-hour format
    TwentyFourHour,
}

impl Default for TimeFormat {
    fn default() -> (r: Self)
        ensures
            r == TimeFormat::TwentyFourHour,
    {
        TimeFormat::TwentyFourHour
    }
}

/// Date format preference
#[derive(Debug, Clone, Copy, PartialEq, Eq, Structural)]
pub enum DateFormat {
    /// Year-Month-Day (2024-01-15)
    YearMonthDay,
    /// Month/Day/Year (01/15/2024)
    MonthDayYear,
    /// Day.Month.Year (15.01.2024)
    DayMonthYear,
}

impl Default for DateFormat {
    fn default() -> (r: Self)
        ensures
            r == DateFormat::YearMonthDay,
    {
        DateFormat::YearMonthDay
    }
}

/// NTP synchronization status
#[derive(Debug, Clone)]
pub struct NtpStatus {
    /// Whether NTP is enabled
    pub enabled: bool,
    /// Whether time is currently synchronized
    pub synchronized: bool,
    /// NTP server in use (if available)
    pub server: Option<String>,
    /// Last sync time as Unix timestamp
    pub last_sync: Option<u64>,
}

/// Timezone information
#[derive(Debug, Clone)]
pub struct TimezoneInfo {
    /// Timezone identifier (e.g., "America/New_York")
    pub identifier: String,
    /// Display name (e.g., "New York")
    pub display_name: String,
    /// UTC offset in seconds
    pub utc_offset: i32,
    /// UTC offset string (e.g., "UTC-05:00")
    pub utc_offset_str: String,
}

/// Current date and time information
#[derive(Debug, Clone)]
pub struct DateTimeInfo {
    /// Unix timestamp
    pub timestamp: u64,
    /// Year
    pub year: i32,
    /// Month (1-12)
    pub month: u8,
    /// Day of month (1-31)
    pub day: u8,
    /// Hour (0-23)
    pub hour: u8,
    /// Minute (0-59)
    pub minute: u8,
    /// Second (0-59)
    pub second: u8,
    /// Day of week of the UTC date at the timestamp (0 = Sunday, 6 = Saturday)
    pub weekday: u8,
    /// Formatted date string
    pub date_str: String,
    /// Formatted time string (24h)
    pub time_str_24h: String,
    /// Formatted time string (12h with AM/PM)
    pub time_str_12h: String,
    /// Current timezone
    pub timezone: TimezoneInfo,
}

/// Date and time backend
pub struct DateTimeBackend {
    /// Preferred time format
    pub time_format: TimeFormat,
    /// Preferred date format
    pub date_format: DateFormat,
}

/// The name of a day of the week (0 = Sunday).
pub open spec fn weekday_name(weekday: u8) -> Seq<char> {
    if weekday == 0 {
        "Sunday"@
    } else if weekday == 1 {
        "Monday"@
    } else if weekday == 2 {
        "Tuesday"@
    } else if weekday == 3 {
        "Wednesday"@
    } else if weekday == 4 {
        "Thursday"@
    } else if weekday == 5 {
        "Friday"@
    } else if weekday == 6 {
        "Saturday"@
    } else {
        "Unknown"@
    }
}

/// The name of a month (1 = January).
pub open spec fn month_name(month: u8) -> Seq<char> {
    if month == 1 {
        "January"@
    } else if month == 2 {
        "February"@
    } else if month == 3 {
        "March"@
    } else if month == 4 {
        "April"@
    } else if month == 5 {
        "May"@
    } else if month == 6 {
        "June"@
    } else if month == 7 {
        "July"@
    } else if month == 8 {
        "August"@
    } else if month == 9 {
        "September"@
    } else if month == 10 {
        "October"@
    } else if month == 11 {
        "November"@
    } else if month == 12 {
        "December"@
    } else {
        "Unknown"@
    }
}

impl Default for DateTimeBackend {
    fn default() -> (r: Self)
        ensures
            r.time_format == TimeFormat::TwentyFourHour,
            r.date_format == DateFormat::YearMonthDay,
    {
        Self::new()
    }
}

impl DateTimeBackend {
    /// Create a new datetime backend
    pub fn new() -> (r: Self)
        ensures
            r.time_format == TimeFormat::TwentyFourHour,
            r.date_format == DateFormat::YearMonthDay,
    {
        Self { time_format: TimeFormat::TwentyFourHour, date_format: DateFormat::YearMonthDay }
    }

    /// Get day of week name
    pub fn get_weekday_name(weekday: u8) -> (r: &'static str)
        ensures
            r@ == weekday_name(weekday),
    {
        match weekday {
            0 => "Sunday",
            1 => "Monday",
            2 => "Tuesday",
            3 => "Wednesday",
            4 => "Thursday",
            5 => "Friday",
            6 => "Saturday",
            _ => "Unknown",
        }
    }

    /// Get month name
    pub fn get_month_name(month: u8) -> (r: &'static str)
        ensures
            r@ == month_name(month),
    {
        match month {
            1 => "January",
            2 => "February",
            3 => "March",
            4 => "April",
            5 => "May",
            6 => "June",
            7 => "July",
            8 => "August",
            9 => "September",
            10 => "October",
            11 => "November",
            12 => "December",
            _ => "Unknown",
        }
    }
}

/// Howard Hinnant's conversion of a day count since 1970-01-01 into a
/// proleptic Gregorian (year, month, day), over the integers.
pub open spec fn civil_from_days(days: int) -> (int, int, int) {
    let z = days + 719468;
    let era = z / 146097;
    let doe = z - era * 146097;
    let yoe = (doe - doe / 1460 + doe / 36524 - doe / 146096) / 365;
    let y = yoe + era * 400;
    let doy = doe - (365 * yoe + yoe / 4 - yoe / 100);
    let mp = (5 * doy + 2) / 153;
    let d = doy - (153 * mp + 2) / 5 + 1;

    let m = if mp < 10 {
        mp + 3
    } else {
        mp - 9
    };
    (if m <= 2 {
        y + 1
    } else {
        y
    }, m, d)
}

/// Within one 400-year era (days counted from March 1st of its first year),
/// the year and the day of that year that the conversion computes: the year
/// is one of the 400 of the era and the day one of its at most 366.
pub proof fn lemma_year_of_era(doe: int)
    requires
        0 <= doe <= 146096,
    ensures
        ({
            let yoe = (doe - doe / 1460 + doe / 36524 - doe / 146096) / 365;
            let doy = doe - (365 * yoe + yoe / 4 - yoe / 100);
            0 <= yoe <= 399 && 0 <= doy <= 365
        }),
{
    let yoe = (doe - doe / 1460 + doe / 36524 - doe / 146096) / 365;
    if doe == 146096 {
        assert(doe / 1460 == 100);
        assert(doe / 36524 == 4);
        assert(doe / 146096 == 1);
        assert(yoe == 399);
    } else {
        let c = doe / 36524;
        let r = doe % 36524;
        assert(0 <= c <= 3);
        assert(doe == 36524 * c + r);
        assert(doe / 146096 == 0);
        let q = r / 1461;
        let t = r % 1461;
        assert(r == 1461 * q + t);
        assert(0 <= q <= 24) by (nonlinear_arith)
            requires
                r == 1461 * q + r % 1461,
                0 <= r < 36524,
                0 <= r % 1461 < 1461,
        ;
        assert(doe == 1460 * (25 * c + q) + (24 * c + q + t));
        let e: int = if 24 * c + q + t >= 1460 { 1 } else { 0 };
        assert(doe / 1460 == 25 * c + q + e) by {
            assert(0 <= 24 * c + q + t - 1460 * e < 1460);
            assert(doe == 1460 * (25 * c + q + e) + (24 * c + q + t - 1460 * e));
        }
        let y4: int = (t - e) / 365;
        assert(0 <= y4 <= 3);
        assert(doe - doe / 1460 + doe / 36524 - doe / 146096 == 365 * (100 * c + 4 * q + y4) + (
        t - e - 365 * y4));
        assert(yoe == 100 * c + 4 * q + y4);
        assert(yoe / 4 == 25 * c + q);
        assert(yoe / 100 == c);
        assert(doe - (365 * yoe + yoe / 4 - yoe / 100) == t - 365 * y4);
    }
}

/// Convert days since Unix epoch to (year, month, day)
pub fn days_to_ymd(days: i64) -> (r: (i32, u8, u8))
    requires
        days <= i64::MAX - 719468,
    ensures
        r == ((civil_from_days(days as int).0) as i32, (civil_from_days(days as int).1) as u8, (
        civil_from_days(days as int).2) as u8),
        1 <= r.1 <= 12,
        1 <= r.2 <= 31,
{
    // Algorithm from Howard Hinnant
    let z = days + 719468;
    let era: i64 = if z >= 0 {
        z / 146097
    } else {
        0 - (146096 - z) / 146097
    };
    assert(era == z as int / 146097 && 0 <= z - era * 146097 < 146097) by (nonlinear_arith)
        requires
            z >= 0 ==> era == z as int / 146097,
            z < 0 ==> era == 0 - (146096 - z) / 146097,
    ;
    let doe = (z - era * 146097) as u32;
    proof {
        lemma_year_of_era(doe as int);
    }
    let yoe = (doe - doe / 1460 + doe / 36524 - doe / 146096) / 365;
    let y = yoe as i64 + era * 400;
    let doy = doe - (365 * yoe + yoe / 4 - yoe / 100);
    let mp = (5 * doy + 2) / 153;
    assert(153 * mp <= 5 * doy + 2 && mp <= 11) by (nonlinear_arith)
        requires
            mp == (5 * doy + 2) / 153,
            doy <= 365,
    ;
    let d = doy - (153 * mp + 2) / 5 + 1;

    let m = if mp < 10 {
        mp + 3
    } else {
        mp - 9
    };
    let year = if m <= 2 {
        y + 1
    } else {
        y
    };
    (year as i32, m as u8, d as u8)
}

/// Whether `y` is a leap year of the proleptic Gregorian calendar.
pub open spec fn is_leap_year(y: int) -> bool {
    y % 4 == 0 && (y % 100 != 0 || y % 400 == 0)
}

/// The number of days of month `m` (1 to 12) of year `y`.
pub open spec fn days_in_month(y: int, m: int) -> int {
    if m == 2 {
        if is_leap_year(y) {
            29
        } else {
            28
        }
    } else if m == 4 || m == 6 || m == 9 || m == 11 {
        30
    } else {
        31
    }
}

/// The calendar day after the date `(y, m, d)`.
pub open spec fn day_after(ymd: (int, int, int)) -> (int, int, int) {
    let (y, m, d) = ymd;
    if d < days_in_month(y, m) {
        (y, m, d + 1)
    } else if m < 12 {
        (y, m + 1, 1)
    } else {
        (y + 1, 1, 1)
    }
}

/// The length of the year that runs from March of `yg` to February of
/// `yg + 1`.
spec fn march_year_len(yg: int) -> int {
    if is_leap_year(yg + 1) {
        366
    } else {
        365
    }
}

/// The date of day `doy` (0 is March 1st) of the year that starts in March
/// of `yg`, as the conversion computes it.
spec fn date_of(yg: int, doy: int) -> (int, int, int) {
    let mp = (5 * doy + 2) / 153;
    let d = doy - (153 * mp + 2) / 5 + 1;
    let m = if mp < 10 {
        mp + 3
    } else {
        mp - 9
    };
    (if m <= 2 {
        yg + 1
    } else {
        yg
    }, m, d)
}

proof fn lemma_month_table(yg: int, doy: int)
    requires
        0 <= doy < march_year_len(yg),
    ensures
        ({
            let (y, m, d) = date_of(yg, doy);
            1 <= m <= 12 && 1 <= d <= days_in_month(y, m)
        }),
        doy + 1 < march_year_len(yg) ==> date_of(yg, doy + 1) == day_after(date_of(yg, doy)),
        doy + 1 == march_year_len(yg) ==> date_of(yg + 1, 0) == day_after(date_of(yg, doy)),
{
    let n = doy + 1;
    if doy < 31 {
        assert((5 * doy + 2) / 153 == 0);
        assert(n < 31 ==> (5 * n + 2) / 153 == 0);
        assert(n == 31 ==> (5 * n + 2) / 153 == 1);
    } else if doy < 61 {
        assert((5 * doy + 2) / 153 == 1);
        assert(n < 61 ==> (5 * n + 2) / 153 == 1);
        assert(n == 61 ==> (5 * n + 2) / 153 == 2);
    } else if doy < 92 {
        assert((5 * doy + 2) / 153 == 2);
        assert(n < 92 ==> (5 * n + 2) / 153 == 2);
        assert(n == 92 ==> (5 * n + 2) / 153 == 3);
    } else if doy < 122 {
        assert((5 * doy + 2) / 153 == 3);
        assert(n < 122 ==> (5 * n + 2) / 153 == 3);
        assert(n == 122 ==> (5 * n + 2) / 153 == 4);
    } else if doy < 153 {
        assert((5 * doy + 2) / 153 == 4);
        assert(n < 153 ==> (5 * n + 2) / 153 == 4);
        assert(n == 153 ==> (5 * n + 2) / 153 == 5);
    } else if doy < 184 {
        assert((5 * doy + 2) / 153 == 5);
        assert(n < 184 ==> (5 * n + 2) / 153 == 5);
        assert(n == 184 ==> (5 * n + 2) / 153 == 6);
    } else if doy < 214 {
        assert((5 * doy + 2) / 153 == 6);
        assert(n < 214 ==> (5 * n + 2) / 153 == 6);
        assert(n == 214 ==> (5 * n + 2) / 153 == 7);
    } else if doy < 245 {
        assert((5 * doy + 2) / 153 == 7);
        assert(n < 245 ==> (5 * n + 2) / 153 == 7);
        assert(n == 245 ==> (5 * n + 2) / 153 == 8);
    } else if doy < 275 {
        assert((5 * doy + 2) / 153 == 8);
        assert(n < 275 ==> (5 * n + 2) / 153 == 8);
        assert(n == 275 ==> (5 * n + 2) / 153 == 9);
    } else if doy < 306 {
        assert((5 * doy + 2) / 153 == 9);
        assert(n < 306 ==> (5 * n + 2) / 153 == 9);
        assert(n == 306 ==> (5 * n + 2) / 153 == 10);
    } else if doy < 337 {
        assert((5 * doy + 2) / 153 == 10);
        assert(n < 337 ==> (5 * n + 2) / 153 == 10);
        assert(n == 337 ==> (5 * n + 2) / 153 == 11);
    } else {
        assert((5 * doy + 2) / 153 == 11);
        assert(n <= 366 ==> (5 * n + 2) / 153 == 11);
        assert((5 * 0 + 2) / 153 == 0);
    }
}

/// The year of its era that the conversion computes for day `doe` of the
/// era.
spec fn yoe_of(doe: int) -> int {
    (doe - doe / 1460 + doe / 36524 - doe / 146096) / 365
}

/// The day of its March-based year that the conversion computes for day
/// `doe` of the era.
spec fn doy_of(doe: int) -> int {
    doe - (365 * yoe_of(doe) + yoe_of(doe) / 4 - yoe_of(doe) / 100)
}

/// The first day, within its era, of the March-based year `y` of the era.
spec fn start_of(y: int) -> int {
    365 * y + y / 4 - y / 100
}

proof fn lemma_leap_period(a: int, k: int)
    ensures
        is_leap_year(a + 400 * k) == is_leap_year(a),
{
    vstd::arithmetic::div_mod::lemma_mod_multiples_vanish(100 * k, a, 4);
    vstd::arithmetic::div_mod::lemma_mod_multiples_vanish(4 * k, a, 100);
    vstd::arithmetic::div_mod::lemma_mod_multiples_vanish(k, a, 400);
    assert(4 * (100 * k) + a == a + 400 * k);
    assert(100 * (4 * k) + a == a + 400 * k);
    assert(400 * k + a == a + 400 * k);
}

/// Day `36524 c + 1461 q + t` of an era, within the first 146096 days.
proof fn lemma_decomposed(c: int, q: int, t: int)
    requires
        0 <= c <= 3,
        0 <= q <= 24,
        0 <= t <= 1460,
        1461 * q + t < 36524,
    ensures
        ({
            let doe = 36524 * c + 1461 * q + t;
            let e: int = if 24 * c + q + t >= 1460 {
                1
            } else {
                0
            };
            &&& doe < 146096
            &&& 0 <= (t - e) / 365 <= 3
            &&& yoe_of(doe) == 100 * c + 4 * q + (t - e) / 365
            &&& doy_of(doe) == t - 365 * ((t - e) / 365)
        }),
{
    let doe = 36524 * c + 1461 * q + t;
    let r = 1461 * q + t;
    assert(doe / 146096 == 0);
    vstd::arithmetic::div_mod::lemma_fundamental_div_mod_converse(doe, 36524, c, r);
    assert(doe == 1460 * (25 * c + q) + (24 * c + q + t));
    let e: int = if 24 * c + q + t >= 1460 {
        1
    } else {
        0
    };
    assert(0 <= 24 * c + q + t - 1460 * e < 1460);
    vstd::arithmetic::div_mod::lemma_fundamental_div_mod_converse(
        doe,
        1460,
        25 * c + q + e,
        24 * c + q + t - 1460 * e,
    );
    let y4: int = (t - e) / 365;
    assert(0 <= y4 <= 3);
    assert(doe - doe / 1460 + doe / 36524 - doe / 146096 == 365 * (100 * c + 4 * q + y4) + (t - e
        - 365 * y4));
    let yoe = 100 * c + 4 * q + y4;
    vstd::arithmetic::div_mod::lemma_fundamental_div_mod_converse(
        doe - doe / 1460 + doe / 36524 - doe / 146096,
        365,
        yoe,
        t - e - 365 * y4,
    );
    assert(yoe / 4 == 25 * c + q);
    assert(yoe / 100 == c);
}

/// Where a day of an era falls: its year of the era and the day of that
/// year, which lies within the year's length.
proof fn lemma_era_range(doe: int)
    requires
        0 <= doe <= 146096,
    ensures
        0 <= yoe_of(doe) <= 399,
        0 <= doy_of(doe) < march_year_len(yoe_of(doe)),
        doe == 146096 ==> yoe_of(doe) == 399 && doy_of(doe) == 365,
{
    if doe == 146096 {
        assert(doe / 1460 == 100);
        assert(doe / 36524 == 4);
        assert(doe / 146096 == 1);
        assert(yoe_of(doe) == 399);
        assert(is_leap_year(400));
    } else {
        let c = doe / 36524;
        let r = doe % 36524;
        let q = r / 1461;
        let t = r % 1461;
        assert(0 <= q <= 24) by (nonlinear_arith)
            requires
                r == 1461 * q + r % 1461,
                0 <= r < 36524,
                0 <= r % 1461 < 1461,
        ;
        assert(doe == 36524 * c + 1461 * q + t);
        lemma_decomposed(c, q, t);
        let e: int = if 24 * c + q + t >= 1460 {
            1
        } else {
            0
        };
        let y4 = (t - e) / 365;
        if t - 365 * y4 == 365 {
            assert(e == 1);
            assert(y4 == 3);
            assert(t == 1460);
            assert(q <= 23);
            assert((yoe_of(doe) + 1) % 4 == 0);
            assert((yoe_of(doe) + 1) % 100 != 0);
        }
    }
}

/// A year of an era that is not its last begins the day after the previous
/// one ends.
proof fn lemma_next_start(y: int)
    requires
        0 <= y <= 398,
    ensures
        start_of(y + 1) == start_of(y) + march_year_len(y),
{
    assert((y + 1) % 400 != 0);
}

/// Day `d` of year `y` of an era is found again from its position.
proof fn lemma_era_inverse(y: int, d: int)
    requires
        0 <= y <= 399,
        0 <= d < march_year_len(y),
        !(y == 399 && d == 365),
    ensures
        start_of(y) + d < 146096,
        yoe_of(start_of(y) + d) == y,
        doy_of(start_of(y) + d) == d,
{
    let c = y / 100;
    let q = (y % 100) / 4;
    let y4 = y % 4;
    assert(y == 100 * c + 4 * q + y4);
    assert(y / 4 == 25 * c + q);
    assert(start_of(y) == 36524 * c + 1461 * q + 365 * y4);
    let t = 365 * y4 + d;
    if d == 365 {
        assert(is_leap_year(y + 1));
        assert(y4 == 3);
        assert(q <= 23);
    }
    assert(t <= 1460);
    assert(1461 * q + t < 36524);
    lemma_decomposed(c, q, t);
    let e: int = if 24 * c + q + t >= 1460 {
        1
    } else {
        0
    };
    assert((t - e) / 365 == y4);
}

/// Within an era, the day after day `doe` is the next day of the same year,
/// or the first day of the next year.
proof fn lemma_era_step(doe: int)
    requires
        0 <= doe < 146096,
    ensures
        ({
            let y = yoe_of(doe);
            let d = doy_of(doe);
            if d + 1 < march_year_len(y) {
                yoe_of(doe + 1) == y && doy_of(doe + 1) == d + 1
            } else {
                yoe_of(doe + 1) == y + 1 && doy_of(doe + 1) == 0
            }
        }),
{
    lemma_era_range(doe);
    let y = yoe_of(doe);
    let d = doy_of(doe);
    assert(doe == start_of(y) + d);
    if d + 1 < march_year_len(y) {
        if y == 399 && d + 1 == 365 {
            lemma_era_range(doe + 1);
        } else {
            lemma_era_inverse(y, d + 1);
        }
    } else {
        if y == 399 {
            assert(is_leap_year(400));
            assert(false);
        }
        lemma_next_start(y);
        lemma_era_inverse(y + 1, 0);
    }
}

/// The conversion of day counts into dates follows the proleptic Gregorian
/// calendar: every date it gives is a real one (a month from 1 to 12, a day
/// within the month's length, February having 29 days in leap years only),
/// and the next day count gives the next calendar day.
pub proof fn law_civil_calendar(days: int)
    ensures
        ({
            let (y, m, d) = civil_from_days(days);
            1 <= m <= 12 && 1 <= d <= days_in_month(y, m)
        }),
        civil_from_days(days + 1) == day_after(civil_from_days(days)),
{
    let z = days + 719468;
    let era = z / 146097;
    let doe = z - era * 146097;
    assert(0 <= doe < 146097) by (nonlinear_arith)
        requires
            era == z / 146097,
            doe == z - era * 146097,
    ;
    lemma_era_range(doe);
    let y = yoe_of(doe);
    let d = doy_of(doe);
    lemma_leap_period(y + 1, era);
    assert(march_year_len(y + era * 400) == march_year_len(y));
    assert(civil_from_days(days) == date_of(y + era * 400, d));
    lemma_month_table(y + era * 400, d);
    let z2 = z + 1;
    if doe < 146096 {
        vstd::arithmetic::div_mod::lemma_fundamental_div_mod_converse(z2, 146097, era, doe + 1);
        lemma_era_step(doe);
        assert(civil_from_days(days + 1) == date_of(yoe_of(doe + 1) + era * 400, doy_of(doe + 1)));
    } else {
        vstd::arithmetic::div_mod::lemma_fundamental_div_mod_converse(z2, 146097, era + 1, 0);
        assert(yoe_of(0) == 0 && doy_of(0) == 0);
        assert(civil_from_days(days + 1) == date_of((era + 1) * 400, 0));
        assert(d + 1 == march_year_len(y));
        assert((era + 1) * 400 == y + era * 400 + 1);
    }
}

/// The seconds east of UTC that an offset such as `+0530` stands for, as
/// `date +%z` prints it: after trimming, at least 5 bytes, a sign, then two
/// characters of hours and two of minutes that each parse as an `i32`.
pub open spec fn offset_value(t: Seq<char>) -> Option<int> {
    if byte_len(t) < 5 {
        None
    } else if !(t[0] == '+' || t[0] == '-') {
        None
    } else if !(t.len() >= 5 && all_ascii(t.subrange(1, 5))) {
        None
    } else {
        match (
            parse_signed(t.subrange(1, 3), 10, i32::MIN as int, i32::MAX as nat),
            parse_signed(t.subrange(3, 5), 10, i32::MIN as int, i32::MAX as nat),
        ) {
            (Some(h), Some(m)) => Some(
                (if t[0] == '+' {
                    1int
                } else {
                    -1int
                }) * (h * 3600 + m * 60),
            ),
            _ => None,
        }
    }
}

/// Slicing the hours and minutes out of `t` by byte offsets does not cut a
/// character in two.
pub open spec fn offset_slices_ok(t: Seq<char>) -> bool {
    byte_len(t) >= 5 && (t[0] == '+' || t[0] == '-') ==> is_boundary(t, 3) && is_boundary(t, 5)
}

proof fn lemma_parse_two_digits(p: Seq<char>)
    requires
        p.len() == 2,
    ensures
        parse_signed(p, 10, i32::MIN as int, i32::MAX as nat) matches Some(v) ==> -9 <= v <= 99,
{
    reveal_with_fuel(crate::text::digits_value, 3);
    let one = p.drop_first();
    let head = p.drop_last();
    assert(one.drop_last().len() == 0);
    assert(head.drop_last().len() == 0);
    if let Some(x) = crate::text::digit_val(one.last(), 10) {
        assert(x < 10);
    }
    if let Some(x) = crate::text::digit_val(head.last(), 10) {
        assert(x < 10);
    }
    if let Some(x) = crate::text::digit_val(p.last(), 10) {
        assert(x < 10);
    }
    assert(one.last() == p.last());
}

/// Parse offset string like "+0500" or "-0800" to seconds
pub fn parse_offset_string(s: &str) -> (r: Option<i32>)
    requires
        offset_slices_ok(trim(s@)),
    ensures
        match offset_value(trim(s@)) {
            Some(v) => r == Some(v as i32) && -362340 <= v <= 362340,
            None => r is None,
        },
{
    let t = trimmed(chars_of(s).as_slice());
    if !byte_len_at_least(t.as_slice(), 5) {
        return None;
    }
    assert(t@.len() > 0) by {
        if t@.len() == 0 {
            assert(byte_len(t@) == 0);
        }
    }
    let sign: i32 = if t[0] == '+' {
        1
    } else if t[0] == '-' {
        -1
    } else {
        return None;
    };
    if !(t.len() >= 5) {
        return None;
    }
    let tail = slice_of(t.as_slice(), 1, 5);
    if !all_ascii_exec(tail.as_slice()) {
        return None;
    }
    let hp = slice_of(t.as_slice(), 1, 3);
    let mp = slice_of(t.as_slice(), 3, 5);
    proof {
        lemma_parse_two_digits(hp@);
        lemma_parse_two_digits(mp@);
    }
    let hours = match parse_int(hp.as_slice(), 10, i32::MIN as i64, i32::MAX as i64) {
        Some(h) => h,
        None => return None,
    };
    let minutes = match parse_int(mp.as_slice(), 10, i32::MIN as i64, i32::MAX as i64) {
        Some(m) => m,
        None => return None,
    };
    let h = hours as i32;
    let m = minutes as i32;
    Some(sign * (h * 3600 + m * 60))
}

/// The display name of a time-zone identifier: its last `/`-separated part,
/// underscores turned into spaces.
pub open spec fn zone_display_name(id: Seq<char>) -> Seq<char> {
    split(id, '/').last().map_values(|c: char| if c == '_' { ' ' } else { c })
}

/// An offset in seconds as `UTC+HH:MM` / `UTC-HH:MM`.
pub open spec fn offset_label(offset: int) -> Seq<char> {
    let a: nat = if offset < 0 { (-offset) as nat } else { offset as nat };
    "UTC"@ + (if offset >= 0 { "+"@ } else { "-"@ }) + pad_zeros(decimal(a / 3600), 2) + ":"@
        + pad_zeros(decimal((a % 3600) / 60), 2)
}

/// Characters of `s` with every `_` replaced by a space.
fn underscores_to_spaces(s: &[char]) -> (r: Vec<char>)
    ensures
        r@ == s@.map_values(|c: char| if c == '_' { ' ' } else { c }),
{
    let mut r: Vec<char> = Vec::new();
    let mut i: usize = 0;
    while i < s.len()
        invariant
            i <= s@.len(),
            r@ == s@.take(i as int).map_values(|c: char| if c == '_' { ' ' } else { c }),
        decreases s@.len() - i,
    {
        let c = s[i];
        r.push(if c == '_' { ' ' } else { c });
        i = i + 1;
        assert(r@ =~= s@.take(i as int).map_values(|c: char| if c == '_' { ' ' } else { c }));
    }
    assert(s@.take(i as int) =~= s@);
    r
}

/// The identifier of the current time zone: what `timedatectl` reported
/// (when it ran), else the content of `/etc/timezone`, each trimmed and when
/// not empty, else the target of the `/etc/localtime` link below the zone
/// database; none means UTC.
pub open spec fn timezone_id_of(
    timedatectl: Option<Seq<char>>,
    etc_timezone: Option<Seq<char>>,
    localtime_link: Option<Seq<char>>,
) -> Option<Seq<char>> {
    match timedatectl {
        Some(t) if trim(t).len() > 0 => Some(trim(t)),
        _ => match etc_timezone {
            Some(e) if trim(e).len() > 0 => Some(trim(e)),
            _ => match localtime_link {
                Some(l) if starts_with(l, "/usr/share/zoneinfo/"@) => Some(
                    l.skip("/usr/share/zoneinfo/"@.len() as int),
                ),
                _ => None,
            },
        },
    }
}

/// The view of an optional text.
pub open spec fn opt_text(o: Option<&str>) -> Option<Seq<char>> {
    match o {
        Some(s) => Some(s@),
        None => None,
    }
}

/// The offset that the output of `date +%z` gives, 0 when there is none
/// or it does not read as an offset.
pub open spec fn date_offset(date_output: Option<Seq<char>>) -> int {
    match date_output {
        Some(o) => match offset_value(trim(o)) {
            Some(v) => v,
            None => 0,
        },
        None => 0,
    }
}

impl DateTimeBackend {
    /// The identifier of the current time zone, from the output of
    /// `timedatectl show --property=Timezone --value` (when it succeeded),
    /// the content of `/etc/timezone` and the target of `/etc/localtime`;
    /// `None` stands for UTC.
    pub fn get_timezone(
        &self,
        timedatectl: Option<&str>,
        etc_timezone: Option<&str>,
        localtime_link: Option<&str>,
    ) -> (r: Option<String>)
        ensures
            match r {
                Some(id) => timezone_id_of(
                    opt_text(timedatectl),
                    opt_text(etc_timezone),
                    opt_text(localtime_link),
                ) == Some(id@),
                None => timezone_id_of(
                    opt_text(timedatectl),
                    opt_text(etc_timezone),
                    opt_text(localtime_link),
                ) is None,
            },
    {
        if let Some(t) = timedatectl {
            let tz = trimmed(chars_of(t).as_slice());
            if tz.len() > 0 {
                return Some(string_of(tz.as_slice()));
            }
        }
        if let Some(e) = etc_timezone {
            let tz = trimmed(chars_of(e).as_slice());
            if tz.len() > 0 {
                return Some(string_of(tz.as_slice()));
            }
        }
        if let Some(l) = localtime_link {
            match strip_prefix_str(chars_of(l).as_slice(), "/usr/share/zoneinfo/") {
                Some(rest) => {
                    return Some(string_of(rest.as_slice()));
                },
                None => {},
            }
        }
        None
    }

    /// The time zone of an identifier, with the offset from UTC that
    /// `date +%z` printed for it (0 when it printed none).
    pub fn parse_timezone(&self, identifier: &str, date_output: Option<&str>) -> (r: TimezoneInfo)
        requires
            date_output matches Some(o) ==> offset_slices_ok(trim(o@)),
        ensures
            r.identifier@ == identifier@,
            r.display_name@ == zone_display_name(identifier@),
            r.utc_offset == date_offset(opt_text(date_output)),
            r.utc_offset_str@ == offset_label(date_offset(opt_text(date_output))),
    {
        let offset: i32 = match date_output {
            Some(o) => match parse_offset_string(o) {
                Some(v) => v,
                None => 0,
            },
            None => 0,
        };
        TimezoneInfo::from_offset(identifier, offset)
    }
}

impl TimezoneInfo {
    /// The time zone of an identifier whose offset from UTC is known.
    pub fn from_offset(identifier: &str, offset: i32) -> (r: Self)
        requires
            offset != i32::MIN,
        ensures
            r.identifier@ == identifier@,
            r.display_name@ == zone_display_name(identifier@),
            r.utc_offset == offset,
            r.utc_offset_str@ == offset_label(offset as int),
    {
        let id = chars_of(identifier);
        let parts = split_on(id.as_slice(), '/');
        proof {
            crate::text::lemma_split_nonempty(id@, '/');
        }
        let last = parts.len() - 1;
        assert(views(parts@)[last as int] == parts@[last as int]@);
        let display = underscores_to_spaces(parts[last].as_slice());
        let a: u32 = if offset < 0 {
            (0 - offset) as u32
        } else {
            offset as u32
        };
        let mut label: Vec<char> = chars_of("UTC");
        if offset >= 0 {
            append_str(&mut label, "+");
        } else {
            append_str(&mut label, "-");
        }
        let hh = padded_u64((a / 3600) as u64, 2);
        append(&mut label, hh.as_slice());
        append_str(&mut label, ":");
        let mm = padded_u64(((a % 3600) / 60) as u64, 2);
        append(&mut label, mm.as_slice());
        TimezoneInfo {
            identifier: string_from(identifier),
            display_name: string_of(display.as_slice()),
            utc_offset: offset,
            utc_offset_str: string_of(label.as_slice()),
        }
    }

    /// The zone used when no time zone can be determined.
    pub fn utc() -> (r: Self)
        ensures
            r.identifier@ == "UTC"@,
            r.display_name@ == "Coordinated Universal Time"@,
            r.utc_offset == 0,
            r.utc_offset_str@ == "UTC+00:00"@,
    {
        TimezoneInfo {
            identifier: string_from("UTC"),
            display_name: string_from("Coordinated Universal Time"),
            utc_offset: 0,
            utc_offset_str: string_from("UTC+00:00"),
        }
    }
}

/// The local time in seconds since the epoch: the timestamp taken as
/// signed, the offset added, the sum taken as unsigned.
pub open spec fn local_seconds(timestamp: u64, offset: i32) -> u64 {
    ((timestamp as i64) as int + offset as int) as i64 as u64
}

/// The date string in the chosen format.
pub open spec fn date_string(f: DateFormat, y: i32, m: u8, d: u8) -> Seq<char> {
    let ys = signed_padded(y as int, 4);
    let ms = pad_zeros(decimal(m as nat), 2);
    let ds = pad_zeros(decimal(d as nat), 2);
    match f {
        DateFormat::YearMonthDay => ys + "-"@ + ms + "-"@ + ds,
        DateFormat::MonthDayYear => ms + "/"@ + ds + "/"@ + ys,
        DateFormat::DayMonthYear => ds + "."@ + ms + "."@ + ys,
    }
}

/// `HH:MM:SS`.
pub open spec fn clock_string(h: nat, m: nat, s: nat) -> Seq<char> {
    pad_zeros(decimal(h), 2) + ":"@ + pad_zeros(decimal(m), 2) + ":"@ + pad_zeros(decimal(s), 2)
}

/// The hour on a 12-hour clock and its AM/PM mark.
pub open spec fn twelve_hour(h: nat) -> (nat, Seq<char>) {
    if h == 0 {
        (12, "AM"@)
    } else if h < 12 {
        (h, "AM"@)
    } else if h == 12 {
        (12, "PM"@)
    } else {
        ((h - 12) as nat, "PM"@)
    }
}

/// The date and time at a timestamp in a time zone, as the settings page
/// shows it.
pub open spec fn datetime_ok(
    info: DateTimeInfo,
    timestamp: u64,
    zone: TimezoneInfo,
    f: DateFormat,
) -> bool {
    let local = local_seconds(timestamp, zone.utc_offset);
    let rem = local as int % 86400;
    let ymd = civil_from_days(local as int / 86400);
    let h = (rem / 3600) as nat;
    let mi = ((rem % 3600) / 60) as nat;
    let sec = (rem % 60) as nat;
    &&& info.timestamp == timestamp
    &&& info.year == ymd.0 as i32
    &&& info.month == ymd.1 as u8
    &&& info.day == ymd.2 as u8
    &&& info.hour == h
    &&& info.minute == mi
    &&& info.second == sec
    &&& info.weekday == (timestamp as int / 86400 + 4) % 7
    &&& info.date_str@ == date_string(f, info.year, info.month, info.day)
    &&& info.time_str_24h@ == clock_string(h, mi, sec)
    &&& info.time_str_12h@ == clock_string(twelve_hour(h).0, mi, sec) + " "@ + twelve_hour(h).1
    &&& info.timezone == zone
}

/// On the 12-hour clock, hours 0 to 11 are AM and hours 12 to 23 are PM,
/// and the hour shown runs 12, 1, 2, ..., 11 twice a day.
pub proof fn law_twelve_hour_clock(h: nat)
    requires
        h < 24,
    ensures
        twelve_hour(h).1 == (if h >= 12 { "PM"@ } else { "AM"@ }),
        twelve_hour(h).0 == (h + 11) % 12 + 1,
        1 <= twelve_hour(h).0 <= 12,
{
}

/// The 12-hour clock text of a date record is its 24-hour time with the
/// hour taken round the 12-hour dial, followed by PM from noon on and AM
/// before.
pub proof fn law_datetime_twelve_hour(info: DateTimeInfo, timestamp: u64, zone: TimezoneInfo, f: DateFormat)
    requires
        datetime_ok(info, timestamp, zone, f),
    ensures
        info.hour < 24,
        info.time_str_12h@ == clock_string(
            ((info.hour + 11) % 12 + 1) as nat,
            info.minute as nat,
            info.second as nat,
        ) + " "@ + (if info.hour >= 12 { "PM"@ } else { "AM"@ }),
{
    law_twelve_hour_clock(info.hour as nat);
}

impl DateTimeBackend {
    /// The date and time at `timestamp` in time zone `timezone`, formatted
    /// with this backend's date format.
    pub fn get_datetime(&self, timestamp: u64, timezone: TimezoneInfo) -> (r: DateTimeInfo)
        requires
            i64::MIN <= (timestamp as i64) as int + timezone.utc_offset as int <= i64::MAX,
        ensures
            datetime_ok(r, timestamp, timezone, self.date_format),
    {
        let local_timestamp = (timestamp as i64 + timezone.utc_offset as i64) as u64;
        let local_remaining = local_timestamp % 86400;
        let local_hour = (local_remaining / 3600) as u8;
        let local_minute = ((local_remaining % 3600) / 60) as u8;
        let local_second = (local_remaining % 60) as u8;
        let local_days = (local_timestamp / 86400) as i64;
        let weekday = ((timestamp / 86400 + 4) % 7) as u8;
        let (local_year, local_month, local_day) = days_to_ymd(local_days);
        let ys = padded_i64(local_year as i64, 4);
        let ms = padded_u64(local_month as u64, 2);
        let ds = padded_u64(local_day as u64, 2);
        let mut date: Vec<char> = Vec::new();
        match self.date_format {
            DateFormat::YearMonthDay => {
                append(&mut date, ys.as_slice());
                append_str(&mut date, "-");
                append(&mut date, ms.as_slice());
                append_str(&mut date, "-");
                append(&mut date, ds.as_slice());
            },
            DateFormat::MonthDayYear => {
                append(&mut date, ms.as_slice());
                append_str(&mut date, "/");
                append(&mut date, ds.as_slice());
                append_str(&mut date, "/");
                append(&mut date, ys.as_slice());
            },
            DateFormat::DayMonthYear => {
                append(&mut date, ds.as_slice());
                append_str(&mut date, ".");
                append(&mut date, ms.as_slice());
                append_str(&mut date, ".");
                append(&mut date, ys.as_slice());
            },
        }
        let t24 = clock(local_hour as u64, local_minute as u64, local_second as u64);
        let (hour_12, ampm): (u8, &str) = if local_hour == 0 {
            (12, "AM")
        } else if local_hour < 12 {
            (local_hour, "AM")
        } else if local_hour == 12 {
            (12, "PM")
        } else {
            (local_hour - 12, "PM")
        };
        let mut t12 = clock(hour_12 as u64, local_minute as u64, local_second as u64);
        append_str(&mut t12, " ");
        append_str(&mut t12, ampm);
        DateTimeInfo {
            timestamp,
            year: local_year,
            month: local_month,
            day: local_day,
            hour: local_hour,
            minute: local_minute,
            second: local_second,
            weekday,
            date_str: string_of(date.as_slice()),
            time_str_24h: string_of(t24.as_slice()),
            time_str_12h: string_of(t12.as_slice()),
            timezone,
        }
    }

    /// The time string of `info` in this backend's time format.
    pub fn get_formatted_time(&self, info: DateTimeInfo) -> (r: String)
        ensures
            r@ == (match self.time_format {
                TimeFormat::TwelveHour => info.time_str_12h@,
                TimeFormat::TwentyFourHour => info.time_str_24h@,
            }),
    {
        match self.time_format {
            TimeFormat::TwelveHour => info.time_str_12h,
            TimeFormat::TwentyFourHour => info.time_str_24h,
        }
    }

    /// The date string of `info`.
    pub fn get_formatted_date(&self, info: DateTimeInfo) -> (r: String)
        ensures
            r@ == info.date_str@,
    {
        info.date_str
    }

    /// The argument of `timedatectl set-time` that sets the time of day:
    /// `HH:MM:SS`.
    pub fn time_argument(hour: u8, minute: u8, second: u8) -> (r: String)
        ensures
            r@ == clock_string(hour as nat, minute as nat, second as nat),
    {
        let c = clock(hour as u64, minute as u64, second as u64);
        string_of(c.as_slice())
    }

    /// The argument of `timedatectl set-time` that sets the date:
    /// `YYYY-MM-DD`.
    pub fn date_argument(year: i32, month: u8, day: u8) -> (r: String)
        ensures
            r@ == date_string(DateFormat::YearMonthDay, year, month, day),
    {
        let mut d = padded_i64(year as i64, 4);
        append_str(&mut d, "-");
        let ms = padded_u64(month as u64, 2);
        append(&mut d, ms.as_slice());
        append_str(&mut d, "-");
        let ds = padded_u64(day as u64, 2);
        append(&mut d, ds.as_slice());
        string_of(d.as_slice())
    }
}

/// `HH:MM:SS`.
fn clock(h: u64, m: u64, s: u64) -> (r: Vec<char>)
    ensures
        r@ == clock_string(h as nat, m as nat, s as nat),
{
    let mut r = padded_u64(h, 2);
    append_str(&mut r, ":");
    let mm = padded_u64(m, 2);
    append(&mut r, mm.as_slice());
    append_str(&mut r, ":");
    let ss = padded_u64(s, 2);
    append(&mut r, ss.as_slice());
    r
}

/// Whether the last line of `ls` of the form `key=value` says `key=yes`
/// (false when no line has that key).
pub open spec fn key_is_yes(ls: Seq<Seq<char>>, key: Seq<char>) -> bool
    decreases ls.len(),
{
    if ls.len() == 0 {
        false
    } else {
        match split_once(ls.last(), '=') {
            Some((k, v)) => if k == key {
                v == "yes"@
            } else {
                key_is_yes(ls.drop_last(), key)
            },
            None => key_is_yes(ls.drop_last(), key),
        }
    }
}

/// The first line of `ls` that contains `pat`.
pub open spec fn first_containing(ls: Seq<Seq<char>>, pat: Seq<char>) -> Option<Seq<char>>
    decreases ls.len(),
{
    if ls.len() == 0 {
        None
    } else if contains(ls[0], pat) {
        Some(ls[0])
    } else {
        first_containing(ls.drop_first(), pat)
    }
}

/// The last whitespace-separated word of `l`, or nothing.
pub open spec fn last_word(l: Seq<char>) -> Seq<char> {
    if words(l).len() > 0 {
        words(l).last()
    } else {
        Seq::<char>::empty()
    }
}

/// The NTP server that `systemctl status systemd-timesyncd` names.
pub open spec fn timesync_server(status: Option<Seq<char>>) -> Option<Seq<char>> {
    match status {
        Some(s) => match first_containing(lines(s), "Server:"@) {
            Some(l) => Some(last_word(l)),
            None => None,
        },
        None => None,
    }
}

pub fn key_is_yes_exec(ls: &Vec<Vec<char>>, key: &str) -> (r: bool)
    ensures
        r == key_is_yes(views(ls@), key@),
{
    let mut found = false;
    let mut i: usize = 0;
    assert(views(ls@).take(0) =~= Seq::<Seq<char>>::empty());
    while i < ls.len()
        invariant
            i <= ls@.len(),
            found == key_is_yes(views(ls@).take(i as int), key@),
        decreases ls@.len() - i,
    {
        assert(views(ls@).take(i + 1).drop_last() =~= views(ls@).take(i as int));
        assert(views(ls@)[i as int] == ls@[i as int]@);
        match split_once_exec(ls[i].as_slice(), '=') {
            Some((k, v)) => {
                if eq_str(k.as_slice(), key) {
                    found = eq_str(v.as_slice(), "yes");
                }
            },
            None => {},
        }
        i = i + 1;
    }
    assert(views(ls@).take(i as int) =~= views(ls@));
    found
}

pub fn first_containing_exec(ls: &Vec<Vec<char>>, pat: &str) -> (r: Option<Vec<char>>)
    ensures
        match first_containing(views(ls@), pat@) {
            Some(l) => r matches Some(x) && x@ == l,
            None => r is None,
        },
{
    let mut i: usize = 0;
    assert(views(ls@).skip(0) =~= views(ls@));
    while i < ls.len()
        invariant
            i <= ls@.len(),
            first_containing(views(ls@), pat@) == first_containing(views(ls@).skip(i as int), pat@),
        decreases ls@.len() - i,
    {
        assert(views(ls@).skip(i as int)[0] == ls@[i as int]@);
        assert(views(ls@).skip(i as int).drop_first() =~= views(ls@).skip(i + 1));
        if contains_str(ls[i].as_slice(), pat) {
            return Some(ls[i].clone());
        }
        i = i + 1;
    }
    None
}

pub fn last_word_exec(l: &[char]) -> (r: Vec<char>)
    ensures
        r@ == last_word(l@),
{
    let ws = split_ws(l);
    if ws.len() > 0 {
        assert(views(ws@)[ws@.len() - 1] == ws@[ws@.len() - 1]@);
        ws[ws.len() - 1].clone()
    } else {
        Vec::new()
    }
}

/// The NTP status that `timedatectl show` reports, with the server taken
/// from the status of the time synchronization service when it is known.
pub fn parse_ntp_status(show_output: &str, timesync_status: Option<&str>) -> (r: NtpStatus)
    ensures
        r.enabled == key_is_yes(lines(show_output@), "NTP"@),
        r.synchronized == key_is_yes(lines(show_output@), "NTPSynchronized"@),
        match timesync_server(match timesync_status {
            Some(s) => Some(s@),
            None => None,
        }) {
            Some(v) => r.server matches Some(x) && x@ == v,
            None => r.server is None,
        },
        r.last_sync is None,
{
    let ls = lines_of(chars_of(show_output).as_slice());
    let enabled = key_is_yes_exec(&ls, "NTP");
    let synchronized = key_is_yes_exec(&ls, "NTPSynchronized");
    let server = match timesync_status {
        Some(st) => {
            let sl = lines_of(chars_of(st).as_slice());
            match first_containing_exec(&sl, "Server:") {
                Some(l) => Some(string_of(last_word_exec(l.as_slice()).as_slice())),
                None => None,
            }
        },
        None => None,
    };
    NtpStatus { enabled, synchronized, server, last_sync: None }
}

/// The trimmed non-empty lines of `ls`, in order.
pub open spec fn nonempty_trimmed(ls: Seq<Seq<char>>) -> Seq<Seq<char>>
    decreases ls.len(),
{
    if ls.len() == 0 {
        Seq::<Seq<char>>::empty()
    } else if trim(ls.last()).len() > 0 {
        nonempty_trimmed(ls.drop_last()).push(trim(ls.last()))
    } else {
        nonempty_trimmed(ls.drop_last())
    }
}

/// The time zones that `timedatectl list-timezones` lists: its trimmed,
/// non-empty lines.
pub fn parse_timezone_list(output: &str) -> (r: Vec<String>)
    ensures
        string_views(r@) == nonempty_trimmed(lines(output@)),
{
    let ls = lines_of(chars_of(output).as_slice());
    let mut r: Vec<String> = Vec::new();
    let mut i: usize = 0;
    assert(views(ls@).take(0) =~= Seq::<Seq<char>>::empty());
    assert(string_views(r@) =~= nonempty_trimmed(views(ls@).take(0)));
    while i < ls.len()
        invariant
            i <= ls@.len(),
            string_views(r@) == nonempty_trimmed(views(ls@).take(i as int)),
        decreases ls@.len() - i,
    {
        assert(views(ls@).take(i + 1).drop_last() =~= views(ls@).take(i as int));
        assert(views(ls@)[i as int] == ls@[i as int]@);
        let t = trimmed(ls[i].as_slice());
        if t.len() > 0 {
            let ghost old_r = r@;
            r.push(string_of(t.as_slice()));
            assert(string_views(r@) =~= string_views(old_r).push(t@));
        }
        i = i + 1;
    }
    assert(views(ls@).take(i as int) =~= views(ls@));
    r
}

} // verus!
