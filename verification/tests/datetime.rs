use osvwm::datetime::{
    days_to_ymd, parse_ntp_status, parse_offset_string, parse_timezone_list, DateFormat,
    DateTimeBackend, TimeFormat, TimezoneInfo,
};

#[test]
fn test_days_to_ymd() {
    // Jan 1, 1970
    assert_eq!(days_to_ymd(0), (1970, 1, 1));
    // Dec 31, 1969
    assert_eq!(days_to_ymd(-1), (1969, 12, 31));
    // Jan 1, 2000
    assert_eq!(days_to_ymd(10957), (2000, 1, 1));
    // Jan 1, 2024
    assert_eq!(days_to_ymd(19723), (2024, 1, 1));
}

#[test]
fn days_to_ymd_leap_days() {
    // Feb 29, 2000 and Mar 1, 2000
    assert_eq!(days_to_ymd(11016), (2000, 2, 29));
    assert_eq!(days_to_ymd(11017), (2000, 3, 1));
    // 1900 is not a leap year: Mar 1, 1900
    assert_eq!(days_to_ymd(-25508), (1900, 3, 1));
}

#[test]
fn test_parse_offset_string() {
    assert_eq!(parse_offset_string("+0000"), Some(0));
    assert_eq!(parse_offset_string("+0500"), Some(5 * 3600));
    assert_eq!(parse_offset_string("-0800"), Some(-8 * 3600));
    assert_eq!(parse_offset_string("+0530"), Some(5 * 3600 + 30 * 60));
}

#[test]
fn parse_offset_string_rejects_bad_input() {
    assert_eq!(parse_offset_string("0500"), None);
    assert_eq!(parse_offset_string("+05"), None);
    assert_eq!(parse_offset_string("+ab00"), None);
    assert_eq!(parse_offset_string("  -0330 "), Some(-(3 * 3600 + 30 * 60)));
}

#[test]
fn test_weekday_names() {
    assert_eq!(DateTimeBackend::get_weekday_name(0), "Sunday");
    assert_eq!(DateTimeBackend::get_weekday_name(1), "Monday");
    assert_eq!(DateTimeBackend::get_weekday_name(6), "Saturday");
}

#[test]
fn test_month_names() {
    assert_eq!(DateTimeBackend::get_month_name(1), "January");
    assert_eq!(DateTimeBackend::get_month_name(12), "December");
}

#[test]
fn names_out_of_range_are_unknown() {
    assert_eq!(DateTimeBackend::get_weekday_name(7), "Unknown");
    assert_eq!(DateTimeBackend::get_month_name(0), "Unknown");
    assert_eq!(DateTimeBackend::get_month_name(13), "Unknown");
}

#[test]
fn time_zone_labels() {
    let z = TimezoneInfo::from_offset("America/New_York", -5 * 3600);
    assert_eq!(z.display_name, "New York");
    assert_eq!(z.utc_offset_str, "UTC-05:00");
    let k = TimezoneInfo::from_offset("Asia/Kolkata", 5 * 3600 + 1800);
    assert_eq!(k.utc_offset_str, "UTC+05:30");
    let u = TimezoneInfo::utc();
    assert_eq!(u.utc_offset, 0);
    assert_eq!(u.utc_offset_str, "UTC+00:00");
}

#[test]
fn datetime_of_a_timestamp() {
    let mut b = DateTimeBackend::new();
    // 2024-01-01 13:05:09 UTC is a Monday.
    let ts = 19723 * 86400 + 13 * 3600 + 5 * 60 + 9;
    let info = b.get_datetime(ts, TimezoneInfo::utc());
    assert_eq!((info.year, info.month, info.day), (2024, 1, 1));
    assert_eq!((info.hour, info.minute, info.second), (13, 5, 9));
    assert_eq!(info.weekday, 1);
    assert_eq!(info.date_str, "2024-01-01");
    assert_eq!(info.time_str_24h, "13:05:09");
    assert_eq!(info.time_str_12h, "01:05:09 PM");
    b.time_format = TimeFormat::TwelveHour;
    assert_eq!(b.get_formatted_time(info.clone()), "01:05:09 PM");
    b.date_format = DateFormat::DayMonthYear;
    let later = b.get_datetime(ts, TimezoneInfo::from_offset("Asia/Tokyo", 9 * 3600));
    assert_eq!(later.date_str, "01.01.2024");
    assert_eq!(later.time_str_24h, "22:05:09");
    assert_eq!(b.get_formatted_date(later), "01.01.2024");
}

#[test]
fn midnight_is_twelve_am() {
    let b = DateTimeBackend::new();
    let info = b.get_datetime(0, TimezoneInfo::utc());
    assert_eq!(info.time_str_12h, "12:00:00 AM");
    assert_eq!(info.weekday, 4);
    assert_eq!(info.date_str, "1970-01-01");
}

#[test]
fn ntp_and_timezone_listing() {
    let show = "NTP=yes\nNTPSynchronized=no\nTimezone=Europe/Berlin\n";
    let st = parse_ntp_status(show, Some("       Server: 192.168.1.1 (pool.ntp.org)\n"));
    assert!(st.enabled);
    assert!(!st.synchronized);
    assert_eq!(st.server, Some("(pool.ntp.org)".to_string()));
    let zones = parse_timezone_list("Europe/Berlin\n\nUTC\n");
    assert_eq!(zones, vec!["Europe/Berlin".to_string(), "UTC".to_string()]);
}

#[test]
fn timezone_sources_in_order() {
    let b = DateTimeBackend::new();
    assert_eq!(
        b.get_timezone(Some("Europe/Berlin\n"), Some("Asia/Tokyo"), None),
        Some("Europe/Berlin".to_string())
    );
    assert_eq!(
        b.get_timezone(Some("  \n"), Some("Asia/Tokyo\n"), None),
        Some("Asia/Tokyo".to_string())
    );
    assert_eq!(
        b.get_timezone(None, None, Some("/usr/share/zoneinfo/America/New_York")),
        Some("America/New_York".to_string())
    );
    assert_eq!(b.get_timezone(None, Some(""), Some("/etc/zoneinfo/UTC")), None);
    assert_eq!(b.get_timezone(None, None, None), None);
}

#[test]
fn timezone_with_date_offset() {
    let b = DateTimeBackend::new();
    let z = b.parse_timezone("America/New_York", Some("-0500\n"));
    assert_eq!(z.identifier, "America/New_York");
    assert_eq!(z.display_name, "New York");
    assert_eq!(z.utc_offset, -18000);
    assert_eq!(z.utc_offset_str, "UTC-05:00");
    let k = b.parse_timezone("Asia/Kolkata", Some("+0530"));
    assert_eq!(k.utc_offset, 19800);
    assert_eq!(k.utc_offset_str, "UTC+05:30");
    let u = b.parse_timezone("UTC", None);
    assert_eq!(u.display_name, "UTC");
    assert_eq!(u.utc_offset, 0);
    assert_eq!(u.utc_offset_str, "UTC+00:00");
}

#[test]
fn timedatectl_arguments() {
    assert_eq!(DateTimeBackend::time_argument(7, 5, 9), "07:05:09");
    assert_eq!(DateTimeBackend::time_argument(23, 59, 0), "23:59:00");
    assert_eq!(DateTimeBackend::date_argument(2024, 2, 29), "2024-02-29");
    assert_eq!(DateTimeBackend::date_argument(987, 12, 1), "0987-12-01");
    assert_eq!(DateTimeBackend::date_argument(-5, 1, 1), "-005-01-01");
}

#[test]
fn weekday_follows_the_utc_date() {
    let b = DateTimeBackend::new();
    // 1970-01-04T01:00Z is a Sunday in UTC; five hours west the local date is
    // still 3 January, but the weekday is that of the UTC date.
    let info = b.get_datetime(262_800, TimezoneInfo::from_offset("America/New_York", -5 * 3600));
    assert_eq!((info.year, info.month, info.day, info.hour), (1970, 1, 3, 20));
    assert_eq!(info.weekday, 0);
    let utc = b.get_datetime(262_800, TimezoneInfo::utc());
    assert_eq!(utc.weekday, 0);
}

#[test]
fn consecutive_day_numbers_are_consecutive_dates() {
    // 1900 is not a leap year: February ends on the 28th.
    assert_eq!(days_to_ymd(-25509), (1900, 2, 28));
    assert_eq!(days_to_ymd(-25508), (1900, 3, 1));
    // The last day of a year is followed by New Year's Day.
    assert_eq!(days_to_ymd(10956), (1999, 12, 31));
    assert_eq!(days_to_ymd(10957), (2000, 1, 1));
    // 2024 is a leap year.
    assert_eq!(days_to_ymd(19782), (2024, 2, 29));
    assert_eq!(days_to_ymd(19783), (2024, 3, 1));
}
