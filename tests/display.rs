use tmx::{days_to_ymd, decimal, format_relative_time, shorten_path};

#[test]
fn epoch_and_known_days() {
    assert_eq!(days_to_ymd(0), (1970, 1, 1));
    assert_eq!(days_to_ymd(31), (1970, 2, 1));
    assert_eq!(days_to_ymd(365), (1971, 1, 1));
    assert_eq!(days_to_ymd(10957), (2000, 1, 1));
    assert_eq!(days_to_ymd(11016), (2000, 2, 29));
    assert_eq!(days_to_ymd(11017), (2000, 3, 1));
    assert_eq!(days_to_ymd(19723), (2024, 1, 1));
    assert_eq!(days_to_ymd(20088), (2024, 12, 31));
    assert_eq!(days_to_ymd(146097), (2370, 1, 1));
}

#[test]
fn century_years_are_not_leap() {
    // 2100-02-28 is followed by 2100-03-01.
    assert_eq!(days_to_ymd(47540), (2100, 2, 28));
    assert_eq!(days_to_ymd(47541), (2100, 3, 1));
}

#[test]
fn decimal_digits() {
    assert_eq!(decimal(0), "0");
    assert_eq!(decimal(7), "7");
    assert_eq!(decimal(10), "10");
    assert_eq!(decimal(1234567890), "1234567890");
    assert_eq!(decimal(u64::MAX), "18446744073709551615");
}

#[test]
fn relative_times_within_a_week() {
    assert_eq!(format_relative_time(0, 100), "unknown");
    assert_eq!(format_relative_time(200, 100), "just now");
    assert_eq!(format_relative_time(100, 145), "45s ago");
    assert_eq!(format_relative_time(1000, 1125), "2m ago");
    assert_eq!(format_relative_time(1000, 1000 + 7300), "2h ago");
    assert_eq!(format_relative_time(1000, 1000 + 3 * 86400 + 5), "3d ago");
}

#[test]
fn older_times_show_the_date() {
    let ts = 1704067200 + 13 * 3600 + 5 * 60;
    assert_eq!(format_relative_time(ts, ts + 604800), "Jan 1 2024 13:05");
    assert_eq!(format_relative_time(86400 * 11017 + 59, 4_000_000_000), "Mar 1 2000 00:00");
}

#[test]
fn home_becomes_tilde() {
    let home = Some("/home/u".to_string());
    assert_eq!(shorten_path("/home/u/src", home.clone()), "~/src");
    assert_eq!(shorten_path("/home/u", home.clone()), "~");
    assert_eq!(shorten_path("/tmp/x", home), "/tmp/x");
    assert_eq!(shorten_path("/home/u/src", None), "/home/u/src");
}
