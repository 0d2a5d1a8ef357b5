use kikan::calendar::{days_to_ymd, decimal_len, format_timestamp, push_decimal, push_padded};

#[test]
fn days_to_ymd_epoch_is_new_year_1970() {
    assert_eq!(days_to_ymd(0), (1970, 1, 1));
}

#[test]
fn days_to_ymd_known_dates() {
    assert_eq!(days_to_ymd(59), (1970, 3, 1));
    assert_eq!(days_to_ymd(11016), (2000, 2, 29));
    assert_eq!(days_to_ymd(11017), (2000, 3, 1));
    assert_eq!(days_to_ymd(19723), (2024, 1, 1));
    assert_eq!(days_to_ymd(19782), (2024, 2, 29));
    assert_eq!(days_to_ymd(19783), (2024, 3, 1));
}

#[test]
fn days_to_ymd_century_non_leap() {
    // 2100-02-28 and the day after it.
    assert_eq!(days_to_ymd(47540), (2100, 2, 28));
    assert_eq!(days_to_ymd(47541), (2100, 3, 1));
}

#[test]
fn format_timestamp_renders_utc_date() {
    assert_eq!(format_timestamp(0), "1970-01-01");
    assert_eq!(format_timestamp(86399), "1970-01-01");
    assert_eq!(format_timestamp(86400), "1970-01-02");
    assert_eq!(format_timestamp(1_700_000_000), "2023-11-14");
    assert_eq!(format_timestamp(951_782_400), "2000-02-29");
}

#[test]
fn format_timestamp_negative_reads_as_unsigned() {
    let expected_days = (-1i64 as u64) / 86400;
    let (y, m, d) = days_to_ymd(expected_days);
    assert_eq!(format_timestamp(-1), format!("{y:04}-{m:02}-{d:02}"));
}

#[test]
fn decimal_helpers() {
    let mut s = String::from("n=");
    push_decimal(&mut s, 0);
    push_decimal(&mut s, 1234);
    assert_eq!(s, "n=01234");
    assert_eq!(decimal_len(0), 1);
    assert_eq!(decimal_len(9), 1);
    assert_eq!(decimal_len(10), 2);
    assert_eq!(decimal_len(u64::MAX), 20);
    let mut p = String::new();
    push_padded(&mut p, 7, 4);
    push_padded(&mut p, 12345, 2);
    assert_eq!(p, "000712345");
}
