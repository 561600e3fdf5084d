use chrono::Datelike;
use rtk_core::tee::stamp::parse_timestamp_from_filename;

#[test]
fn stamp_of_tee_file_name() {
    assert_eq!(
        parse_timestamp_from_filename("20240115_103045_git_status.log"),
        Some(1705314645)
    );
}

#[test]
fn stamp_of_epoch() {
    assert_eq!(parse_timestamp_from_filename("19700101_000000_x.log"), Some(0));
}

#[test]
fn stamp_accepts_leap_day() {
    assert_eq!(parse_timestamp_from_filename("20240229_000000_x.log"), Some(1709164800));
}

#[test]
fn stamp_rejects_missing_day() {
    assert_eq!(parse_timestamp_from_filename("20230229_000000_x.log"), None);
    assert_eq!(parse_timestamp_from_filename("20240431_000000_x.log"), None);
    assert_eq!(parse_timestamp_from_filename("20241301_000000_x.log"), None);
}

#[test]
fn stamp_rejects_invalid_time() {
    assert_eq!(parse_timestamp_from_filename("20240115_240000_x.log"), None);
    assert_eq!(parse_timestamp_from_filename("20240115_106000_x.log"), None);
    assert_eq!(parse_timestamp_from_filename("20240115_103060_x.log"), None);
}

#[test]
fn stamp_needs_fifteen_bytes_of_digits() {
    assert_eq!(parse_timestamp_from_filename("20240115_1030"), None);
    assert_eq!(parse_timestamp_from_filename("notes.log"), None);
    assert_eq!(parse_timestamp_from_filename("2024011x_103045_x.log"), None);
    assert_eq!(parse_timestamp_from_filename("é0240115_103045_x.log"), None);
}

#[test]
fn stamp_ignores_the_separator_and_reads_signs() {
    assert_eq!(
        parse_timestamp_from_filename("20240115-103045_x.log"),
        Some(1705314645)
    );
    assert_eq!(
        parse_timestamp_from_filename("2024+1+5_103045"),
        parse_timestamp_from_filename("20240105_103045")
    );
}

#[test]
fn test_parse_timestamp_from_filename() {
    let filename = "20240115_143022_git_status.log";
    let ts = parse_timestamp_from_filename(filename)
        .and_then(|t| chrono::DateTime::from_timestamp(t, 0))
        .expect("the name carries a valid stamp");
    assert_eq!(ts.year(), 2024);
    assert_eq!(ts.month(), 1);
    assert_eq!(ts.day(), 15);
}

#[test]
fn test_parse_timestamp_invalid() {
    let filename = "invalid_filename.log";
    // No stamp: the caller falls back to the current time.
    assert_eq!(parse_timestamp_from_filename(filename), None);
}

#[test]
fn stamp_before_the_epoch_and_across_centuries() {
    assert_eq!(parse_timestamp_from_filename("19691231_235959_x.log"), Some(-1));
    assert_eq!(parse_timestamp_from_filename("00010101_000000_x.log"), Some(-62135596800));
    assert_eq!(parse_timestamp_from_filename("20000301_000000_x.log"), Some(951868800));
    assert_eq!(parse_timestamp_from_filename("19000301_120000_x.log"), Some(-2203848000));
    assert_eq!(parse_timestamp_from_filename("19000229_000000_x.log"), None);
}
