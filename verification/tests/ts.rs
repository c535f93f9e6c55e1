use hybrid_version::ts::now_timestamp;
use hybrid_version::ts::DateTime;
use hybrid_version::ts::Format;
use hybrid_version::ts::LocalTimeError;
use hybrid_version::ts::MAX_UNIX_TIMESTAMP;
use hybrid_version::ts::MIN_UNIX_TIMESTAMP;

#[test]
fn test_timestamp_2_utc() {
    let time = DateTime::timestamp_to_utc(1_689_747_042);

    assert_eq!(time.to_rfc2822(), "Wed, 19 Jul 2023 06:10:42 +0000");
    assert_eq!(time.to_rfc3339(), "2023-07-19T06:10:42Z");
    assert_eq!(time.human_format(), "2023-07-19 06:10:42 +00:00");

    let time = DateTime::timestamp_to_local(1_689_747_042, 480);

    println!("{}", time.to_rfc2822());
    println!("{}", time.to_rfc3339());
    println!("{}", time.human_format());

    assert_eq!(time.to_rfc2822(), "Wed, 19 Jul 2023 14:10:42 +0800");
    assert_eq!(time.to_rfc3339(), "2023-07-19T14:10:42+08:00");
    assert_eq!(time.human_format(), "2023-07-19 14:10:42 +08:00");
}

#[test]
fn test_datetime_default() {
    let dt = DateTime::default();
    assert!(!dt.to_rfc3339().is_empty());
}

#[test]
fn test_datetime_now() {
    let dt = DateTime::now();
    assert!(!dt.to_rfc3339().is_empty());
}

#[test]
fn test_timestamp_to_local_offset() {
    let dt = DateTime::timestamp_to_local(1_689_747_042, 480);
    assert_eq!(dt.to_rfc3339(), "2023-07-19T14:10:42+08:00");
}

#[test]
fn test_timestamp_to_local_negative_offset() {
    let dt = DateTime::timestamp_to_local(1_689_747_042, -300);
    assert!(dt.to_rfc3339().contains("-05:00"));
}

#[test]
fn test_timestamp_to_utc_rfc3339() {
    assert_eq!(DateTime::timestamp_to_utc(0).to_rfc3339(), "1970-01-01T00:00:00Z");
}

#[test]
fn test_datetime_equality() {
    assert_eq!(DateTime::timestamp_to_utc(100), DateTime::timestamp_to_utc(100));
    assert_ne!(DateTime::timestamp_to_utc(100), DateTime::timestamp_to_utc(200));
}

#[test]
fn test_human_format_utc() {
    assert_eq!(
        DateTime::timestamp_to_utc(1_689_747_042).human_format(),
        "2023-07-19 06:10:42 +00:00"
    );
}

#[test]
fn equality_compares_instants_not_offsets() {
    let east = DateTime::timestamp_to_local(1_689_747_042, 480);
    let west = DateTime::timestamp_to_local(1_689_747_042, -300);
    assert_eq!(east, west);
    assert_ne!(east, DateTime::timestamp_to_local(1_689_747_043, 480));
    assert_ne!(DateTime::timestamp_to_local(0, 0), DateTime::timestamp_to_utc(0));
}

#[test]
fn negative_offset_formats() {
    let dt = DateTime::timestamp_to_local(1_689_747_042, -300);
    assert_eq!(dt.to_rfc3339(), "2023-07-19T01:10:42-05:00");
    assert_eq!(dt.to_rfc2822(), "Wed, 19 Jul 2023 01:10:42 -0500");
    assert_eq!(dt.human_format(), "2023-07-19 01:10:42 -05:00");
}

#[test]
fn local_from_clock_checks_ranges() {
    let dt = DateTime::local_from_clock(1_689_747_042, 3600).unwrap();
    assert_eq!(dt.human_format(), "2023-07-19 07:10:42 +01:00");
    assert!(matches!(dt, DateTime::Local(_)));
    assert!(matches!(
        DateTime::local_from_clock(0, 100_000),
        Err(LocalTimeError::Range(_))
    ));
    assert!(matches!(
        DateTime::local_from_clock(MAX_UNIX_TIMESTAMP + 1, 0),
        Err(LocalTimeError::Range(_))
    ));
    assert!(matches!(
        DateTime::local_from_clock(MAX_UNIX_TIMESTAMP, 3600),
        Err(LocalTimeError::LocalOutOfRange)
    ));
}

#[test]
fn local_time_valid_matches_ranges() {
    assert!(DateTime::local_time_valid(1_689_747_042, 480));
    assert!(DateTime::local_time_valid(0, -1559));
    assert!(!DateTime::local_time_valid(0, 1560));
    assert!(!DateTime::local_time_valid(MAX_UNIX_TIMESTAMP, 1));
    assert!(!DateTime::local_time_valid(MIN_UNIX_TIMESTAMP - 1, 0));
}

#[test]
fn formattable_checks() {
    assert!(DateTime::timestamp_to_utc(0).rfc3339_formattable());
    assert!(!DateTime::timestamp_to_utc(MIN_UNIX_TIMESTAMP).rfc3339_formattable());
    // 1899-12-31T23:59:59Z
    assert!(!DateTime::timestamp_to_utc(-2_208_988_801).rfc2822_formattable());
    assert!(DateTime::timestamp_to_utc(-2_208_988_800).rfc2822_formattable());
    assert_eq!(
        DateTime::timestamp_to_utc(-2_208_988_800).to_rfc2822(),
        "Mon, 01 Jan 1900 00:00:00 +0000"
    );
}

#[test]
fn now_timestamp_is_formattable() {
    let dt = now_timestamp();
    let text = dt.human_format();
    assert_eq!(text.len(), 26);
    assert_eq!(text.as_bytes()[4], b'-');
    assert_eq!(text.as_bytes()[10], b' ');
}

#[test]
fn offset_date_time_human_format() {
    assert_eq!(
        time::OffsetDateTime::UNIX_EPOCH.human_format(),
        "1970-01-01 00:00:00 +00:00"
    );
}

#[test]
fn test_local_now_human_format() {
    let time = DateTime::local_now().unwrap().human_format();

    assert_eq!(time.len(), 26);
    assert!(time.as_bytes()[4] == b'-');
    assert!(time.as_bytes()[7] == b'-');
    assert!(time.as_bytes()[10] == b' ');
    assert!(time.as_bytes()[13] == b':');
    assert!(time.as_bytes()[16] == b':');
    assert!(time.as_bytes()[19] == b' ');
    let sign = time.as_bytes()[20];
    assert!(sign == b'+' || sign == b'-');
    assert!(time.as_bytes()[23] == b':');

    println!("local now:{time}");
}

#[test]
fn prefer_local_falls_back_to_utc() {
    let local = DateTime::local_from_clock(1_689_747_042, 28_800);
    let d = DateTime::prefer_local(local, 5, 0);
    assert_eq!(d.to_rfc3339(), "2023-07-19T14:10:42+08:00");
    let failed = DateTime::local_from_clock(0, 100_000);
    let d = DateTime::prefer_local(failed, 1_689_747_042, 250_000_000);
    assert!(matches!(d, DateTime::Utc(_)));
    assert_eq!(d.to_rfc3339(), "2023-07-19T06:10:42.25Z");
}

#[test]
fn debug_text_shows_the_offset_date_time() {
    assert_eq!(
        DateTime::timestamp_to_local(1_690_956_308, 480).debug_text(),
        "Local(2023-08-02 14:05:08.0 +08:00:00)"
    );
    assert_eq!(
        DateTime::timestamp_to_utc(0).debug_text(),
        "Utc(1970-01-01 0:00:00.0 +00:00:00)"
    );
}
