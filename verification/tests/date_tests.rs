use newspenguin_bot::instant::{
    choose_feed_date, first_parsed, local_to_utc, parse_date, parse_rfc3339, parse_rss_date,
    to_date_time_text, to_rfc2822, to_rfc3339, Instant, KST_OFFSET_SECS, MIN_TIMESTAMP,
};

fn at(secs: i64) -> Instant {
    Instant { secs, nanos: 0 }
}

#[test]
fn parse_date_reads_rfc3339() {
    assert_eq!(parse_date("2024-05-01T12:00:00+09:00"), Some(at(1714532400)));
    assert_eq!(parse_date("  2024-05-01T03:00:00Z \n"), Some(at(1714532400)));
    assert_eq!(
        parse_date("2024-05-01T03:00:00.5Z"),
        Some(Instant { secs: 1714532400, nanos: 500_000_000 })
    );
}

#[test]
fn parse_date_reads_rfc2822() {
    assert_eq!(parse_date("Wed, 01 May 2024 03:00:00 +0000"), Some(at(1714532400)));
    assert_eq!(parse_date("Wed, 1 May 2024 12:00:00 +0900"), Some(at(1714532400)));
}

#[test]
fn parse_date_reads_plain_times_as_utc() {
    assert_eq!(parse_date("2024-05-01 03:00:00"), Some(at(1714532400)));
    assert_eq!(parse_date("2024-05-01T03:00:00"), Some(at(1714532400)));
}

#[test]
fn parse_date_rejects_other_text() {
    assert_eq!(parse_date("yesterday"), None);
    assert_eq!(parse_date(""), None);
    assert_eq!(parse_date("2024-13-01 00:00:00"), None);
}

#[test]
fn parse_rss_date_reads_plain_times_as_kst() {
    assert_eq!(parse_rss_date("2024-05-01 12:00:00"), Some(at(1714532400)));
    assert_eq!(parse_rss_date(" 2024-05-01 09:00:00 "), Some(at(1714521600)));
}

#[test]
fn parse_rss_date_falls_back_to_other_formats() {
    assert_eq!(parse_rss_date("2024-05-01T03:00:00Z"), Some(at(1714532400)));
    assert_eq!(parse_rss_date("Wed, 01 May 2024 03:00:00 GMT"), Some(at(1714532400)));
    assert_eq!(parse_rss_date("2024-05-01T03:00:00"), Some(at(1714532400)));
    assert_eq!(parse_rss_date("not a date"), None);
}

#[test]
fn parse_rfc3339_does_not_trim() {
    assert_eq!(parse_rfc3339("2024-05-01T03:00:00+00:00"), Some(at(1714532400)));
    assert_eq!(parse_rfc3339(" 2024-05-01T03:00:00+00:00"), None);
}

#[test]
fn first_parsed_prefers_earlier_readings() {
    assert_eq!(first_parsed(None, Some(at(2)), Some(at(3)), None), Some(at(2)));
    assert_eq!(first_parsed(Some(at(1)), Some(at(2)), None, Some(at(4))), Some(at(1)));
    assert_eq!(first_parsed(None, None, None, Some(at(4))), Some(at(4)));
    assert_eq!(first_parsed(None, None, None, None), None);
}

#[test]
fn local_to_utc_subtracts_offset() {
    assert_eq!(local_to_utc(at(1714564800), KST_OFFSET_SECS), Some(at(1714532400)));
    assert_eq!(local_to_utc(at(MIN_TIMESTAMP), KST_OFFSET_SECS), None);
    assert_eq!(local_to_utc(at(MIN_TIMESTAMP), -3600), Some(at(MIN_TIMESTAMP + 3600)));
}

#[test]
fn choose_feed_date_prefers_the_kst_reading() {
    assert_eq!(choose_feed_date(Some(at(1714564800)), Some(at(5))), Some(at(1714532400)));
    assert_eq!(choose_feed_date(None, Some(at(5))), Some(at(5)));
    assert_eq!(choose_feed_date(Some(at(MIN_TIMESTAMP)), Some(at(5))), None);
}

#[test]
fn instants_order_by_seconds_then_nanoseconds() {
    assert!(at(1).is_before(&at(2)));
    assert!(!at(2).is_before(&at(2)));
    assert!(Instant { secs: 2, nanos: 1 }.is_before(&Instant { secs: 2, nanos: 2 }));
    assert_eq!(at(100).minus_seconds(7200), at(-7100));
}

#[test]
fn instants_are_written_like_chrono() {
    assert_eq!(to_rfc2822(&at(1714563000)).as_deref(), Some("Wed, 1 May 2024 11:30:00 +0000"));
    assert_eq!(to_rfc3339(&at(1714564800)).as_deref(), Some("2024-05-01T12:00:00+00:00"));
    assert_eq!(to_date_time_text(&at(1714564800)).as_deref(), Some("2024-05-01 12:00:00"));
}

#[test]
fn unwritable_instants_give_nothing() {
    assert_eq!(to_rfc2822(&at(253402300800)), None);
    assert_eq!(to_rfc2822(&at(-62167219201)), None);
    assert_eq!(to_rfc3339(&Instant { secs: 0, nanos: 1_500_000_000 }), None);
    assert!(to_rfc3339(&Instant { secs: 59, nanos: 1_500_000_000 }).is_some());
    assert_eq!(to_date_time_text(&Instant { secs: 0, nanos: 2_000_000_000 }), None);
}

#[test]
fn chrono_range_ends_are_respected() {
    assert_eq!(to_rfc3339(&at(8210266876799)).as_deref(), Some("+262142-12-31T23:59:59+00:00"));
    assert_eq!(to_rfc3339(&at(8210266876800)), None);
    assert_eq!(to_rfc3339(&at(-8334601228800)).as_deref(), Some("-262143-01-01T00:00:00+00:00"));
    assert_eq!(to_rfc3339(&at(-8334601228801)), None);
    assert_eq!(to_date_time_text(&at(8210298412799)), None);
    assert_eq!(local_to_utc(at(-8334601225200), KST_OFFSET_SECS), None);
    assert_eq!(local_to_utc(at(-8334601196400), KST_OFFSET_SECS), Some(at(-8334601228800)));
}
