use gluex::timestamp::{parse_timestamp, ParseTimestampError, Timestamp};

fn parts(t: &Timestamp) -> (i32, u32, u32, u32, u32, u32) {
    (t.year(), t.month(), t.day(), t.hour(), t.minute(), t.second())
}

fn chrono_error(input: &str) -> String {
    match parse_timestamp(input) {
        Err(ParseTimestampError::ChronoError(text)) => text,
        other => panic!("unexpected: {:?}", other),
    }
}

#[test]
fn year_alone_is_its_last_second() {
    let t = parse_timestamp("2019").unwrap();
    assert_eq!(parts(&t), (2019, 12, 31, 23, 59, 59));
    assert_eq!(t.to_text(), "2019-12-31 23:59:59");
}

#[test]
fn february_of_a_leap_year_has_29_days() {
    assert_eq!(parts(&parse_timestamp("2020-02").unwrap()), (2020, 2, 29, 23, 59, 59));
    assert_eq!(parts(&parse_timestamp("2019-02").unwrap()), (2019, 2, 28, 23, 59, 59));
    assert_eq!(parts(&parse_timestamp("1900-02").unwrap()), (1900, 2, 28, 23, 59, 59));
    assert_eq!(parts(&parse_timestamp("2000-02").unwrap()), (2000, 2, 29, 23, 59, 59));
}

#[test]
fn months_end_on_their_last_day() {
    let last = [31, 28, 31, 30, 31, 30, 31, 31, 30, 31, 30, 31];
    for month in 1..=12u32 {
        let t = parse_timestamp(&format!("2021/{}", month)).unwrap();
        assert_eq!(parts(&t), (2021, month, last[(month - 1) as usize], 23, 59, 59));
    }
}

#[test]
fn text_without_digits_is_refused() {
    match parse_timestamp("abc") {
        Err(ParseTimestampError::NoDigits(text)) => assert_eq!(text, "abc"),
        other => panic!("unexpected: {:?}", other),
    }
    assert!(matches!(parse_timestamp(""), Err(ParseTimestampError::NoDigits(_))));
    assert!(matches!(parse_timestamp("-:/ T"), Err(ParseTimestampError::NoDigits(_))));
}

#[test]
fn all_six_fields_are_read() {
    let t = parse_timestamp("2015-12-08 15:47:20").unwrap();
    assert_eq!(parts(&t), (2015, 12, 8, 15, 47, 20));
    let t = parse_timestamp("2015-12-08T15:47").unwrap();
    assert_eq!(parts(&t), (2015, 12, 8, 15, 47, 59));
    let t = parse_timestamp("x2015y12z08").unwrap();
    assert_eq!(parts(&t), (2015, 12, 8, 23, 59, 59));
    let t = parse_timestamp("2015 12 08 01 02 03 04 05").unwrap();
    assert_eq!(parts(&t), (2015, 12, 8, 1, 2, 3));
}

#[test]
fn a_group_too_large_for_32_bits_is_skipped() {
    let t = parse_timestamp("99999999999 2018 03").unwrap();
    assert_eq!(parts(&t), (2018, 3, 31, 23, 59, 59));
    let t = parse_timestamp("2147483648-2001").unwrap();
    assert_eq!(parts(&t), (2001, 12, 31, 23, 59, 59));
    assert!(matches!(
        parse_timestamp("99999999999"),
        Err(ParseTimestampError::NoDigits(_))
    ));
}

#[test]
fn a_date_that_does_not_exist_is_named() {
    assert_eq!(chrono_error("2021-02-30"), "invalid date: 2021-2-30");
    assert_eq!(chrono_error("2021-13"), "invalid date: 2021-13-31");
    assert_eq!(chrono_error("2021-00-10"), "invalid date: 2021-0-10");
    assert_eq!(chrono_error("2021-04-31"), "invalid date: 2021-4-31");
    assert_eq!(chrono_error("2019-02-29"), "invalid date: 2019-2-29");
    assert_eq!(chrono_error("300000"), "invalid date: 300000-12-31");
    assert_eq!(chrono_error("2147483647-2"), "invalid date: 2147483647-2-31");
}

#[test]
fn a_time_that_does_not_exist_is_named() {
    assert_eq!(chrono_error("2021-01-01 24:00:00"), "invalid time: 24:0:0");
    assert_eq!(chrono_error("2021-01-01 23:60:00"), "invalid time: 23:60:0");
    assert_eq!(chrono_error("2021-01-01 23:59:60"), "invalid time: 23:59:60");
}

#[test]
fn the_year_range_ends_at_262142() {
    let t = parse_timestamp("262142").unwrap();
    assert_eq!(parts(&t), (262142, 12, 31, 23, 59, 59));
    assert_eq!(chrono_error("262143"), "invalid date: 262143-12-31");
}

#[test]
fn error_messages() {
    let e = parse_timestamp("abc").unwrap_err();
    assert_eq!(e.message(), "timestamp \"abc\" has no digits");
    let e = parse_timestamp("2021-02-30").unwrap_err();
    assert_eq!(e.message(), "invalid timestamp: invalid date: 2021-2-30");
}

#[test]
fn instants_from_parts() {
    let t = Timestamp::from_parts(2020, 2, 29, 0, 0, 0).unwrap();
    assert_eq!(parts(&t), (2020, 2, 29, 0, 0, 0));
    assert!(Timestamp::from_parts(2021, 2, 29, 0, 0, 0).is_none());
    assert!(Timestamp::from_parts(2021, 1, 1, 24, 0, 0).is_none());
    assert!(Timestamp::from_parts(2021, 1, 0, 0, 0, 0).is_none());
    assert!(Timestamp::from_parts(-262143, 1, 1, 0, 0, 0).is_some());
    assert!(Timestamp::from_parts(-262144, 1, 1, 0, 0, 0).is_none());
    assert!(Timestamp::from_parts(-4, 2, 29, 0, 0, 0).is_some());
}

#[test]
fn later_instants_are_after_earlier_ones() {
    let a = parse_timestamp("2020-01-01 00:00:00").unwrap();
    let b = parse_timestamp("2020-01-01 00:00:01").unwrap();
    let c = parse_timestamp("2019-12-31 23:59:59").unwrap();
    let d = parse_timestamp("2020-02-01 00:00:00").unwrap();
    assert!(b.is_after(&a));
    assert!(!a.is_after(&b));
    assert!(!a.is_after(&a));
    assert!(a.is_after(&c));
    assert!(d.is_after(&b));
    assert!(!c.is_after(&d));
    assert!(a < b && c < a && b < d);
    assert_eq!(a, parse_timestamp("2020/1/1 0:0:0").unwrap());
}

#[test]
fn instants_as_text() {
    let t = Timestamp::from_parts(5, 1, 2, 3, 4, 5).unwrap();
    assert_eq!(t.to_text(), "0005-01-02 03:04:05");
    let t = Timestamp::from_parts(12345, 11, 22, 13, 14, 15).unwrap();
    assert_eq!(t.to_text(), "+12345-11-22 13:14:15");
    let t = Timestamp::from_parts(-1, 1, 1, 0, 0, 0).unwrap();
    assert_eq!(t.to_text(), "-0001-01-01 00:00:00");
    let t = Timestamp::from_parts(999, 12, 31, 23, 59, 59).unwrap();
    assert_eq!(t.to_text(), "0999-12-31 23:59:59");
    let t = Timestamp::from_parts(-12345, 1, 1, 0, 0, 0).unwrap();
    assert_eq!(t.to_text(), "-12345-01-01 00:00:00");
}

#[test]
fn now_is_an_instant_of_this_century() {
    let t = Timestamp::now();
    assert!(t.year() >= 2024 && t.year() < 2200);
    assert!((1..=12).contains(&t.month()));
    assert!((1..=31).contains(&t.day()));
    assert!(t.hour() < 24 && t.minute() < 60 && t.second() < 60);
    assert!(Timestamp::from_parts(t.year(), t.month(), t.day(), t.hour(), t.minute(), t.second()).is_some());
}
