use registrations::datetime::Timestamp;
use registrations::entity::Registration;

fn ts(year: u32, month: u32, day: u32, hour: u32, minute: u32, second: u32, milli: u32) -> Timestamp {
    Timestamp { year, month, day, hour, minute, second, milli }
}

#[test]
fn format_canonical_form() {
    let t = ts(2024, 3, 5, 10, 0, 0, 0);
    assert_eq!(t.format(), "2024-03-05 10:00:00.000");
}

#[test]
fn format_pads_every_field() {
    let t = ts(987, 1, 2, 3, 4, 5, 67);
    assert_eq!(t.format(), "0987-01-02 03:04:05.067");
}

#[test]
fn roundtrip_plain_date() {
    let t = ts(2024, 3, 5, 10, 0, 0, 0);
    assert_eq!(Timestamp::parse(&t.format()), Some(t));
}

#[test]
fn roundtrip_leap_day() {
    let t = ts(2024, 2, 29, 23, 59, 59, 999);
    assert_eq!(Timestamp::parse(&t.format()), Some(t));
}

#[test]
fn roundtrip_year_boundaries() {
    for t in [
        ts(0, 1, 1, 0, 0, 0, 0),
        ts(9999, 12, 31, 23, 59, 59, 999),
        ts(2023, 12, 31, 0, 0, 0, 1),
        ts(2024, 1, 1, 12, 30, 15, 500),
    ] {
        assert_eq!(Timestamp::parse(&t.format()), Some(t));
    }
}

#[test]
fn parse_rejects_nonleap_february_29() {
    assert_eq!(Timestamp::parse("2023-02-29 10:00:00.000"), None);
}

#[test]
fn parse_century_leap_rule() {
    assert_eq!(Timestamp::parse("1900-02-29 10:00:00.000"), None);
    assert_eq!(Timestamp::parse("2000-02-29 10:00:00.000"), Some(ts(2000, 2, 29, 10, 0, 0, 0)));
}

#[test]
fn parse_rejects_wrong_shape() {
    assert_eq!(Timestamp::parse(""), None);
    assert_eq!(Timestamp::parse("2024-03-05"), None);
    assert_eq!(Timestamp::parse("2024-03-05 10:00:00.00"), None);
    assert_eq!(Timestamp::parse("2024-03-05 10:00:00.0000"), None);
    assert_eq!(Timestamp::parse("2024/03/05 10:00:00.000"), None);
    assert_eq!(Timestamp::parse("2024-03-05T10:00:00.000"), None);
    assert_eq!(Timestamp::parse("2024-03-0a 10:00:00.000"), None);
}

#[test]
fn parse_rejects_out_of_range_fields() {
    assert_eq!(Timestamp::parse("2024-00-05 10:00:00.000"), None);
    assert_eq!(Timestamp::parse("2024-13-05 10:00:00.000"), None);
    assert_eq!(Timestamp::parse("2024-03-00 10:00:00.000"), None);
    assert_eq!(Timestamp::parse("2024-03-32 10:00:00.000"), None);
    assert_eq!(Timestamp::parse("2024-04-31 10:00:00.000"), None);
    assert_eq!(Timestamp::parse("2024-03-05 24:00:00.000"), None);
    assert_eq!(Timestamp::parse("2024-03-05 10:60:00.000"), None);
    assert_eq!(Timestamp::parse("2024-03-05 10:00:60.000"), None);
}

#[test]
fn dateint_derived_from_date() {
    let reg = Registration::new(ts(2024, 3, 5, 10, 0, 0, 0), 1, 100);
    assert_eq!(reg.dateint, 20240305);
    let reg = Registration::new(ts(2024, 2, 29, 0, 0, 0, 0), 1, 1);
    assert_eq!(reg.dateint, 20240229);
    let reg = Registration::new(ts(0, 1, 1, 0, 0, 0, 0), 1, 1);
    assert_eq!(reg.dateint, 101);
    let reg = Registration::new(ts(9999, 12, 31, 23, 59, 59, 999), 1, 1);
    assert_eq!(reg.dateint, 99991231);
}

#[test]
fn entity_date_reads_back() {
    let t = ts(2024, 3, 5, 10, 0, 0, 123);
    let reg = Registration::new(t, 7, 9);
    assert_eq!(reg.id, 0);
    assert_eq!(reg.item_id, 7);
    assert_eq!(reg.quantity, 9);
    assert_eq!(reg.date(), Some(t));
}
