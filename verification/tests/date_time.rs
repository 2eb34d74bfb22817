use std::str::FromStr;

use vcontrol::types::date_time::{bcd_to_dec, dec_to_bcd, Date, DateTime};

#[test]
fn test_bcd_to_dec() {
    for x in 0..=99 {
        let n = u8::from_str_radix(&format!("{x:02}"), 16).unwrap();
        assert_eq!(bcd_to_dec(n), x);
    }
}

#[test]
fn test_dec_to_bcd() {
    for n in 0..=99 {
        assert_eq!(format!("{:#04x}", dec_to_bcd(n)), format!("0x{n:02}"));
    }
}

#[test]
fn date_time_new() {
    let time = DateTime::new(2018, 12, 23, 17, 49, 31).unwrap();

    assert_eq!(time.year(), 2018);
    assert_eq!(time.month(), 12);
    assert_eq!(time.day(), 23);
    assert_eq!(time.weekday(), 6);
    assert_eq!(time.hour(), 17);
    assert_eq!(time.minute(), 49);
    assert_eq!(time.second(), 31);
}

#[test]
fn from_str() {
    let time = DateTime::from_str("2018-12-23T17:49:31").unwrap();

    assert_eq!(time.year(), 2018);
    assert_eq!(time.month(), 12);
    assert_eq!(time.day(), 23);
    assert_eq!(time.weekday(), 6);
    assert_eq!(time.hour(), 17);
    assert_eq!(time.minute(), 49);
    assert_eq!(time.second(), 31);
}

#[test]
fn date_time_from_bytes() {
    let time = DateTime::from_bytes(&[0x20, 0x25, 0x12, 0x17, 0x02, 0x23, 0x31, 0x14]).unwrap();

    assert_eq!(time.year(), 2025);
    assert_eq!(time.month(), 12);
    assert_eq!(time.day(), 17);
    assert_eq!(time.weekday(), 2);
    assert_eq!(time.hour(), 23);
    assert_eq!(time.minute(), 31);
    assert_eq!(time.second(), 14);
}

#[test]
fn date_time_to_bytes() {
    let time = DateTime::new(2018, 12, 23, 17, 49, 31).unwrap();

    assert_eq!(time.to_bytes(), [0x20, 0x18, 0x12, 0x23, 0x06, 0x17, 0x49, 0x31]);
}

#[test]
fn bcd_values_beyond_nine_per_digit() {
    // 0x1A is no BCD byte; its digits still count ten per high nibble.
    assert_eq!(bcd_to_dec(0x1A), 20);
    assert_eq!(bcd_to_dec(0x00), 0);
    assert_eq!(dec_to_bcd(0), 0x00);
    assert_eq!(dec_to_bcd(45), 0x45);
}

#[test]
fn date_time_bytes_read_back() {
    let time = DateTime::new(1999, 2, 28, 0, 0, 59).unwrap();
    let bytes = time.to_bytes();
    assert_eq!(bytes, [0x19, 0x99, 0x02, 0x28, 0x06, 0x00, 0x00, 0x59]);
    let back = DateTime::from_bytes(&bytes).unwrap();
    assert_eq!(back.year(), 1999);
    assert_eq!(back.month(), 2);
    assert_eq!(back.day(), 28);
    assert_eq!(back.hour(), 0);
    assert_eq!(back.minute(), 0);
    assert_eq!(back.second(), 59);
}

#[test]
fn date_time_rejects_invalid_dates_and_times() {
    assert!(DateTime::new(2019, 2, 29, 12, 0, 0).is_err());
    assert!(DateTime::new(2020, 13, 1, 12, 0, 0).is_err());
    assert!(DateTime::new(2020, 1, 1, 24, 0, 0).is_err());
    assert!(DateTime::new(2020, 2, 29, 23, 59, 59).is_ok());
    assert!(DateTime::from_bytes(&[0, 0, 0, 0, 0, 0, 0, 0]).is_err());
}

#[test]
fn date_bytes_read_back() {
    let date = Date::new(2024, 2, 29).unwrap();
    assert_eq!(date.weekday(), 3);
    let bytes = date.to_bytes();
    let back = Date::from_bytes(&bytes).unwrap();
    assert_eq!(back.year(), 2024);
    assert_eq!(back.month(), 2);
    assert_eq!(back.day(), 29);
    assert!(Date::new(2023, 2, 29).is_none());
}

#[test]
fn date_from_str() {
    let date = Date::from_str("2018-12-23").unwrap();
    assert_eq!(date.year(), 2018);
    assert_eq!(date.month(), 12);
    assert_eq!(date.day(), 23);
    assert_eq!(date.weekday(), 6);
    assert!(Date::from_str("2018-12-32").is_err());
    assert!(DateTime::from_str("2018-12-23 17:49:31").is_err());
}

#[test]
fn unix_timestamp_round_trip() {
    let t = DateTime::from_unix_timestamp(1545587371);
    assert_eq!(t.unix_timestamp(), Some(1545587371));
    let t = DateTime::from_unix_timestamp(0);
    assert_eq!(t.unix_timestamp(), Some(0));
}

#[test]
fn unix_timestamp_is_within_a_day_of_the_date_time() {
    let t = DateTime::new(1970, 1, 2, 0, 0, 0).unwrap();
    let ts = t.unix_timestamp().unwrap();
    assert!(ts < 2 * 86400);
}

#[test]
fn a_timestamp_gives_a_date_time_within_a_day_of_it() {
    let t = DateTime::from_unix_timestamp(2 * 86400);
    assert_eq!((t.year(), t.month()), (1970, 1));
    assert!((2..=4).contains(&t.day()));
}

#[test]
fn invalid_dates_are_named_with_padded_fields() {
    match Date::from_bytes(&[0x20, 0x18, 0x13, 0x01, 0x00, 0x00, 0x00, 0x00]) {
        Err(vcontrol::error::Error::InvalidFormat(m)) => assert_eq!(m, "invalid date: 2018-13-01"),
        other => panic!("unexpected {:?}", other.map(|d| d.year())),
    }
    match DateTime::from_bytes(&[0x00, 0x05, 0x02, 0x30, 0x00, 0x07, 0x08, 0x09]) {
        Err(vcontrol::error::Error::InvalidFormat(m)) => assert_eq!(m, "invalid date-time: 0005-02-30T07:08:09"),
        other => panic!("unexpected {:?}", other.map(|d| d.year())),
    }
}
