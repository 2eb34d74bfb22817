use vcontrol::error::Error as LibError;
use vcontrol::types::date_time::DateTime;
use vcontrol::types::error::Error;

#[test]
fn error_new() {
    let time = DateTime::new(2018, 12, 23, 17, 49, 31).unwrap();
    let error = Error::new(0xAC, time.clone());

    assert_eq!(error.index, 0xAC);
    assert_eq!(error.time.as_ref().unwrap().year(), 2018);
    assert_eq!(error.time.as_ref().unwrap().month(), 12);
    assert_eq!(error.time.as_ref().unwrap().day(), 23);
    assert_eq!(error.time.as_ref().unwrap().weekday() + 1, 7);
    assert_eq!(error.time.as_ref().unwrap().hour(), 17);
    assert_eq!(error.time.as_ref().unwrap().minute(), 49);
    assert_eq!(error.time.as_ref().unwrap().second(), 31);
}

#[test]
fn error_from_bytes() {
    let error = Error::from_bytes(&[0xAC, 0x20, 0x18, 0x12, 0x23, 0x07, 0x17, 0x49, 0x31]).unwrap();

    assert_eq!(error.index, 0xAC);
    assert_eq!(error.time.as_ref().unwrap().year(), 2018);
    assert_eq!(error.time.as_ref().unwrap().month(), 12);
    assert_eq!(error.time.as_ref().unwrap().day(), 23);
    assert_eq!(error.time.as_ref().unwrap().weekday() + 1, 7);
    assert_eq!(error.time.as_ref().unwrap().hour(), 17);
    assert_eq!(error.time.as_ref().unwrap().minute(), 49);
    assert_eq!(error.time.as_ref().unwrap().second(), 31);
}

#[test]
fn error_to_bytes() {
    let time = DateTime::new(2018, 12, 23, 17, 49, 31).unwrap();
    let error = Error::new(0xAC, time);

    assert_eq!(error.to_bytes(), [0xAC, 0x20, 0x18, 0x12, 0x23, 0x07, 0x17, 0x49, 0x31]);
}

#[test]
fn error_without_time_reads_only_with_code_zero() {
    let empty = Error::from_bytes(&[0x00, 0, 0, 0, 0, 0, 0, 0, 0]).unwrap();
    assert_eq!(empty.index(), 0);
    assert!(empty.time().is_none());
    assert_eq!(empty.to_bytes(), [0u8; 9]);

    match Error::from_bytes(&[0x12, 0, 0, 0, 0, 0, 0, 0, 0]) {
        Err(LibError::InvalidFormat(message)) => assert!(message.starts_with("invalid time for error 18: ")),
        other => panic!("unexpected {:?}", other),
    }
}

#[test]
fn error_record_reads_back() {
    let time = DateTime::new(2021, 7, 5, 8, 0, 1).unwrap();
    let error = Error::new(0x3F, time);
    let back = Error::from_bytes(&error.to_bytes()).unwrap();
    assert_eq!(back.index(), 0x3F);
    let t = back.time().unwrap();
    assert_eq!((t.year(), t.month(), t.day(), t.hour(), t.minute(), t.second()), (2021, 7, 5, 8, 0, 1));
}
