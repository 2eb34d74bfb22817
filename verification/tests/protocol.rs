use vcontrol::protocol::function::Function;
use vcontrol::protocol::p300::{P300Error, P300};
use vcontrol::protocol::vs1::Vs1;
use vcontrol::protocol::vs2::{wrapping_sum, Header, MessageType, StatusAction, TelegramError, Vs2};
use vcontrol::protocol::Protocol;

#[test]
fn vs2_read_request_telegram() {
    assert_eq!(Vs2::read_request(0x00F8, 2), vec![0x41, 0x05, 0x00, 0x01, 0x00, 0xF8, 0x02, 0x00]);
}

#[test]
fn vs2_write_request_telegram() {
    let telegram = Vs2::write_request(0x2323, &[0x01]);
    assert_eq!(telegram, vec![0x41, 0x06, 0x00, 0x02, 0x23, 0x23, 0x01, 0x01, 0x50]);
}

#[test]
fn vs2_response_frame_reads_back() {
    let frame = [0x41, 0x07, 0x01, 0x01, 0x00, 0xF8, 0x02, 0x20, 0x92, 0xB5];
    assert_eq!(Vs2::check_frame(&frame), Ok(()));
    let (header, payload) = Vs2::parse_frame(&frame, Some(2)).unwrap();
    assert_eq!(header.message_type, MessageType::Response);
    assert_eq!(header.function, Function::VirtualRead);
    assert_eq!(header.addr, 0x00F8);
    assert_eq!(header.payload_len, 2);
    assert_eq!(payload, vec![0x20, 0x92]);
    assert_eq!(Vs2::check_read_response(&header, 0x00F8, 2), Ok(()));
    assert_eq!(
        Vs2::check_read_response(&header, 0x00F9, 2),
        Err(TelegramError::UnexpectedAddress { expected: 0x00F9, actual: 0x00F8 })
    );
}

#[test]
fn vs2_refuses_a_wrong_checksum_and_lead_in() {
    let frame = [0x41, 0x07, 0x01, 0x01, 0x00, 0xF8, 0x02, 0x20, 0x92, 0xB6];
    assert_eq!(Vs2::check_frame(&frame), Err(TelegramError::InvalidChecksum { computed: 0xB5, received: 0xB6 }));
    let frame = [0x42, 0x07, 0x01, 0x01, 0x00, 0xF8, 0x02, 0x20, 0x92, 0xB5];
    assert_eq!(Vs2::check_frame(&frame), Err(TelegramError::LeadinExpected));
}

#[test]
fn vs2_telegram_reads_back() {
    let header = Header { message_type: MessageType::Request, function: Function::VirtualWrite, addr: 0x0100, payload_len: 3 };
    let telegram = Vs2::encode_telegram(&header, Some(&[1, 2, 3]));
    assert_eq!(Vs2::check_frame(&telegram), Ok(()));
    let (back, payload) = Vs2::parse_frame(&telegram, Some(3)).unwrap();
    assert_eq!(back, header);
    assert_eq!(payload, vec![1, 2, 3]);
}

#[test]
fn vs2_status_and_sync() {
    assert_eq!(Vs2::status_action(0x06), StatusAction::Done);
    assert_eq!(Vs2::status_action(0x15), StatusAction::Retry);
    assert_eq!(Vs2::status_action(0x00), StatusAction::Fail);
    assert_eq!(Vs2::check_sync(0x05), Ok(()));
    assert_eq!(Vs2::check_sync(0x06), Err(TelegramError::SyncExpected(0x06)));
    assert_eq!(wrapping_sum(&[0xFF, 0x02]), 0x01);
}

#[test]
fn message_type_codes() {
    assert_eq!(MessageType::from_code(1), Some(MessageType::Response));
    assert_eq!(MessageType::from_code(9), None);
    assert_eq!(MessageType::Error.code(), 3);
}

#[test]
fn p300_telegrams() {
    assert_eq!(P300::read_request(0x00F8, 2), vec![0x00, 0x01, 0x00, 0xF8, 0x02]);
    let request = P300::read_request(0x0800, 2);
    assert_eq!(request, vec![0x00, 0x01, 0x08, 0x00, 0x02]);
    assert_eq!(P300::encode_telegram(&request), vec![0x41, 0x05, 0x00, 0x01, 0x08, 0x00, 0x02, 0x10]);
    assert!(P300::checksum_matches(&request, 0x10));
    assert!(!P300::checksum_matches(&request, 0x11));
    assert_eq!(P300::write_request(0x2323, &[0x01]), vec![0x00, 0x02, 0x23, 0x23, 0x01, 0x01]);
}

#[test]
fn p300_responses() {
    let response = [0x01, 0x01, 0x00, 0xF8, 0x02, 0x20, 0x92];
    assert_eq!(P300::check_read_response(&response, 0x00F8, 2), Ok(vec![0x20, 0x92]));
    assert_eq!(P300::check_read_response(&response, 0x00F9, 2), Err(P300Error::WrongAddress));
    assert_eq!(P300::check_read_response(&response, 0x00F8, 3), Err(P300Error::UnexpectedResponseLength));
    assert_eq!(P300::check_write_response(&[0x01, 0x02, 0x23, 0x23, 0x01], 0x2323, 1), Ok(()));
    assert_eq!(P300::check_write_response(&[0x01, 0x02, 0x23, 0x23, 0x00], 0x2323, 1), Err(P300Error::CouldNotWrite));
    assert_eq!(P300::check_write_response(&[0x03, 0x02, 0x23, 0x23, 0x01], 0x2323, 1), Err(P300Error::InvalidWriteResponse));
}

#[test]
fn vs1_requests_and_answers() {
    assert_eq!(Vs1::read_request(0x00F8, 2), vec![0x01, 0xF7, 0x00, 0xF8, 0x02]);
    assert_eq!(Vs1::write_request(0x2323, &[0x01]), vec![0x01, 0xF4, 0x23, 0x23, 0x01, 0x01]);
    assert!(Vs1::write_acknowledged(&[0x00]));
    assert!(!Vs1::write_acknowledged(&[0x05]));
    assert!(Vs1::response_accepted(&[0x20, 0x92], 5000));
    assert!(!Vs1::response_accepted(&[0x05, 0x92], 1000));
    assert!(Vs1::response_accepted(&[0x05, 0x92], 999));
}

#[test]
fn protocol_names() {
    assert_eq!(Protocol::Vs1.name(), "VS1");
    assert_eq!(Protocol::Vs2.name(), "VS2");
}
