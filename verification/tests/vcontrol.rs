use vcontrol::device::device_id::{DeviceId, DeviceIdF0};
use vcontrol::error::Error;
use vcontrol::types::device_id as value_id;
use vcontrol::value::Value;
use vcontrol::vcontrol::{device_id_f0_of, identify_device, LinkAction, LinkEvent, LinkState};

#[test]
fn negotiation_is_tried_again_once_after_reopening() {
    let state = LinkState::new(false);
    let (state, action) = state.step(LinkEvent::Request);
    assert_eq!(action, LinkAction::Negotiate);
    let (state, action) = state.step(LinkEvent::NegotiationFailed);
    assert_eq!(action, LinkAction::Reinitialize);
    let (state, action) = state.step(LinkEvent::Reinitialized);
    assert_eq!(action, LinkAction::Negotiate);
    let (failed, action) = state.step(LinkEvent::NegotiationFailed);
    assert_eq!(action, LinkAction::Fail);
    assert!(!failed.connected);
    let (state, action) = state.step(LinkEvent::Negotiated);
    assert_eq!(action, LinkAction::Proceed);
    assert!(state.connected);
    let (_, action) = state.step(LinkEvent::Request);
    assert_eq!(action, LinkAction::Proceed);
    let (_, action) = LinkState::new(false).step(LinkEvent::ReinitializationFailed);
    assert_eq!(action, LinkAction::Fail);
}

#[test]
fn a_failed_request_disconnects() {
    let state = LinkState::new(true);
    assert!(state.after_request(true).connected);
    assert!(!state.after_request(false).connected);
}

#[test]
fn second_identification() {
    let f0 = value_id::DeviceIdF0(0x2053);
    assert_eq!(device_id_f0_of(Ok(Value::DeviceIdF0(f0))), Some(DeviceIdF0(0x2053)));
    assert_eq!(device_id_f0_of(Ok(Value::Empty)), None);
    assert_eq!(device_id_f0_of(Err(Error::InvalidFormat("x".to_string()))), None);
}

#[test]
fn unknown_device_is_refused_with_its_identification() {
    let id = DeviceId::from_bytes(&[0x20, 0x92, 0x01, 0x07, 0x00, 0x00, 0x01, 0x5A]);
    match identify_device(&[], id, None) {
        Err(Error::UnsupportedDevice(got, None)) => assert_eq!(got, id),
        other => panic!("unexpected {:?}", other),
    }
}
