//! The decisions of a connection to a controller: when to negotiate the
//! protocol again, and which device a controller is.
use vstd::prelude::*;

use crate::device::device_id::{DeviceId, DeviceIdF0};
use crate::device::{detected_at, ranges_of, Device};
use crate::device_id_range::DeviceIdRange;
use crate::error::Error;
use crate::value::Value;

verus! {

/// Whether the protocol is negotiated, and whether the port was opened
/// again during the current negotiation.
#[derive(Debug, Clone, Copy, PartialEq, Eq, Structural)]
pub struct LinkState {
    pub connected: bool,
    pub reinitialized: bool,
}

/// What happened on the link.
#[derive(Debug, Clone, Copy, PartialEq, Eq, Structural)]
pub enum LinkEvent {
    /// A request is to be made.
    Request,
    /// The protocol was negotiated.
    Negotiated,
    /// Negotiating the protocol failed.
    NegotiationFailed,
    /// The port was opened again.
    Reinitialized,
    /// Opening the port again failed.
    ReinitializationFailed,
}

/// What to do next on the link.
#[derive(Debug, Clone, Copy, PartialEq, Eq, Structural)]
pub enum LinkAction {
    /// Make the request.
    Proceed,
    /// Negotiate the protocol.
    Negotiate,
    /// Open the port again.
    Reinitialize,
    /// Give up with the error of the last negotiation.
    Fail,
}

impl LinkState {
    /// A link whose protocol is negotiated or not.
    pub fn new(connected: bool) -> (res: Self)
        ensures
            res.connected == connected,
            !res.reinitialized,
    {
        LinkState { connected, reinitialized: false }
    }

    /// The next state and action: a request on a negotiated link proceeds;
    /// otherwise the protocol is negotiated, and where that fails the port
    /// is opened again once and the negotiation repeated.
    pub fn step(self, event: LinkEvent) -> (res: (LinkState, LinkAction))
        ensures
            res == (match event {
                LinkEvent::Request => if self.connected {
                    (self, LinkAction::Proceed)
                } else {
                    (LinkState { connected: false, reinitialized: false }, LinkAction::Negotiate)
                },
                LinkEvent::Negotiated => (
                    LinkState { connected: true, reinitialized: self.reinitialized },
                    LinkAction::Proceed,
                ),
                LinkEvent::NegotiationFailed => if self.reinitialized {
                    (self, LinkAction::Fail)
                } else {
                    (self, LinkAction::Reinitialize)
                },
                LinkEvent::Reinitialized => (
                    LinkState { connected: self.connected, reinitialized: true },
                    LinkAction::Negotiate,
                ),
                LinkEvent::ReinitializationFailed => (self, LinkAction::Fail),
            }),
    {
        match event {
            LinkEvent::Request => {
                if self.connected {
                    (self, LinkAction::Proceed)
                } else {
                    (LinkState { connected: false, reinitialized: false }, LinkAction::Negotiate)
                }
            },
            LinkEvent::Negotiated => (
                LinkState { connected: true, reinitialized: self.reinitialized },
                LinkAction::Proceed,
            ),
            LinkEvent::NegotiationFailed => {
                if self.reinitialized {
                    (self, LinkAction::Fail)
                } else {
                    (self, LinkAction::Reinitialize)
                }
            },
            LinkEvent::Reinitialized => (
                LinkState { connected: self.connected, reinitialized: true },
                LinkAction::Negotiate,
            ),
            LinkEvent::ReinitializationFailed => (self, LinkAction::Fail),
        }
    }

    /// The state after a request: a failed request leaves the protocol to be
    /// negotiated again.
    pub fn after_request(self, succeeded: bool) -> (res: LinkState)
        ensures
            res.connected == (self.connected && succeeded),
            res.reinitialized == self.reinitialized,
    {
        LinkState { connected: self.connected && succeeded, reinitialized: self.reinitialized }
    }
}

/// Whether a result of reading the second identification is one that
/// `connect` expects: that identification, nothing, or an error.
pub open spec fn expected_f0_result(result: Result<Value, Error>) -> bool {
    match result {
        Ok(Value::DeviceIdF0(_)) => true,
        Ok(Value::Empty) => true,
        Ok(_) => false,
        Err(_) => true,
    }
}

/// The second identification of a controller from the result of reading
/// it: a controller that lacks it answers with nothing or an error.
pub fn device_id_f0_of(result: Result<Value, Error>) -> (res: Option<DeviceIdF0>)
    requires
        expected_f0_result(result),
    ensures
        res == (match result {
            Ok(Value::DeviceIdF0(f0)) => Some(DeviceIdF0(f0.0)),
            _ => None::<DeviceIdF0>,
        }),
{
    match result {
        Ok(Value::DeviceIdF0(f0)) => Some(DeviceIdF0::of_value(f0)),
        _ => None,
    }
}

/// The device of a controller with the given identification, or the error
/// that names the identification where no device of the table matches it.
pub fn identify_device(
    devices: &[(DeviceIdRange, &'static Device)],
    device_id: DeviceId,
    device_id_f0: Option<DeviceIdF0>,
) -> (res: Result<&'static Device, Error>)
    ensures
        exists|i: Option<int>|
            #[trigger] detected_at(ranges_of(devices@), device_id, device_id_f0, i) && res == (
            match i {
                Some(k) => Ok::<&'static Device, Error>(devices@[k].1),
                None => Err(Error::UnsupportedDevice(device_id, device_id_f0)),
            }),
{
    match Device::detect(devices, device_id, device_id_f0) {
        Some(device) => Ok(device),
        None => Err(Error::UnsupportedDevice(device_id, device_id_f0)),
    }
}

} // verus!
