use vstd::prelude::*;

use crate::device::device_id::{DeviceId, DeviceIdF0};

verus! {

/// Errors reported by the library.
#[derive(Debug, Clone)]
pub enum Error {
    /// No known device matches the identification read from the controller.
    UnsupportedDevice(DeviceId, Option<DeviceIdF0>),
    /// A command that is not supported.
    UnsupportedCommand(String),
    /// The named command is neither a system command nor one of the device:
    /// no address is available for it. Callers that report I/O errors report
    /// it as one of the kind `AddrNotAvailable`.
    CommandNotAvailable(String),
    /// The command does not allow the requested access.
    UnsupportedMode(String),
    /// The value handed to a command does not fit it.
    InvalidArgument(String),
    /// A number has no entry in the command's enumeration.
    UnknownEnumVariant(String),
    /// Bytes read from the controller do not form a value of the expected type.
    InvalidFormat(String),
    /// Bytes of a string value that are not valid UTF-8.
    Utf8(Vec<u8>),
}

} // verus!
