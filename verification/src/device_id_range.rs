//! Identifier ranges by which devices are detected.

pub use crate::device::device_id::DeviceIdRange;
