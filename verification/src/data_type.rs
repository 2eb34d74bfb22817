use vstd::prelude::*;

verus! {

/// The kind of value that a command reads or writes.
#[derive(Debug, Clone, Copy, PartialEq, Eq, Structural)]
pub enum DataType {
    DeviceId,
    DeviceIdF0,
    String,
    Int,
    Double,
    Date,
    DateTime,
    CircuitTimes,
    ErrorIndex,
    Error,
    Byte,
    ByteArray,
}

impl DataType {
    /// The data types whose bytes are read as a number.
    pub open spec fn is_numeric(self) -> bool {
        self == DataType::Int || self == DataType::Double || self == DataType::Byte
    }
}

} // verus!
