use vstd::prelude::*;

use crate::bytes::{be_u16, u16_from_be, u16_to_be};

verus! {

/// Device identifier as the controller reports it.
#[derive(Debug, Clone, Copy, PartialEq, Eq, Structural)]
pub struct DeviceId {
    pub group_id: u8,
    pub id: u8,
    pub hardware_index: u8,
    pub software_index: u8,
    pub protocol_version_lda: u8,
    pub protocol_version_rda: u8,
    pub developer_version: u16,
}

/// The device identifier that eight bytes stand for: one byte per field,
/// the developer version high byte first.
pub open spec fn device_id_of_bytes(b: Seq<u8>) -> DeviceId {
    DeviceId {
        group_id: b[0],
        id: b[1],
        hardware_index: b[2],
        software_index: b[3],
        protocol_version_lda: b[4],
        protocol_version_rda: b[5],
        developer_version: be_u16(b[6], b[7]),
    }
}

/// The eight bytes of a device identifier.
pub open spec fn device_id_bytes(d: DeviceId) -> Seq<u8> {
    seq![
        d.group_id,
        d.id,
        d.hardware_index,
        d.software_index,
        d.protocol_version_lda,
        d.protocol_version_rda,
        (d.developer_version / 256) as u8,
        (d.developer_version % 256) as u8,
    ]
}

impl DeviceId {
    /// Reads a device identifier from its eight bytes.
    pub fn from_bytes(bytes: &[u8; 8]) -> (res: Self)
        ensures
            res == device_id_of_bytes(bytes@),
    {
        DeviceId {
            group_id: bytes[0],
            id: bytes[1],
            hardware_index: bytes[2],
            software_index: bytes[3],
            protocol_version_lda: bytes[4],
            protocol_version_rda: bytes[5],
            developer_version: u16_from_be(bytes[6], bytes[7]),
        }
    }

    /// Writes the device identifier as eight bytes.
    pub fn to_bytes(&self) -> (res: [u8; 8])
        ensures
            res@ == device_id_bytes(*self),
    {
        let developer_version = u16_to_be(self.developer_version);
        [
            self.group_id,
            self.id,
            self.hardware_index,
            self.software_index,
            self.protocol_version_lda,
            self.protocol_version_rda,
            developer_version[0],
            developer_version[1],
        ]
    }
}

/// Device F0 identifier.
#[derive(Debug, Clone, Copy, PartialEq, Eq, Structural)]
pub struct DeviceIdF0(pub u16);

impl DeviceIdF0 {
    /// Reads the F0 identifier from two bytes, the high byte first.
    pub fn from_bytes(bytes: &[u8; 2]) -> (res: Self)
        ensures
            res == DeviceIdF0(be_u16(bytes@[0], bytes@[1])),
    {
        DeviceIdF0(u16_from_be(bytes[0], bytes[1]))
    }
}

/// Reading back the bytes of a device identifier gives it back.
pub proof fn lemma_device_id_roundtrip(d: DeviceId)
    ensures
        device_id_of_bytes(device_id_bytes(d)) == d,
{
}

/// Writing the device identifier read from eight bytes gives the bytes back.
pub proof fn lemma_device_id_bytes_roundtrip(b: Seq<u8>)
    requires
        b.len() == 8,
    ensures
        device_id_bytes(device_id_of_bytes(b)) == b,
{
    assert(device_id_bytes(device_id_of_bytes(b)) =~= b);
}

} // verus!
