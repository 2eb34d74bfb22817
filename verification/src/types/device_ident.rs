use vstd::prelude::*;

use crate::bytes::{be_u16, u16_from_be, u16_to_be};

verus! {

/// Identification of a device: its id, hardware and software index,
/// protocol versions and developer version.
#[derive(Debug, Clone, Copy, PartialEq, Eq, Structural)]
pub struct DeviceIdent {
    pub id: u16,
    pub hardware_index: u8,
    pub software_index: u8,
    pub protocol_version_lda: u8,
    pub protocol_version_rda: u8,
    pub developer_version: u16,
}

/// The identification that eight bytes stand for: id and developer version
/// high byte first, the other fields one byte each.
pub open spec fn device_ident_of_bytes(b: Seq<u8>) -> DeviceIdent {
    DeviceIdent {
        id: be_u16(b[0], b[1]),
        hardware_index: b[2],
        software_index: b[3],
        protocol_version_lda: b[4],
        protocol_version_rda: b[5],
        developer_version: be_u16(b[6], b[7]),
    }
}

/// The eight bytes of an identification.
pub open spec fn device_ident_bytes(d: DeviceIdent) -> Seq<u8> {
    seq![
        (d.id / 256) as u8,
        (d.id % 256) as u8,
        d.hardware_index,
        d.software_index,
        d.protocol_version_lda,
        d.protocol_version_rda,
        (d.developer_version / 256) as u8,
        (d.developer_version % 256) as u8,
    ]
}

impl DeviceIdent {
    /// Reads an identification from the first eight bytes.
    pub fn from_bytes(bytes: &[u8]) -> (res: Self)
        requires
            bytes@.len() >= 8,
        ensures
            res == device_ident_of_bytes(bytes@),
    {
        DeviceIdent {
            id: u16_from_be(bytes[0], bytes[1]),
            hardware_index: bytes[2],
            software_index: bytes[3],
            protocol_version_lda: bytes[4],
            protocol_version_rda: bytes[5],
            developer_version: u16_from_be(bytes[6], bytes[7]),
        }
    }

    /// Writes the identification as eight bytes.
    pub fn to_bytes(&self) -> (res: [u8; 8])
        ensures
            res@ == device_ident_bytes(*self),
    {
        let id = u16_to_be(self.id);
        let developer_version = u16_to_be(self.developer_version);
        [
            id[0],
            id[1],
            self.hardware_index,
            self.software_index,
            self.protocol_version_lda,
            self.protocol_version_rda,
            developer_version[0],
            developer_version[1],
        ]
    }
}

/// F0 identification of a device.
#[derive(Debug, Clone, Copy, PartialEq, Eq, Structural)]
pub struct DeviceIdentF0(pub u16);

impl DeviceIdentF0 {
    /// Reads the F0 identification from the first two bytes, the high byte first.
    pub fn from_bytes(bytes: &[u8]) -> (res: Self)
        requires
            bytes@.len() >= 2,
        ensures
            res == DeviceIdentF0(be_u16(bytes@[0], bytes@[1])),
    {
        DeviceIdentF0(u16_from_be(bytes[0], bytes[1]))
    }
}

/// Reading back the bytes of an identification gives it back.
pub proof fn lemma_device_ident_roundtrip(d: DeviceIdent)
    ensures
        device_ident_of_bytes(device_ident_bytes(d)) == d,
{
}

/// Writing the identification read from eight bytes gives the bytes back.
pub proof fn lemma_device_ident_bytes_roundtrip(b: Seq<u8>)
    requires
        b.len() == 8,
    ensures
        device_ident_bytes(device_ident_of_bytes(b)) == b,
{
    assert(device_ident_bytes(device_ident_of_bytes(b)) =~= b);
}

} // verus!
