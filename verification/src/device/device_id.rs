use vstd::prelude::*;

use crate::bytes::{be_u16, u16_from_be, u16_to_be};

verus! {

/// Device identifier.
#[derive(Debug, Clone, Copy, PartialEq, Eq, Structural)]
pub struct DeviceId {
    pub id: u16,
    pub hardware_index: u8,
    pub software_index: u8,
    pub protocol_version_lda: u8,
    pub protocol_version_rda: u8,
    pub developer_version: u16,
}

/// The eight bytes of a device identifier: id (high byte first), hardware
/// index, software index, the two protocol versions and the developer
/// version (high byte first).
pub open spec fn device_id_bytes(d: DeviceId) -> Seq<u8> {
    seq![
        (d.id / 256) as u8,
        (d.id % 256) as u8,
        d.hardware_index,
        d.software_index,
        d.protocol_version_lda,
        d.protocol_version_rda,
        (d.developer_version / 256) as u8,
        (d.developer_version % 256) as u8,
    ]
}

impl DeviceId {
    /// The identifier that a value read from the controller holds: its
    /// group and id bytes form the id, high byte first.
    pub fn of_value(d: crate::types::device_id::DeviceId) -> (res: DeviceId)
        ensures
            res.id == d.group_id * 256 + d.id,
            res.hardware_index == d.hardware_index,
            res.software_index == d.software_index,
            res.protocol_version_lda == d.protocol_version_lda,
            res.protocol_version_rda == d.protocol_version_rda,
            res.developer_version == d.developer_version,
    {
        DeviceId {
            id: (d.group_id as u16) * 256 + (d.id as u16),
            hardware_index: d.hardware_index,
            software_index: d.software_index,
            protocol_version_lda: d.protocol_version_lda,
            protocol_version_rda: d.protocol_version_rda,
            developer_version: d.developer_version,
        }
    }

    /// Reads a device identifier from the first eight bytes.
    pub fn from_bytes(bytes: &[u8]) -> (res: Self)
        requires
            bytes@.len() >= 8,
        ensures
            res == (DeviceId {
                id: be_u16(bytes@[0], bytes@[1]),
                hardware_index: bytes@[2],
                software_index: bytes@[3],
                protocol_version_lda: bytes@[4],
                protocol_version_rda: bytes@[5],
                developer_version: be_u16(bytes@[6], bytes@[7]),
            }),
    {
        DeviceId {
            id: u16_from_be(bytes[0], bytes[1]),
            hardware_index: bytes[2],
            software_index: bytes[3],
            protocol_version_lda: bytes[4],
            protocol_version_rda: bytes[5],
            developer_version: u16_from_be(bytes[6], bytes[7]),
        }
    }

    /// Writes the device identifier as eight bytes.
    pub fn to_bytes(&self) -> (res: [u8; 8])
        ensures
            res@ == device_id_bytes(*self),
    {
        let id = u16_to_be(self.id);
        let developer_version = u16_to_be(self.developer_version);
        [
            id[0],
            id[1],
            self.hardware_index,
            self.software_index,
            self.protocol_version_lda,
            self.protocol_version_rda,
            developer_version[0],
            developer_version[1],
        ]
    }
}

/// Device F0 identifier.
#[derive(Debug, Clone, Copy, PartialEq, Eq, Structural)]
pub struct DeviceIdF0(pub u16);

impl DeviceIdF0 {
    /// The second identifier that a value read from the controller holds.
    pub fn of_value(d: crate::types::device_id::DeviceIdF0) -> (res: DeviceIdF0)
        ensures
            res.0 == d.0,
    {
        DeviceIdF0(d.0)
    }

    /// Reads the F0 identifier from the first two bytes, the high byte first.
    pub fn from_bytes(bytes: &[u8]) -> (res: Self)
        requires
            bytes@.len() >= 2,
        ensures
            res == DeviceIdF0(be_u16(bytes@[0], bytes@[1])),
    {
        DeviceIdF0(u16_from_be(bytes[0], bytes[1]))
    }
}

/// Device identifier range used for detecting device type.
#[derive(Debug, Clone, PartialEq, Eq, Hash)]
pub struct DeviceIdRange {
    pub id: u16,
    pub hardware_index: Option<u8>,
    pub hardware_index_till: Option<u8>,
    pub software_index: Option<u8>,
    pub software_index_till: Option<u8>,
    pub f0: Option<u16>,
    pub f0_till: Option<u16>,
}

/// Reading a device identifier back from its bytes gives it back.
pub proof fn lemma_device_id_roundtrip(d: DeviceId)
    ensures
        ({
            let b = device_id_bytes(d);
            d == (DeviceId {
                id: be_u16(b[0], b[1]),
                hardware_index: b[2],
                software_index: b[3],
                protocol_version_lda: b[4],
                protocol_version_rda: b[5],
                developer_version: be_u16(b[6], b[7]),
            })
        }),
{
}

/// Writing the device identifier read from eight bytes gives these bytes back.
pub proof fn lemma_device_id_bytes_roundtrip(b: Seq<u8>)
    requires
        b.len() == 8,
    ensures
        device_id_bytes(
            DeviceId {
                id: be_u16(b[0], b[1]),
                hardware_index: b[2],
                software_index: b[3],
                protocol_version_lda: b[4],
                protocol_version_rda: b[5],
                developer_version: be_u16(b[6], b[7]),
            },
        ) == b,
{
    assert(device_id_bytes(
        DeviceId {
            id: be_u16(b[0], b[1]),
            hardware_index: b[2],
            software_index: b[3],
            protocol_version_lda: b[4],
            protocol_version_rda: b[5],
            developer_version: be_u16(b[6], b[7]),
        },
    ) =~= b);
}

} // verus!
