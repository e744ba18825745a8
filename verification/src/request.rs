//! The requests that discovery puts to the device-control interface, and the
//! ways in which an exchange with a device can fail.

use vstd::prelude::*;

verus! {

/// Why an exchange with a device produced no response.
#[derive(Clone, Copy, Debug, PartialEq, Eq, Structural)]
pub enum DeviceError {
    /// The device object could not be opened.
    NotFound,
    /// The device was opened but refused or failed the request.
    QueryFailure,
}

/// A device-control request.
#[derive(Clone, Copy, Debug, PartialEq, Eq, Structural)]
pub enum DeviceQuery {
    /// The device property descriptor of a physical drive.
    Identity,
    /// The extended geometry of a physical drive.
    Geometry,
    /// The extended partition layout of a physical drive.
    Layout,
    /// The disk extents of a logical volume.
    Extents,
}

/// Size of the response buffer for an identity request. The descriptor is of
/// variable length, with strings placed behind its fixed part.
pub const IDENTITY_CAPACITY: usize = 1024;

/// Size of the response buffer for a geometry request: the geometry structure.
pub const GEOMETRY_CAPACITY: usize = 40;

/// Size of the fixed part that precedes the entries of a layout response.
pub const LAYOUT_HEADER_LEN: usize = 48;

/// Size of one partition entry of a layout response.
pub const LAYOUT_ENTRY_LEN: usize = 144;

/// The largest number of partitions that is read from one drive. Entries past
/// this number are dropped.
pub const MAX_PARTITIONS: usize = 128;

/// Size of the fixed part that precedes the entries of an extents response.
pub const EXTENTS_HEADER_LEN: usize = 8;

/// Size of one entry of an extents response.
pub const EXTENT_ENTRY_LEN: usize = 24;

/// The largest number of extents that is read from one volume: one for each
/// possible drive letter. Entries past this number are dropped.
pub const MAX_EXTENTS: usize = 26;

/// Size of the request structure that accompanies an identity request.
pub const PROPERTY_QUERY_LEN: usize = 12;

/// How the platform composes a control code from the device type, the function
/// number, the buffering method and the required access.
pub open spec fn control_code_of(device_type: u32, function: u32, method: u32, access: u32) -> u32 {
    (device_type << 16) | (access << 14) | (function << 2) | method
}

impl DeviceQuery {
    /// The control code of the request.
    pub open spec fn code(self) -> u32 {
        match self {
            DeviceQuery::Identity => control_code_of(0x2d, 0x0500, 0, 0),
            DeviceQuery::Geometry => control_code_of(0x07, 0x0028, 0, 0),
            DeviceQuery::Layout => control_code_of(0x07, 0x0014, 0, 0),
            DeviceQuery::Extents => control_code_of(0x56, 0x0000, 0, 0),
        }
    }

    /// The number of bytes to provide for the response.
    pub open spec fn capacity(self) -> nat {
        match self {
            DeviceQuery::Identity => IDENTITY_CAPACITY as nat,
            DeviceQuery::Geometry => GEOMETRY_CAPACITY as nat,
            DeviceQuery::Layout => (LAYOUT_HEADER_LEN + MAX_PARTITIONS * LAYOUT_ENTRY_LEN) as nat,
            DeviceQuery::Extents => (EXTENTS_HEADER_LEN + MAX_EXTENTS * EXTENT_ENTRY_LEN) as nat,
        }
    }

    /// The bytes that accompany the request. Only the identity request carries
    /// any: a property query for the standard device property, which is all
    /// zeros.
    pub open spec fn input(self) -> Seq<u8> {
        match self {
            DeviceQuery::Identity => Seq::new(PROPERTY_QUERY_LEN as nat, |i: int| 0u8),
            _ => Seq::<u8>::empty(),
        }
    }

    /// The control code of the request.
    pub fn control_code(&self) -> (code: u32)
        ensures
            code == self.code(),
    {
        assert(control_code_of(0x2d, 0x0500, 0, 0) == 0x002D_1400u32) by (bit_vector);
        assert(control_code_of(0x07, 0x0028, 0, 0) == 0x0007_00A0u32) by (bit_vector);
        assert(control_code_of(0x07, 0x0014, 0, 0) == 0x0007_0050u32) by (bit_vector);
        assert(control_code_of(0x56, 0x0000, 0, 0) == 0x0056_0000u32) by (bit_vector);
        match self {
            DeviceQuery::Identity => 0x002D_1400,
            DeviceQuery::Geometry => 0x0007_00A0,
            DeviceQuery::Layout => 0x0007_0050,
            DeviceQuery::Extents => 0x0056_0000,
        }
    }

    /// The number of bytes to provide for the response.
    pub fn response_capacity(&self) -> (bytes: usize)
        ensures
            bytes == self.capacity(),
    {
        match self {
            DeviceQuery::Identity => IDENTITY_CAPACITY,
            DeviceQuery::Geometry => GEOMETRY_CAPACITY,
            DeviceQuery::Layout => LAYOUT_HEADER_LEN + MAX_PARTITIONS * LAYOUT_ENTRY_LEN,
            DeviceQuery::Extents => EXTENTS_HEADER_LEN + MAX_EXTENTS * EXTENT_ENTRY_LEN,
        }
    }

    /// The bytes that accompany the request.
    pub fn request_bytes(&self) -> (bytes: Vec<u8>)
        ensures
            bytes@ == self.input(),
    {
        let mut bytes: Vec<u8> = Vec::new();
        match self {
            DeviceQuery::Identity => {
                while bytes.len() < PROPERTY_QUERY_LEN
                    invariant
                        bytes.len() <= PROPERTY_QUERY_LEN,
                        forall|i: int| 0 <= i < bytes.len() ==> bytes[i] == 0u8,
                    decreases PROPERTY_QUERY_LEN - bytes.len(),
                {
                    bytes.push(0u8);
                }
                assert(bytes@ =~= DeviceQuery::Identity.input());
            },
            _ => {
                assert(bytes@ =~= self.input());
            },
        }
        bytes
    }
}

} // verus!
