//! The low-level geometry of a physical drive.

use vstd::prelude::*;
use crate::request::DeviceError;
use crate::wire::{le_u32, le_u64, lemma_le_u32_local, lemma_le_u64_local, read_u32, read_u64};

verus! {

/// Size of the part of a geometry response that holds the fields read here.
pub const GEOMETRY_FIXED_LEN: usize = 32;

/// Where a geometry response holds the number of cylinders.
pub const CYLINDERS_AT: usize = 0;

/// Where a geometry response holds the number of tracks per cylinder.
pub const TRACKS_PER_CYLINDER_AT: usize = 12;

/// Where a geometry response holds the number of sectors per track.
pub const SECTORS_PER_TRACK_AT: usize = 16;

/// Where a geometry response holds the number of bytes per sector.
pub const BYTES_PER_SECTOR_AT: usize = 20;

/// Where a geometry response holds the size of the disk.
pub const DISK_SIZE_AT: usize = 24;

/// The geometry that a drive reports. The total size is the device's own
/// figure; it is never computed from the other fields.
#[derive(Clone, Copy, Debug, PartialEq, Eq, Structural)]
pub struct Geometry {
    pub cylinders: u64,
    pub tracks_per_cylinder: u32,
    pub sectors_per_track: u32,
    pub bytes_per_sector: u32,
    pub total_disk_size_bytes: u64,
}

/// The geometry that a response holds. A response shorter than the geometry
/// structure holds none.
pub open spec fn geometry_of(buf: Seq<u8>) -> Option<Geometry> {
    if buf.len() < GEOMETRY_FIXED_LEN {
        None
    } else {
        Some(
            Geometry {
                cylinders: le_u64(buf, CYLINDERS_AT as int),
                tracks_per_cylinder: le_u32(buf, TRACKS_PER_CYLINDER_AT as int),
                sectors_per_track: le_u32(buf, SECTORS_PER_TRACK_AT as int),
                bytes_per_sector: le_u32(buf, BYTES_PER_SECTOR_AT as int),
                total_disk_size_bytes: le_u64(buf, DISK_SIZE_AT as int),
            },
        )
    }
}

/// The geometry that the outcome of a geometry request gives.
pub open spec fn geometry_response(response: Result<Vec<u8>, DeviceError>) -> Option<Geometry> {
    match response {
        Ok(buf) => geometry_of(buf@),
        Err(_) => None,
    }
}

/// Decodes a geometry response.
pub fn parse_geometry(buf: &[u8]) -> (geometry: Option<Geometry>)
    ensures
        geometry == geometry_of(buf@),
{
    if buf.len() < GEOMETRY_FIXED_LEN {
        return None;
    }
    Some(
        Geometry {
            cylinders: read_u64(buf, CYLINDERS_AT),
            tracks_per_cylinder: read_u32(buf, TRACKS_PER_CYLINDER_AT),
            sectors_per_track: read_u32(buf, SECTORS_PER_TRACK_AT),
            bytes_per_sector: read_u32(buf, BYTES_PER_SECTOR_AT),
            total_disk_size_bytes: read_u64(buf, DISK_SIZE_AT),
        },
    )
}

/// Resolves the outcome of a geometry request. A failed exchange means that
/// the geometry is unavailable; nothing else follows from it.
pub fn query_geometry(response: &Result<Vec<u8>, DeviceError>) -> (geometry: Option<Geometry>)
    ensures
        geometry == geometry_response(*response),
{
    match response {
        Ok(buf) => parse_geometry(buf.as_slice()),
        Err(_) => None,
    }
}

/// Asking twice gives the same geometry: two responses that agree on the bytes
/// of the geometry structure decode to identical values, whatever else they
/// hold.
pub proof fn lemma_geometry_repeatable(first: Seq<u8>, second: Seq<u8>)
    requires
        first.len() >= GEOMETRY_FIXED_LEN <==> second.len() >= GEOMETRY_FIXED_LEN,
        forall|k: int|
            0 <= k < GEOMETRY_FIXED_LEN && k < first.len() && k < second.len() ==> first[k]
                == second[k],
    ensures
        geometry_of(first) == geometry_of(second),
{
    if first.len() >= GEOMETRY_FIXED_LEN {
        lemma_le_u64_local(first, second, CYLINDERS_AT as int);
        lemma_le_u32_local(first, second, TRACKS_PER_CYLINDER_AT as int);
        lemma_le_u32_local(first, second, SECTORS_PER_TRACK_AT as int);
        lemma_le_u32_local(first, second, BYTES_PER_SECTOR_AT as int);
        lemma_le_u64_local(first, second, DISK_SIZE_AT as int);
    }
}

} // verus!
