//! Total, free and used capacity of a mounted logical volume.

use vstd::prelude::*;
use crate::request::DeviceError;

verus! {

/// The number of bytes in a gigabyte of 1024-based units.
pub const GIB: u64 = 0x4000_0000;

/// What the free-space query reports for a volume.
#[derive(Clone, Copy, Debug, PartialEq, Eq, Structural)]
pub struct SpaceCounts {
    pub total_bytes: u64,
    /// The bytes that are free for the caller to use.
    pub free_bytes: u64,
}

/// The capacity of a volume. The used part is always the total less the free
/// part, and the free part never exceeds the total.
#[derive(Clone, Copy, Debug)]
pub struct CapacityInfo {
    total_bytes: u64,
    free_bytes: u64,
    used_bytes: u64,
}

impl CapacityInfo {
    #[verifier::type_invariant]
    spec fn consistent(self) -> bool {
        &&& self.free_bytes <= self.total_bytes
        &&& self.used_bytes == self.total_bytes - self.free_bytes
    }

    /// The total size of the volume in bytes.
    pub closed spec fn total(self) -> nat {
        self.total_bytes as nat
    }

    /// The free part of the volume in bytes.
    pub closed spec fn free(self) -> nat {
        self.free_bytes as nat
    }

    /// The used part of the volume in bytes.
    pub closed spec fn used(self) -> nat {
        self.used_bytes as nat
    }

    /// Makes a capacity of a total and a free count. Counts of which the free
    /// one exceeds the total describe no volume and give `None`.
    pub fn new(total_bytes: u64, free_bytes: u64) -> (info: Option<CapacityInfo>)
        ensures
            info is Some <==> free_bytes <= total_bytes,
            info matches Some(c) ==> {
                &&& c.total() == total_bytes
                &&& c.free() == free_bytes
                &&& c.used() == total_bytes - free_bytes
            },
    {
        if free_bytes <= total_bytes {
            Some(CapacityInfo { total_bytes, free_bytes, used_bytes: total_bytes - free_bytes })
        } else {
            None
        }
    }

    /// The total size of the volume in bytes.
    pub fn total_bytes(&self) -> (bytes: u64)
        ensures
            bytes == self.total(),
    {
        self.total_bytes
    }

    /// The free part of the volume in bytes. It never exceeds the total.
    pub fn free_bytes(&self) -> (bytes: u64)
        ensures
            bytes == self.free(),
            self.free() <= self.total(),
    {
        proof {
            use_type_invariant(self);
        }
        self.free_bytes
    }

    /// The used part of the volume in bytes: the total less the free part.
    pub fn used_bytes(&self) -> (bytes: u64)
        ensures
            bytes == self.used(),
            self.used() == self.total() - self.free(),
    {
        proof {
            use_type_invariant(self);
        }
        self.used_bytes
    }
}

/// A byte count in tenths of a gigabyte of 1024-based units, rounded to the
/// nearest tenth, halves upwards.
pub open spec fn gib_tenths(bytes: u64) -> nat {
    ((bytes * 10 + GIB / 2) / (GIB as int)) as nat
}

/// Converts a byte count to tenths of a gigabyte of 1024-based units.
pub fn tenths_of_gib(bytes: u64) -> (tenths: u64)
    ensures
        tenths == gib_tenths(bytes),
{
    let scaled: u128 = bytes as u128 * 10 + (GIB / 2) as u128;
    (scaled / GIB as u128) as u64
}

/// Whether the outcome of a free-space query gives a capacity: the query
/// succeeded, and the free count it reports is within the total.
pub open spec fn capacity_available(response: Result<SpaceCounts, DeviceError>) -> bool {
    response matches Ok(counts) && counts.free_bytes <= counts.total_bytes
}

/// Resolves the outcome of a free-space query to the capacity of the volume.
/// A failed query gives `None`. In every capacity that comes out, the used
/// part is the total less the free part and the free part is within the total.
pub fn query_capacity(response: &Result<SpaceCounts, DeviceError>) -> (info: Option<CapacityInfo>)
    ensures
        info is Some <==> capacity_available(*response),
        info matches Some(c) ==> {
            &&& c.total() == response->Ok_0.total_bytes
            &&& c.free() == response->Ok_0.free_bytes
            &&& c.used() == c.total() - c.free()
            &&& c.free() <= c.total()
        },
{
    match response {
        Ok(counts) => CapacityInfo::new(counts.total_bytes, counts.free_bytes),
        Err(_) => None,
    }
}

} // verus!
