//! Block-storage topology discovery.
//!
//! The library holds the pure side of a disk explorer: which requests to put to
//! the device-control interface, how large the response buffers must be, how the
//! binary responses decode into drives, geometries, partitions and volume
//! extents, and how logical volumes relate to the physical drives that back
//! them. Opening devices and issuing the requests is left to the caller, who
//! hands the raw outcomes to the functions here.

pub mod wire;
pub mod text;
pub mod bus;
pub mod request;
pub mod identity;
pub mod path;
pub mod volume;
pub mod geometry;
pub mod partition;
pub mod capacity;
pub mod discovery;
