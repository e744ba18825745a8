//! The two composite operations of discovery: listing the physical drives of
//! the host, and inspecting one of them.

use vstd::prelude::*;
use crate::bus::BusType;
use crate::geometry::{geometry_response, query_geometry, Geometry};
use crate::identity::{
    descriptor_bus_type, descriptor_model, identity_available, query_identity, Identity,
};
use crate::partition::{
    ordinals_contiguous, partition_views, partitions_response, query_partitions, Partition,
    PartitionView,
};
use crate::request::DeviceError;
use crate::volume::{
    collect_volumes, correlate, correlated, texts, volumes_of, VolumeProbe,
};

verus! {

/// A physical drive of the host. The index is its identity; geometry and
/// partitions are filled in when the drive is inspected.
#[derive(Debug)]
pub struct PhysicalDrive {
    pub index: u64,
    pub model: String,
    pub bus_type: BusType,
    pub geometry: Option<Geometry>,
    pub partitions: Vec<Partition>,
}

/// A physical drive as contracts see it.
pub struct DriveView {
    pub index: nat,
    pub model: Seq<char>,
    pub bus_type: BusType,
    pub geometry: Option<Geometry>,
    pub partitions: Seq<PartitionView>,
}

impl View for PhysicalDrive {
    type V = DriveView;

    open spec fn view(&self) -> DriveView {
        DriveView {
            index: self.index as nat,
            model: self.model@,
            bus_type: self.bus_type,
            geometry: self.geometry,
            partitions: partition_views(self.partitions@),
        }
    }
}

/// The views of a sequence of drives.
pub open spec fn drive_views(drives: Seq<PhysicalDrive>) -> Seq<DriveView> {
    drives.map_values(|d: PhysicalDrive| d@)
}

/// The drive that is listed for an index and an identity: not yet inspected,
/// so without geometry and without partitions.
pub open spec fn listed_drive(index: nat, model: Seq<char>, bus_type: BusType) -> DriveView {
    DriveView {
        index,
        model,
        bus_type,
        geometry: None,
        partitions: Seq::<PartitionView>::empty(),
    }
}

impl PhysicalDrive {
    /// The drive with the given index and identity, not yet inspected.
    pub fn new(index: u64, identity: Identity) -> (drive: PhysicalDrive)
        ensures
            drive@ == listed_drive(index as nat, identity.model@, identity.bus_type),
    {
        let partitions: Vec<Partition> = Vec::new();
        assert(partition_views(partitions@) =~= Seq::<PartitionView>::empty());
        PhysicalDrive {
            index,
            model: identity.model,
            bus_type: identity.bus_type,
            geometry: None,
            partitions,
        }
    }

    /// Replaces geometry and partitions by what an inspection found. Index,
    /// model and bus type stay as they are.
    pub fn apply_inspection(&mut self, geometry: Option<Geometry>, partitions: Vec<Partition>)
        ensures
            final(self)@ == (DriveView {
                geometry,
                partitions: partition_views(partitions@),
                ..old(self)@
            }),
    {
        self.geometry = geometry;
        self.partitions = partitions;
    }
}

// ---------------------------------------------------------------------------
// Enumeration
// ---------------------------------------------------------------------------

/// The progress of an enumeration of physical drives. Drives are asked for
/// their identity by ascending index, starting at zero, and the enumeration
/// ends at the first index that gives none.
pub struct DriveScan {
    drives: Vec<PhysicalDrive>,
    finished: bool,
}

impl DriveScan {
    #[verifier::type_invariant]
    spec fn indexed(self) -> bool {
        &&& self.drives.len() <= u64::MAX
        &&& forall|i: int| 0 <= i < self.drives.len() ==> (#[trigger] self.drives[i]).index == i
    }

    /// The drives found so far, in index order.
    pub closed spec fn found(self) -> Seq<DriveView> {
        drive_views(self.drives@)
    }

    /// Whether an index has given no identity yet.
    pub closed spec fn is_finished(self) -> bool {
        self.finished
    }

    /// An enumeration that has asked nothing yet.
    pub fn new() -> (scan: DriveScan)
        ensures
            scan.found() == Seq::<DriveView>::empty(),
            !scan.is_finished(),
    {
        let drives: Vec<PhysicalDrive> = Vec::new();
        assert(drive_views(drives@) =~= Seq::<DriveView>::empty());
        DriveScan { drives, finished: false }
    }

    /// The index to ask next, or `None` once the enumeration has ended.
    pub fn next_index(&self) -> (index: Option<u64>)
        ensures
            index == (if self.is_finished() {
                None
            } else {
                Some(self.found().len() as u64)
            }),
            !self.is_finished() ==> self.found().len() <= u64::MAX,
    {
        proof {
            use_type_invariant(self);
        }
        if self.finished {
            None
        } else {
            Some(self.drives.len() as u64)
        }
    }

    /// Takes in what the drive at `next_index` said of itself and gives the
    /// state that follows. An identity adds the drive to the list; `None` ends
    /// the enumeration. An enumeration that has ended takes in nothing more.
    pub fn record(self, identity: Option<Identity>) -> (next: DriveScan)
        ensures
            self.is_finished() ==> {
                &&& next.is_finished()
                &&& next.found() == self.found()
            },
            !self.is_finished() ==> match identity {
                Some(id) => {
                    &&& !next.is_finished()
                    &&& next.found() == self.found().push(
                        listed_drive(self.found().len(), id.model@, id.bus_type),
                    )
                },
                None => {
                    &&& next.is_finished()
                    &&& next.found() == self.found()
                },
            },
    {
        proof {
            use_type_invariant(&self);
        }
        let DriveScan { drives, finished } = self;
        if finished {
            return DriveScan { drives, finished };
        }
        match identity {
            Some(id) => {
                let mut drives = drives;
                let ghost before = drive_views(drives@);
                let index: u64 = drives.len() as u64;
                let drive = PhysicalDrive::new(index, id);
                drives.push(drive);
                assert(drive_views(drives@) =~= before.push(
                    listed_drive(index as nat, id.model@, id.bus_type),
                ));
                DriveScan { drives, finished: false }
            },
            None => DriveScan { drives, finished: true },
        }
    }

    /// Ends the enumeration and hands out the drives found, in index order.
    pub fn into_drives(self) -> (drives: Vec<PhysicalDrive>)
        ensures
            drive_views(drives@) == self.found(),
            forall|i: int| 0 <= i < drives.len() ==> (#[trigger] drives[i]).index == i,
    {
        proof {
            use_type_invariant(&self);
        }
        self.drives
    }
}

/// The number of drives that an enumeration lists when the drive at index `i`
/// answers with `responses[i]`: the position of the first response that gives
/// no identity, or the number of responses when each gives one.
pub open spec fn first_gap(responses: Seq<Result<Vec<u8>, DeviceError>>) -> nat
    decreases responses.len(),
{
    if responses.len() == 0 {
        0
    } else {
        let before = first_gap(responses.drop_last());
        if before == responses.len() - 1 && identity_available(responses.last()) {
            responses.len()
        } else {
            before
        }
    }
}

/// The drive that is listed for the response at index `i`.
pub open spec fn enumerated_drive(responses: Seq<Result<Vec<u8>, DeviceError>>, i: int) -> DriveView {
    listed_drive(
        i as nat,
        descriptor_model(responses[i]->Ok_0@),
        descriptor_bus_type(responses[i]->Ok_0@),
    )
}

/// The drives that an enumeration lists when the drive at index `i` answers
/// with `responses[i]`.
pub open spec fn enumerated(responses: Seq<Result<Vec<u8>, DeviceError>>) -> Seq<DriveView> {
    Seq::new(first_gap(responses), |i: int| enumerated_drive(responses, i))
}

/// `first_gap` is the first position without an identity: every response
/// before it gives one, and the response at it, where there is one, gives none.
pub proof fn lemma_first_gap(responses: Seq<Result<Vec<u8>, DeviceError>>)
    ensures
        first_gap(responses) <= responses.len(),
        forall|k: int| 0 <= k < first_gap(responses) ==> identity_available(#[trigger] responses[k]),
        first_gap(responses) < responses.len() ==> !identity_available(
            responses[first_gap(responses) as int],
        ),
    decreases responses.len(),
{
    if responses.len() > 0 {
        let front = responses.drop_last();
        lemma_first_gap(front);
        assert forall|k: int| 0 <= k < first_gap(responses) implies identity_available(
            #[trigger] responses[k],
        ) by {
            if k < responses.len() - 1 {
                assert(front[k] == responses[k]);
            }
        }
        if first_gap(front) < front.len() {
            assert(front[first_gap(front) as int] == responses[first_gap(front) as int]);
        }
    }
}

/// Enumeration stops at the first gap: where the drive at index `i` gives no
/// identity, neither that index nor any above it is listed.
pub proof fn lemma_enumeration_stops_at_gap(responses: Seq<Result<Vec<u8>, DeviceError>>, i: int)
    requires
        0 <= i < responses.len(),
        !identity_available(responses[i]),
    ensures
        enumerated(responses).len() <= i,
        forall|k: int|
            0 <= k < enumerated(responses).len() ==> (#[trigger] enumerated(responses)[k]).index
                < i,
{
    lemma_first_gap(responses);
    if first_gap(responses) > i {
        assert(identity_available(responses[i]));
    }
}

/// The listed drives carry their positions as indices, in ascending order.
pub proof fn lemma_enumeration_in_index_order(responses: Seq<Result<Vec<u8>, DeviceError>>)
    ensures
        forall|k: int|
            0 <= k < enumerated(responses).len() ==> (#[trigger] enumerated(responses)[k]).index
                == k,
{
}

/// Lists the physical drives of a host of which the drive at index `i` answers
/// the identity request with `responses[i]`. The list is in index order and
/// ends before the first index that gives no identity.
pub fn enumerate_physical_drives(responses: &Vec<Result<Vec<u8>, DeviceError>>) -> (drives: Vec<
    PhysicalDrive,
>)
    ensures
        drive_views(drives@) == enumerated(responses@),
{
    let mut scan = DriveScan::new();
    let mut i: usize = 0;
    while i < responses.len()
        invariant
            i <= responses.len(),
            !scan.is_finished(),
            scan.found().len() == i,
            first_gap(responses@.take(i as int)) == i,
            scan.found() == enumerated(responses@.take(i as int)),
        decreases responses.len() - i,
    {
        let ghost before = responses@.take(i as int);
        let ghost after = responses@.take(i + 1);
        assert(after.drop_last() =~= before);
        assert(after.last() == responses@[i as int]);
        let identity = query_identity(&responses[i]);
        let answered: bool = identity.is_some();
        scan = scan.record(identity);
        if !answered {
            proof {
                lemma_gap_is_final(responses@, i as int);
                assert(enumerated(responses@) =~= enumerated(before)) by {
                    assert forall|k: int| 0 <= k < i implies enumerated_drive(responses@, k)
                        == enumerated_drive(before, k) by {
                        assert(before[k] == responses@[k]);
                    }
                }
            }
            return scan.into_drives();
        }
        i += 1;
        proof {
            assert(scan.found() =~= enumerated(after)) by {
                assert forall|k: int| 0 <= k < i implies #[trigger] scan.found()[k]
                    == enumerated_drive(after, k) by {
                    assert(after[k] == responses@[k]);
                    if k < i - 1 {
                        assert(before[k] == responses@[k]);
                        assert(enumerated(before)[k] == enumerated_drive(before, k));
                    }
                }
            }
        }
    }
    assert(responses@.take(i as int) =~= responses@);
    scan.into_drives()
}

/// Once a prefix of the responses ends in a gap, the responses behind it have
/// no part in the enumeration.
proof fn lemma_gap_is_final(responses: Seq<Result<Vec<u8>, DeviceError>>, i: int)
    requires
        0 <= i < responses.len(),
        first_gap(responses.take(i)) == i,
        !identity_available(responses[i]),
    ensures
        first_gap(responses) == i,
    decreases responses.len() - i,
{
    lemma_gap_from(responses, i, responses.len() as int);
    assert(responses.take(responses.len() as int) =~= responses);
}

proof fn lemma_gap_from(responses: Seq<Result<Vec<u8>, DeviceError>>, i: int, n: int)
    requires
        0 <= i < n <= responses.len(),
        first_gap(responses.take(i)) == i,
        !identity_available(responses[i]),
    ensures
        first_gap(responses.take(n)) == i,
    decreases n,
{
    let upto = responses.take(n);
    assert(upto.drop_last() =~= responses.take(n - 1));
    if n == i + 1 {
        assert(upto.last() == responses[i]);
    } else {
        lemma_gap_from(responses, i, n - 1);
    }
}

// ---------------------------------------------------------------------------
// Inspection
// ---------------------------------------------------------------------------

/// What the inspection of one physical drive found.
#[derive(Debug)]
pub struct DriveReport {
    /// The drive's geometry, where it was available.
    pub geometry: Option<Geometry>,
    /// The drive's partitions in layout order.
    pub partitions: Vec<Partition>,
    /// The device paths of the volumes that the drive backs.
    pub volumes: Vec<String>,
}

/// Puts together what is known of one physical drive from the outcomes of its
/// three queries. Each part follows from its own query alone, so that a failed
/// query empties its part and leaves the others as they are.
pub fn inspect_drive(
    drive_index: u64,
    geometry: &Result<Vec<u8>, DeviceError>,
    layout: &Result<Vec<u8>, DeviceError>,
    probes: &Vec<VolumeProbe>,
) -> (report: DriveReport)
    ensures
        report.geometry == geometry_response(*geometry),
        partition_views(report.partitions@) == partitions_response(*layout),
        ordinals_contiguous(partition_views(report.partitions@)),
        texts(report.volumes@) == correlated(volumes_of(probes@), drive_index),
{
    let found_geometry = query_geometry(geometry);
    let partitions = query_partitions(layout);
    let volumes = collect_volumes(probes);
    let paths = correlate(drive_index, &volumes);
    DriveReport { geometry: found_geometry, partitions, volumes: paths }
}

/// The sum of the sizes of a list of partitions.
pub open spec fn total_partition_bytes(partitions: Seq<PartitionView>) -> nat
    decreases partitions.len(),
{
    if partitions.len() == 0 {
        0
    } else {
        total_partition_bytes(partitions.drop_last()) + partitions.last().size_bytes as nat
    }
}

/// Whether the partitions fit on a disk of the given geometry. Without a
/// geometry there is nothing that they could exceed.
pub open spec fn partitions_within(partitions: Seq<PartitionView>, geometry: Option<Geometry>) -> bool {
    geometry matches Some(g) ==> total_partition_bytes(partitions) <= g.total_disk_size_bytes
}

impl DriveReport {
    /// Whether the partitions of the report add up to no more than the size
    /// that the drive reports of itself.
    pub fn partitions_fit(&self) -> (fit: bool)
        ensures
            fit == partitions_within(partition_views(self.partitions@), self.geometry),
    {
        let total: u64 = match self.geometry {
            Some(g) => g.total_disk_size_bytes,
            None => {
                return true;
            },
        };
        let ghost views = partition_views(self.partitions@);
        let mut remaining: u64 = total;
        let mut i: usize = 0;
        while i < self.partitions.len()
            invariant
                i <= self.partitions.len(),
                views == partition_views(self.partitions@),
                self.geometry matches Some(g) && g.total_disk_size_bytes == total,
                remaining + total_partition_bytes(views.take(i as int)) == total,
            decreases self.partitions.len() - i,
        {
            assert(views.take(i + 1).drop_last() =~= views.take(i as int));
            assert(views.take(i + 1).last().size_bytes == self.partitions[i as int].size_bytes);
            assert(total_partition_bytes(views.take(i + 1)) == total_partition_bytes(
                views.take(i as int),
            ) + self.partitions[i as int].size_bytes);
            if self.partitions[i].size_bytes > remaining {
                proof {
                    lemma_total_grows(views, i + 1);
                }
                return false;
            }
            remaining -= self.partitions[i].size_bytes;
            i += 1;
        }
        assert(views.take(i as int) =~= views);
        true
    }
}

/// The sum over a prefix never exceeds the sum over the whole list.
proof fn lemma_total_grows(partitions: Seq<PartitionView>, n: int)
    requires
        0 <= n <= partitions.len(),
    ensures
        total_partition_bytes(partitions.take(n)) <= total_partition_bytes(partitions),
    decreases partitions.len() - n,
{
    if n == partitions.len() {
        assert(partitions.take(n) =~= partitions);
    } else {
        lemma_total_grows(partitions, n + 1);
        assert(partitions.take(n + 1).drop_last() =~= partitions.take(n));
    }
}

} // verus!
