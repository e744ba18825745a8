//! The partition table of a physical drive, decoded from the drive layout
//! response.

use vstd::prelude::*;
use vstd::string::StringExecFns;
use crate::request::{
    DeviceError, DeviceQuery, LAYOUT_ENTRY_LEN, LAYOUT_HEADER_LEN, MAX_PARTITIONS,
};
use crate::text::{decimal, push_decimal};
use crate::wire::{le_u32, le_u64, read_u32, read_u64};

verus! {

/// Where a layout response holds the number of partitions.
pub const PARTITION_COUNT_AT: usize = 4;

/// Where a partition entry holds its style code.
pub const ENTRY_STYLE_AT: usize = 0;

/// Where a partition entry holds the length of the partition.
pub const ENTRY_LENGTH_AT: usize = 16;

/// The format of the partition table that an entry belongs to.
#[derive(Clone, Copy, Debug, PartialEq, Eq, Structural)]
pub enum PartitionStyle {
    Mbr,
    Gpt,
    Unknown,
}

impl PartitionStyle {
    /// The style that a device-reported code stands for: zero for the legacy
    /// table, one for the modern table, nothing else.
    pub open spec fn of_code(code: u32) -> PartitionStyle {
        if code == 0 {
            PartitionStyle::Mbr
        } else if code == 1 {
            PartitionStyle::Gpt
        } else {
            PartitionStyle::Unknown
        }
    }

    /// Decodes a device-reported style code.
    pub fn from_code(code: u32) -> (style: PartitionStyle)
        ensures
            style == Self::of_code(code),
    {
        if code == 0 {
            PartitionStyle::Mbr
        } else if code == 1 {
            PartitionStyle::Gpt
        } else {
            PartitionStyle::Unknown
        }
    }

    /// The display name of the style.
    pub open spec fn name_text(self) -> Seq<char> {
        match self {
            PartitionStyle::Mbr => "MBR"@,
            PartitionStyle::Gpt => "GPT"@,
            PartitionStyle::Unknown => "Unknown"@,
        }
    }

    /// The display name of the style.
    pub fn name(&self) -> (text: &'static str)
        ensures
            text@ == self.name_text(),
    {
        match self {
            PartitionStyle::Mbr => "MBR",
            PartitionStyle::Gpt => "GPT",
            PartitionStyle::Unknown => "Unknown",
        }
    }
}

/// One partition of a physical drive.
#[derive(Debug)]
pub struct Partition {
    /// The 1-based position of the partition in the drive's layout.
    pub ordinal: u32,
    pub size_bytes: u64,
    pub style: PartitionStyle,
    /// `Partition` followed by the ordinal.
    pub label: String,
}

/// A partition as contracts see it.
pub struct PartitionView {
    pub ordinal: nat,
    pub size_bytes: u64,
    pub style: PartitionStyle,
    pub label: Seq<char>,
}

impl View for Partition {
    type V = PartitionView;

    open spec fn view(&self) -> PartitionView {
        PartitionView {
            ordinal: self.ordinal as nat,
            size_bytes: self.size_bytes,
            style: self.style,
            label: self.label@,
        }
    }
}

/// The partitions decoded from one response.
#[derive(Debug)]
pub struct PartitionTable {
    pub partitions: Vec<Partition>,
    /// Whether the drive reported more partitions than were read.
    pub truncated: bool,
}

/// The views of a sequence of partitions.
pub open spec fn partition_views(partitions: Seq<Partition>) -> Seq<PartitionView> {
    partitions.map_values(|p: Partition| p@)
}

/// The label of the partition with the given ordinal.
pub open spec fn label_text(ordinal: nat) -> Seq<char> {
    "Partition "@ + decimal(ordinal)
}

/// The number of partitions that a response claims to hold.
pub open spec fn partitions_reported(buf: Seq<u8>) -> nat {
    le_u32(buf, PARTITION_COUNT_AT as int) as nat
}

/// The number of whole entries that lie behind the header of a response.
pub open spec fn partitions_held(buf: Seq<u8>) -> nat {
    if buf.len() < LAYOUT_HEADER_LEN {
        0
    } else {
        ((buf.len() - LAYOUT_HEADER_LEN) / (LAYOUT_ENTRY_LEN as int)) as nat
    }
}

/// The number of partitions that are read from a response: as many as it
/// reports, but no more than fit into it and no more than the cap.
pub open spec fn partition_count(buf: Seq<u8>) -> nat {
    let reported = partitions_reported(buf);
    let held = partitions_held(buf);
    let capped = if reported <= MAX_PARTITIONS { reported } else { MAX_PARTITIONS as nat };
    if capped <= held { capped } else { held }
}

/// The partition at position `i` of a layout response. Its ordinal is its
/// position, counted from one; the partition number that the device assigns
/// plays no part.
pub open spec fn partition_at(buf: Seq<u8>, i: int) -> PartitionView {
    let base = LAYOUT_HEADER_LEN + i * LAYOUT_ENTRY_LEN;
    PartitionView {
        ordinal: (i + 1) as nat,
        size_bytes: le_u64(buf, base + ENTRY_LENGTH_AT),
        style: PartitionStyle::of_code(le_u32(buf, base + ENTRY_STYLE_AT)),
        label: label_text((i + 1) as nat),
    }
}

/// The partitions of a layout response, in the order in which the device lists
/// them.
pub open spec fn partitions_of(buf: Seq<u8>) -> Seq<PartitionView> {
    Seq::new(partition_count(buf), |i: int| partition_at(buf, i))
}

/// Whether a response reports more partitions than are read from it.
pub open spec fn partitions_truncated(buf: Seq<u8>) -> bool {
    partitions_reported(buf) > partition_count(buf)
}

/// The partitions that the outcome of a layout request gives: none for a
/// failed exchange, and none for a response without a whole header.
pub open spec fn partitions_response(response: Result<Vec<u8>, DeviceError>) -> Seq<
    PartitionView,
> {
    match response {
        Ok(buf) => if buf.len() >= LAYOUT_HEADER_LEN {
            partitions_of(buf@)
        } else {
            Seq::<PartitionView>::empty()
        },
        Err(_) => Seq::<PartitionView>::empty(),
    }
}

/// Ordinals run from one to the number of partitions, each equal to its
/// position in the list.
pub open spec fn ordinals_contiguous(partitions: Seq<PartitionView>) -> bool {
    forall|i: int| 0 <= i < partitions.len() ==> (#[trigger] partitions[i]).ordinal == i + 1
}

/// The label of the partition with the given ordinal.
pub fn partition_label(ordinal: u32) -> (label: String)
    ensures
        label@ == label_text(ordinal as nat),
{
    let mut label = String::from_str("Partition ");
    push_decimal(&mut label, ordinal as u64);
    label
}

/// Decodes a drive layout response. A response shorter than its header holds
/// no table; one that reports more entries than are read is marked truncated.
pub fn parse_layout(buf: &[u8]) -> (table: Option<PartitionTable>)
    ensures
        table is Some <==> buf.len() >= LAYOUT_HEADER_LEN,
        table matches Some(t) ==> {
            &&& partition_views(t.partitions@) == partitions_of(buf@)
            &&& t.truncated == partitions_truncated(buf@)
        },
{
    if buf.len() < LAYOUT_HEADER_LEN {
        return None;
    }
    let reported: usize = read_u32(buf, PARTITION_COUNT_AT) as usize;
    let held: usize = (buf.len() - LAYOUT_HEADER_LEN) / LAYOUT_ENTRY_LEN;
    let mut count: usize = reported;
    if count > MAX_PARTITIONS {
        count = MAX_PARTITIONS;
    }
    if count > held {
        count = held;
    }
    let mut partitions: Vec<Partition> = Vec::new();
    let mut i: usize = 0;
    while i < count
        invariant
            i <= count,
            count <= MAX_PARTITIONS,
            count <= held,
            held == partitions_held(buf@),
            buf.len() >= LAYOUT_HEADER_LEN,
            partition_views(partitions@) == Seq::new(i as nat, |k: int| partition_at(buf@, k)),
        decreases count - i,
    {
        let ghost before = partition_views(partitions@);
        let base: usize = LAYOUT_HEADER_LEN + i * LAYOUT_ENTRY_LEN;
        let ordinal: u32 = (i + 1) as u32;
        let partition = Partition {
            ordinal,
            size_bytes: read_u64(buf, base + ENTRY_LENGTH_AT),
            style: PartitionStyle::from_code(read_u32(buf, base + ENTRY_STYLE_AT)),
            label: partition_label(ordinal),
        };
        assert(partition@ == partition_at(buf@, i as int));
        partitions.push(partition);
        i += 1;
        assert(partition_views(partitions@) =~= Seq::new(
            i as nat,
            |k: int| partition_at(buf@, k),
        )) by {
            assert(partition_views(partitions@) =~= before.push(partition_at(buf@, i - 1)));
        }
    }
    Some(PartitionTable { partitions, truncated: reported > count })
}

/// Resolves the outcome of a layout request to the ordered list of partitions.
/// Any failure gives the empty list: a drive without partitions is an ordinary
/// drive. The ordinals of the list run from one upwards without a gap.
pub fn query_partitions(response: &Result<Vec<u8>, DeviceError>) -> (partitions: Vec<Partition>)
    ensures
        partition_views(partitions@) == partitions_response(*response),
        ordinals_contiguous(partition_views(partitions@)),
        partitions.len() <= MAX_PARTITIONS,
{
    let found = match response {
        Ok(buf) => parse_layout(buf.as_slice()),
        Err(_) => None,
    };
    match found {
        Some(table) => {
            assert(partition_views(table.partitions@).len() == table.partitions.len());
            table.partitions
        },
        None => {
            let empty: Vec<Partition> = Vec::new();
            assert(partition_views(empty@) =~= Seq::<PartitionView>::empty());
            empty
        },
    }
}

/// Whatever a layout response holds, the partitions read from it are numbered
/// from one upwards by their position, and there are no more of them than the
/// cap allows.
pub proof fn lemma_ordinals_contiguous(buf: Seq<u8>)
    ensures
        ordinals_contiguous(partitions_of(buf)),
        partitions_of(buf).len() <= MAX_PARTITIONS,
        partitions_of(buf).len() <= partitions_reported(buf),
{
}

/// A response buffer of the size that the layout request asks for holds
/// exactly as many entries as the cap allows, so that nothing below the cap is
/// ever cut off for want of room.
pub proof fn lemma_layout_capacity_holds_cap(buf: Seq<u8>)
    requires
        buf.len() == DeviceQuery::Layout.capacity(),
    ensures
        partitions_held(buf) == MAX_PARTITIONS,
        partitions_truncated(buf) <==> partitions_reported(buf) > MAX_PARTITIONS,
{
}

} // verus!
