//! Logical volumes: which drive letters are mounted, on which physical disks
//! the extents of a volume lie, and which volumes a physical drive backs.

use vstd::prelude::*;
use crate::path::{volume_device_path, volume_device_path_text, volume_root_path, volume_root_path_text};
use crate::request::{
    DeviceError, DeviceQuery, EXTENTS_HEADER_LEN, EXTENT_ENTRY_LEN, MAX_EXTENTS,
};
use crate::wire::{le_i64, le_u32, le_u64, read_i64, read_u32, read_u64};

verus! {

/// The number of drive letters, `A` through `Z`.
pub const LETTER_COUNT: u32 = 26;

/// A contiguous byte range on a physical disk that backs part of a volume.
#[derive(Clone, Copy, Debug, PartialEq, Eq, Structural)]
pub struct DiskExtent {
    pub disk_index: u64,
    pub starting_offset: i64,
    pub length_bytes: u64,
}

/// The extents decoded from one response.
#[derive(Debug)]
pub struct ExtentList {
    pub extents: Vec<DiskExtent>,
    /// Whether the volume reported more extents than were read.
    pub truncated: bool,
}

/// A mounted volume with the extents it occupies.
#[derive(Debug)]
pub struct LogicalVolume {
    /// The device path of the volume.
    pub path: String,
    pub extents: Vec<DiskExtent>,
}

/// A logical volume as contracts see it.
pub struct VolumeView {
    pub path: Seq<char>,
    pub extents: Seq<DiskExtent>,
}

impl View for LogicalVolume {
    type V = VolumeView;

    open spec fn view(&self) -> VolumeView {
        VolumeView { path: self.path@, extents: self.extents@ }
    }
}

/// The outcome of asking one mounted volume for its extents.
#[derive(Debug)]
pub struct VolumeProbe {
    pub letter: char,
    pub response: Result<Vec<u8>, DeviceError>,
}

/// The texts of a sequence of strings.
pub open spec fn texts(strings: Seq<String>) -> Seq<Seq<char>> {
    strings.map_values(|s: String| s@)
}

/// The views of a sequence of volumes.
pub open spec fn volume_views(volumes: Seq<LogicalVolume>) -> Seq<VolumeView> {
    volumes.map_values(|v: LogicalVolume| v@)
}

// ---------------------------------------------------------------------------
// Mounted drive letters
// ---------------------------------------------------------------------------

/// The drive letter at a position of the alphabet, `A` at position zero.
pub open spec fn letter_at(position: int) -> char
    recommends
        0 <= position < LETTER_COUNT,
{
    ((0x41 + position) as u8) as char
}

/// Whether the drive-letter bitmask has the letter at `position` mounted. Bit
/// zero stands for `A`; bits past `Z` stand for nothing.
pub open spec fn is_mounted(mask: u32, position: int) -> bool {
    0 <= position < LETTER_COUNT && (mask >> (position as u32)) & 1 == 1
}

/// The mounted letters among the first `n` of the alphabet, in alphabetical
/// order.
pub open spec fn mounted_below(mask: u32, n: int) -> Seq<char>
    decreases n,
{
    if n <= 0 {
        Seq::<char>::empty()
    } else if is_mounted(mask, n - 1) {
        mounted_below(mask, n - 1).push(letter_at(n - 1))
    } else {
        mounted_below(mask, n - 1)
    }
}

/// The mounted letters of a bitmask, `A` to `Z`.
pub open spec fn mounted(mask: u32) -> Seq<char> {
    mounted_below(mask, LETTER_COUNT as int)
}

/// The position that a letter of `mounted_below` comes from.
pub open spec fn mounted_position(mask: u32, n: int, i: int) -> int
    decreases n,
{
    if n <= 0 {
        0
    } else if is_mounted(mask, n - 1) && i == mounted_below(mask, n - 1).len() {
        n - 1
    } else {
        mounted_position(mask, n - 1, i)
    }
}

/// Every listed letter stands for a set bit, the letters come in strictly
/// ascending positions, and every set bit below `n` is listed.
pub proof fn lemma_mounted_below(mask: u32, n: int)
    requires
        0 <= n <= LETTER_COUNT,
    ensures
        mounted_below(mask, n).len() <= n,
        forall|i: int|
            0 <= i < mounted_below(mask, n).len() ==> {
                let p = #[trigger] mounted_position(mask, n, i);
                &&& 0 <= p < n
                &&& is_mounted(mask, p)
                &&& mounted_below(mask, n)[i] == letter_at(p)
            },
        forall|i: int, j: int|
            0 <= i < j < mounted_below(mask, n).len() ==> #[trigger] mounted_position(mask, n, i)
                < #[trigger] mounted_position(mask, n, j),
        forall|p: int|
            0 <= p < n && #[trigger] is_mounted(mask, p) ==> mounted_below(mask, n).contains(
                letter_at(p),
            ),
    decreases n,
{
    if n > 0 {
        lemma_mounted_below(mask, n - 1);
        let front = mounted_below(mask, n - 1);
        let all = mounted_below(mask, n);
        assert forall|i: int| 0 <= i < all.len() implies {
            let p = #[trigger] mounted_position(mask, n, i);
            &&& 0 <= p < n
            &&& is_mounted(mask, p)
            &&& all[i] == letter_at(p)
        } by {
            if i < front.len() {
                let p = mounted_position(mask, n - 1, i);
                assert(0 <= p < n - 1);
            }
        }
        assert forall|i: int, j: int| 0 <= i < j < all.len() implies #[trigger] mounted_position(
            mask,
            n,
            i,
        ) < #[trigger] mounted_position(mask, n, j) by {
            let pi = mounted_position(mask, n - 1, i);
            assert(0 <= pi < n - 1);
            if j < front.len() {
                let pj = mounted_position(mask, n - 1, j);
                assert(pi < pj);
            }
        }
        assert forall|p: int| 0 <= p < n && #[trigger] is_mounted(mask, p) implies all.contains(
            letter_at(p),
        ) by {
            if p == n - 1 {
                assert(all[all.len() - 1] == letter_at(p));
            } else {
                assert(front.contains(letter_at(p)));
                let k = choose|k: int| 0 <= k < front.len() && front[k] == letter_at(p);
                assert(all[k] == letter_at(p));
            }
        }
    }
}

/// The letters of the mounted logical drives, `A` to `Z`.
pub fn mounted_letters(mask: u32) -> (letters: Vec<char>)
    ensures
        letters@ == mounted(mask),
{
    let mut letters: Vec<char> = Vec::new();
    let mut position: u32 = 0;
    while position < LETTER_COUNT
        invariant
            position <= LETTER_COUNT,
            letters@ == mounted_below(mask, position as int),
        decreases LETTER_COUNT - position,
    {
        if (mask >> position) & 1 == 1 {
            let code: u8 = 0x41 + position as u8;
            letters.push(code as char);
        }
        position += 1;
    }
    letters
}

/// The root paths of the mounted logical drives, `A` to `Z`.
pub fn list_logical_drives(mask: u32) -> (roots: Vec<String>)
    ensures
        texts(roots@) == mounted(mask).map_values(|c: char| volume_root_path_text(c)),
{
    let letters = mounted_letters(mask);
    let mut roots: Vec<String> = Vec::new();
    let mut i: usize = 0;
    while i < letters.len()
        invariant
            i <= letters.len(),
            roots.len() == i,
            forall|k: int| 0 <= k < i ==> (#[trigger] roots[k])@ == volume_root_path_text(letters[k]),
        decreases letters.len() - i,
    {
        roots.push(volume_root_path(letters[i]));
        i += 1;
    }
    assert(texts(roots@) =~= letters@.map_values(|c: char| volume_root_path_text(c)));
    roots
}

// ---------------------------------------------------------------------------
// Extents
// ---------------------------------------------------------------------------

/// The number of extents that a response claims to hold.
pub open spec fn extents_reported(buf: Seq<u8>) -> nat {
    le_u32(buf, 0) as nat
}

/// The number of whole entries that lie behind the header of a response.
pub open spec fn extents_held(buf: Seq<u8>) -> nat {
    if buf.len() < EXTENTS_HEADER_LEN {
        0
    } else {
        ((buf.len() - EXTENTS_HEADER_LEN) / (EXTENT_ENTRY_LEN as int)) as nat
    }
}

/// The number of extents that are read from a response: as many as it reports,
/// but no more than fit into it and no more than the cap.
pub open spec fn extent_count(buf: Seq<u8>) -> nat {
    let reported = extents_reported(buf);
    let held = extents_held(buf);
    let capped = if reported <= MAX_EXTENTS { reported } else { MAX_EXTENTS as nat };
    if capped <= held { capped } else { held }
}

/// The entry at position `i` of an extents response.
pub open spec fn extent_at(buf: Seq<u8>, i: int) -> DiskExtent {
    let base = EXTENTS_HEADER_LEN + i * EXTENT_ENTRY_LEN;
    DiskExtent {
        disk_index: le_u32(buf, base) as u64,
        starting_offset: le_i64(buf, base + 8),
        length_bytes: le_u64(buf, base + 16),
    }
}

/// The extents of a response, in the order in which the response lists them.
pub open spec fn extents_of(buf: Seq<u8>) -> Seq<DiskExtent> {
    Seq::new(extent_count(buf), |i: int| extent_at(buf, i))
}

/// Whether a response reports more extents than are read from it.
pub open spec fn extents_truncated(buf: Seq<u8>) -> bool {
    extents_reported(buf) > extent_count(buf)
}

/// Decodes an extents response. A response shorter than its header holds
/// nothing; one that reports more entries than are read is marked truncated.
pub fn parse_extents(buf: &[u8]) -> (list: Option<ExtentList>)
    ensures
        list is Some <==> buf.len() >= EXTENTS_HEADER_LEN,
        list matches Some(l) ==> {
            &&& l.extents@ == extents_of(buf@)
            &&& l.truncated == extents_truncated(buf@)
        },
{
    if buf.len() < EXTENTS_HEADER_LEN {
        return None;
    }
    let reported: usize = read_u32(buf, 0) as usize;
    let held: usize = (buf.len() - EXTENTS_HEADER_LEN) / EXTENT_ENTRY_LEN;
    let mut count: usize = reported;
    if count > MAX_EXTENTS {
        count = MAX_EXTENTS;
    }
    if count > held {
        count = held;
    }
    let mut extents: Vec<DiskExtent> = Vec::new();
    let mut i: usize = 0;
    while i < count
        invariant
            i <= count,
            count <= MAX_EXTENTS,
            count <= held,
            held == extents_held(buf@),
            buf.len() >= EXTENTS_HEADER_LEN,
            extents@ == Seq::new(i as nat, |k: int| extent_at(buf@, k)),
        decreases count - i,
    {
        let base: usize = EXTENTS_HEADER_LEN + i * EXTENT_ENTRY_LEN;
        let extent = DiskExtent {
            disk_index: read_u32(buf, base) as u64,
            starting_offset: read_i64(buf, base + 8),
            length_bytes: read_u64(buf, base + 16),
        };
        extents.push(extent);
        i += 1;
        assert(extents@ =~= Seq::new(i as nat, |k: int| extent_at(buf@, k)));
    }
    Some(ExtentList { extents, truncated: reported > count })
}

/// A response buffer of the size that the extents request asks for holds
/// exactly as many entries as the cap allows.
pub proof fn lemma_extents_capacity_holds_cap(buf: Seq<u8>)
    requires
        buf.len() == DeviceQuery::Extents.capacity(),
    ensures
        extents_held(buf) == MAX_EXTENTS,
        extents_truncated(buf) <==> extents_reported(buf) > MAX_EXTENTS,
{
}

// ---------------------------------------------------------------------------
// Volumes and their correlation with physical drives
// ---------------------------------------------------------------------------

/// Whether a probe produced a response that holds an extent list.
pub open spec fn probe_answered(probe: VolumeProbe) -> bool {
    probe.response matches Ok(buf) && buf.len() >= EXTENTS_HEADER_LEN
}

/// The volume that an answered probe describes.
pub open spec fn probed_volume(probe: VolumeProbe) -> VolumeView {
    VolumeView {
        path: volume_device_path_text(probe.letter),
        extents: extents_of(probe.response->Ok_0@),
    }
}

/// The volumes of the answered probes, in the order of the probes.
pub open spec fn volumes_of(probes: Seq<VolumeProbe>) -> Seq<VolumeView>
    decreases probes.len(),
{
    if probes.len() == 0 {
        Seq::<VolumeView>::empty()
    } else if probe_answered(probes.last()) {
        volumes_of(probes.drop_last()).push(probed_volume(probes.last()))
    } else {
        volumes_of(probes.drop_last())
    }
}

/// Whether any of the extents lies on the given physical disk.
pub open spec fn on_disk(extents: Seq<DiskExtent>, drive_index: u64) -> bool {
    exists|i: int| 0 <= i < extents.len() && (#[trigger] extents[i]).disk_index == drive_index
}

/// The paths of the volumes that have an extent on the given physical disk, in
/// the order of the volumes, each volume once.
pub open spec fn correlated(volumes: Seq<VolumeView>, drive_index: u64) -> Seq<Seq<char>>
    decreases volumes.len(),
{
    if volumes.len() == 0 {
        Seq::<Seq<char>>::empty()
    } else if on_disk(volumes.last().extents, drive_index) {
        correlated(volumes.drop_last(), drive_index).push(volumes.last().path)
    } else {
        correlated(volumes.drop_last(), drive_index)
    }
}

/// Whether any of the extents lies on the given physical disk. The scan stops
/// at the first match.
pub fn has_extent_on(extents: &Vec<DiskExtent>, drive_index: u64) -> (found: bool)
    ensures
        found == on_disk(extents@, drive_index),
{
    let mut i: usize = 0;
    while i < extents.len()
        invariant
            i <= extents.len(),
            forall|k: int| 0 <= k < i ==> (#[trigger] extents[k]).disk_index != drive_index,
        decreases extents.len() - i,
    {
        if extents[i].disk_index == drive_index {
            return true;
        }
        i += 1;
    }
    false
}

impl LogicalVolume {
    /// The volume that the outcome of an extents request describes. A volume
    /// that could not be opened or did not answer gives none.
    pub fn from_probe(probe: &VolumeProbe) -> (volume: Option<LogicalVolume>)
        ensures
            volume is Some <==> probe_answered(*probe),
            volume matches Some(v) ==> v@ == probed_volume(*probe),
    {
        match &probe.response {
            Ok(buf) => match parse_extents(buf.as_slice()) {
                Some(list) => Some(
                    LogicalVolume { path: volume_device_path(probe.letter), extents: list.extents },
                ),
                None => None,
            },
            Err(_) => None,
        }
    }
}

/// Gathers the volumes that answered. Probes that failed are left out without
/// a trace.
pub fn collect_volumes(probes: &Vec<VolumeProbe>) -> (volumes: Vec<LogicalVolume>)
    ensures
        volume_views(volumes@) == volumes_of(probes@),
{
    let mut volumes: Vec<LogicalVolume> = Vec::new();
    let mut i: usize = 0;
    while i < probes.len()
        invariant
            i <= probes.len(),
            volume_views(volumes@) == volumes_of(probes@.take(i as int)),
        decreases probes.len() - i,
    {
        let ghost before = volume_views(volumes@);
        assert(probes@.take(i + 1).drop_last() =~= probes@.take(i as int));
        match LogicalVolume::from_probe(&probes[i]) {
            Some(volume) => {
                volumes.push(volume);
                assert(volume_views(volumes@) =~= before.push(probed_volume(probes[i as int])));
            },
            None => {},
        }
        i += 1;
    }
    assert(probes@.take(i as int) =~= probes@);
    volumes
}

/// The volumes that have any extent on the given physical disk. A volume with
/// several extents on that disk is listed once.
pub fn correlate(drive_index: u64, volumes: &Vec<LogicalVolume>) -> (paths: Vec<String>)
    ensures
        texts(paths@) == correlated(volume_views(volumes@), drive_index),
{
    let mut paths: Vec<String> = Vec::new();
    let mut i: usize = 0;
    while i < volumes.len()
        invariant
            i <= volumes.len(),
            texts(paths@) == correlated(volume_views(volumes@).take(i as int), drive_index),
        decreases volumes.len() - i,
    {
        let ghost before = texts(paths@);
        let ghost views = volume_views(volumes@);
        assert(views.take(i + 1).drop_last() =~= views.take(i as int));
        assert(views.take(i + 1).last() == volumes[i as int]@);
        if has_extent_on(&volumes[i].extents, drive_index) {
            paths.push(volumes[i].path.clone());
            assert(texts(paths@) =~= before.push(volumes[i as int].path@));
        }
        i += 1;
    }
    assert(volume_views(volumes@).take(i as int) =~= volume_views(volumes@));
    paths
}

/// Whether `path` is the path of a volume with an extent on the given disk.
pub open spec fn backed_path(volumes: Seq<VolumeView>, drive_index: u64, path: Seq<char>) -> bool {
    exists|i: int|
        0 <= i < volumes.len() && on_disk((#[trigger] volumes[i]).extents, drive_index)
            && volumes[i].path == path
}

/// A volume is reported for a disk exactly when one of its extents lies on
/// that disk: every such volume is listed, and every listed path belongs to
/// such a volume.
pub proof fn lemma_correlated_iff_on_disk(volumes: Seq<VolumeView>, drive_index: u64)
    ensures
        forall|i: int|
            0 <= i < volumes.len() && on_disk((#[trigger] volumes[i]).extents, drive_index)
                ==> correlated(volumes, drive_index).contains(volumes[i].path),
        forall|k: int|
            0 <= k < correlated(volumes, drive_index).len() ==> backed_path(
                volumes,
                drive_index,
                #[trigger] correlated(volumes, drive_index)[k],
            ),
        correlated(volumes, drive_index).len() <= volumes.len(),
    decreases volumes.len(),
{
    if volumes.len() > 0 {
        let front = volumes.drop_last();
        let last = volumes.last();
        lemma_correlated_iff_on_disk(front, drive_index);
        let all = correlated(volumes, drive_index);
        let before = correlated(front, drive_index);
        assert forall|i: int|
            0 <= i < volumes.len() && on_disk(
                (#[trigger] volumes[i]).extents,
                drive_index,
            ) implies all.contains(volumes[i].path) by {
            if i == volumes.len() - 1 {
                assert(all[all.len() - 1] == last.path);
            } else {
                assert(front[i] == volumes[i]);
                assert(before.contains(front[i].path));
                let k = choose|k: int| 0 <= k < before.len() && before[k] == front[i].path;
                assert(all[k] == volumes[i].path);
            }
        }
        assert forall|k: int| 0 <= k < all.len() implies backed_path(
            volumes,
            drive_index,
            #[trigger] all[k],
        ) by {
            if k < before.len() {
                assert(backed_path(front, drive_index, before[k]));
                let i = choose|i: int|
                    0 <= i < front.len() && on_disk((#[trigger] front[i]).extents, drive_index)
                        && front[i].path == before[k];
                assert(volumes[i] == front[i]);
            } else {
                assert(volumes[volumes.len() - 1] == last);
            }
        }
    }
}

/// The position among the volumes that entry `k` of `correlated` comes from.
pub open spec fn correlated_source(volumes: Seq<VolumeView>, drive_index: u64, k: int) -> int
    decreases volumes.len(),
{
    if volumes.len() == 0 {
        0
    } else if on_disk(volumes.last().extents, drive_index) && k == correlated(
        volumes.drop_last(),
        drive_index,
    ).len() {
        volumes.len() - 1
    } else {
        correlated_source(volumes.drop_last(), drive_index, k)
    }
}

/// The report keeps the order of the volumes and lists each backed volume
/// once: the entries come from strictly ascending positions, each of a volume
/// with an extent on the disk, and no such position is passed over.
pub proof fn lemma_correlated_once_in_order(volumes: Seq<VolumeView>, drive_index: u64)
    ensures
        forall|k: int|
            0 <= k < correlated(volumes, drive_index).len() ==> {
                let i = #[trigger] correlated_source(volumes, drive_index, k);
                &&& 0 <= i < volumes.len()
                &&& on_disk(volumes[i].extents, drive_index)
                &&& correlated(volumes, drive_index)[k] == volumes[i].path
            },
        forall|k: int, l: int|
            0 <= k < l < correlated(volumes, drive_index).len() ==> #[trigger] correlated_source(
                volumes,
                drive_index,
                k,
            ) < #[trigger] correlated_source(volumes, drive_index, l),
        forall|i: int|
            0 <= i < volumes.len() && on_disk((#[trigger] volumes[i]).extents, drive_index)
                ==> exists|k: int|
                0 <= k < correlated(volumes, drive_index).len() && #[trigger] correlated_source(
                    volumes,
                    drive_index,
                    k,
                ) == i,
    decreases volumes.len(),
{
    if volumes.len() > 0 {
        let front = volumes.drop_last();
        lemma_correlated_once_in_order(front, drive_index);
        let all = correlated(volumes, drive_index);
        let before = correlated(front, drive_index);
        assert forall|k: int| 0 <= k < all.len() implies {
            let i = #[trigger] correlated_source(volumes, drive_index, k);
            &&& 0 <= i < volumes.len()
            &&& on_disk(volumes[i].extents, drive_index)
            &&& all[k] == volumes[i].path
        } by {
            if k < before.len() {
                let i = correlated_source(front, drive_index, k);
                assert(0 <= i < front.len());
                assert(front[i] == volumes[i]);
            }
        }
        assert forall|k: int, l: int| 0 <= k < l < all.len() implies #[trigger] correlated_source(
            volumes,
            drive_index,
            k,
        ) < #[trigger] correlated_source(volumes, drive_index, l) by {
            let i = correlated_source(front, drive_index, k);
            assert(0 <= i < front.len());
            if l < before.len() {
                let j = correlated_source(front, drive_index, l);
                assert(i < j);
            }
        }
        assert forall|i: int|
            0 <= i < volumes.len() && on_disk(
                (#[trigger] volumes[i]).extents,
                drive_index,
            ) implies exists|k: int|
            0 <= k < all.len() && #[trigger] correlated_source(volumes, drive_index, k) == i by {
            if i == volumes.len() - 1 {
                assert(correlated_source(volumes, drive_index, before.len() as int) == i);
            } else {
                assert(front[i] == volumes[i]);
                let k = choose|k: int|
                    0 <= k < before.len() && #[trigger] correlated_source(front, drive_index, k)
                        == i;
                assert(correlated_source(volumes, drive_index, k) == i);
            }
        }
    }
}

} // verus!
