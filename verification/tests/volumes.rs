use disk_topology::request::{
    DeviceError, DeviceQuery, EXTENTS_HEADER_LEN, EXTENT_ENTRY_LEN, MAX_EXTENTS,
};
use disk_topology::volume::{
    collect_volumes, correlate, has_extent_on, list_logical_drives, mounted_letters,
    parse_extents, DiskExtent, LogicalVolume, VolumeProbe,
};

/// An extents response with one entry for each `(disk, offset, length)`, the
/// count field set to `reported`.
fn extents_with_count(entries: &[(u32, i64, u64)], reported: u32) -> Vec<u8> {
    let mut buf = vec![0u8; EXTENTS_HEADER_LEN + entries.len() * EXTENT_ENTRY_LEN];
    buf[0..4].copy_from_slice(&reported.to_le_bytes());
    for (i, (disk, offset, length)) in entries.iter().enumerate() {
        let base = EXTENTS_HEADER_LEN + i * EXTENT_ENTRY_LEN;
        buf[base..base + 4].copy_from_slice(&disk.to_le_bytes());
        buf[base + 8..base + 16].copy_from_slice(&offset.to_le_bytes());
        buf[base + 16..base + 24].copy_from_slice(&length.to_le_bytes());
    }
    buf
}

fn extents(entries: &[(u32, i64, u64)]) -> Vec<u8> {
    extents_with_count(entries, entries.len() as u32)
}

fn answered(letter: char, entries: &[(u32, i64, u64)]) -> VolumeProbe {
    VolumeProbe { letter, response: Ok(extents(entries)) }
}

fn failed(letter: char, error: DeviceError) -> VolumeProbe {
    VolumeProbe { letter, response: Err(error) }
}

#[test]
fn volume_on_disk_zero_is_correlated_with_disk_zero_only() {
    let probes = vec![answered('C', &[(0, 1_048_576, 499_000_000_000)])];
    let volumes = collect_volumes(&probes);
    assert_eq!(correlate(0, &volumes), vec!["\\\\.\\C:".to_string()]);
    assert!(correlate(1, &volumes).is_empty());
}

#[test]
fn every_extent_is_checked_not_just_the_first() {
    let probes = vec![answered('D', &[(1, 0, 100), (2, 0, 100), (5, 0, 100)])];
    let volumes = collect_volumes(&probes);
    assert_eq!(correlate(1, &volumes), vec!["\\\\.\\D:".to_string()]);
    assert_eq!(correlate(2, &volumes), vec!["\\\\.\\D:".to_string()]);
    assert_eq!(correlate(5, &volumes), vec!["\\\\.\\D:".to_string()]);
    assert!(correlate(0, &volumes).is_empty());
    assert!(correlate(3, &volumes).is_empty());
}

#[test]
fn volume_with_several_extents_on_one_disk_appears_once() {
    let probes = vec![answered('E', &[(3, 0, 100), (3, 4096, 100), (3, 8192, 100)])];
    let volumes = collect_volumes(&probes);
    assert_eq!(correlate(3, &volumes), vec!["\\\\.\\E:".to_string()]);
}

#[test]
fn one_disk_hosts_several_volumes_in_probe_order() {
    let probes = vec![
        answered('C', &[(0, 0, 100)]),
        answered('D', &[(1, 0, 100)]),
        answered('E', &[(0, 500, 100)]),
        answered('F', &[(1, 500, 100), (0, 900, 100)]),
    ];
    let volumes = collect_volumes(&probes);
    assert_eq!(
        correlate(0, &volumes),
        vec!["\\\\.\\C:".to_string(), "\\\\.\\E:".to_string(), "\\\\.\\F:".to_string()]
    );
    assert_eq!(correlate(1, &volumes), vec!["\\\\.\\D:".to_string(), "\\\\.\\F:".to_string()]);
}

#[test]
fn failed_probes_are_silently_excluded() {
    let probes = vec![
        failed('A', DeviceError::NotFound),
        answered('C', &[(0, 0, 100)]),
        failed('D', DeviceError::QueryFailure),
        VolumeProbe { letter: 'E', response: Ok(vec![0u8; EXTENTS_HEADER_LEN - 1]) },
    ];
    let volumes = collect_volumes(&probes);
    assert_eq!(volumes.len(), 1);
    assert_eq!(volumes[0].path, "\\\\.\\C:");
    assert_eq!(correlate(0, &volumes), vec!["\\\\.\\C:".to_string()]);
}

#[test]
fn volume_without_extents_is_on_no_disk() {
    let probes = vec![answered('G', &[])];
    let volumes = collect_volumes(&probes);
    assert_eq!(volumes.len(), 1);
    assert!(volumes[0].extents.is_empty());
    assert!(correlate(0, &volumes).is_empty());
}

#[test]
fn no_volumes_no_correlation() {
    let volumes: Vec<LogicalVolume> = Vec::new();
    assert!(correlate(0, &volumes).is_empty());
    assert!(collect_volumes(&Vec::new()).is_empty());
}

#[test]
fn volume_from_probe_carries_path_and_extents() {
    let probe = answered('Z', &[(4, -1, 2), (9, i64::MIN, u64::MAX)]);
    let volume = LogicalVolume::from_probe(&probe).unwrap();
    assert_eq!(volume.path, "\\\\.\\Z:");
    assert_eq!(
        volume.extents,
        vec![
            DiskExtent { disk_index: 4, starting_offset: -1, length_bytes: 2 },
            DiskExtent { disk_index: 9, starting_offset: i64::MIN, length_bytes: u64::MAX },
        ]
    );
    assert!(LogicalVolume::from_probe(&failed('Z', DeviceError::NotFound)).is_none());
}

#[test]
fn extent_fields_are_read_from_their_places() {
    let buf = extents(&[(7, 0x0102_0304_0506_0708, 0x1112_1314_1516_1718), (u32::MAX, i64::MAX, 0)]);
    let list = parse_extents(&buf).unwrap();
    assert!(!list.truncated);
    assert_eq!(
        list.extents,
        vec![
            DiskExtent {
                disk_index: 7,
                starting_offset: 0x0102_0304_0506_0708,
                length_bytes: 0x1112_1314_1516_1718,
            },
            DiskExtent { disk_index: u32::MAX as u64, starting_offset: i64::MAX, length_bytes: 0 },
        ]
    );
}

#[test]
fn more_extents_than_the_cap_are_truncated() {
    let entries: Vec<(u32, i64, u64)> = (0..30u32).map(|i| (i, 0, 1)).collect();
    let list = parse_extents(&extents(&entries)).unwrap();
    assert_eq!(list.extents.len(), MAX_EXTENTS);
    assert!(list.truncated);
    assert_eq!(list.extents[25].disk_index, 25);
    assert!(!has_extent_on(&list.extents, 26));
}

#[test]
fn exactly_the_cap_of_extents_fills_the_buffer() {
    let entries: Vec<(u32, i64, u64)> = (0..26u32).map(|i| (i, 0, 1)).collect();
    let buf = extents(&entries);
    assert_eq!(buf.len(), DeviceQuery::Extents.response_capacity());
    let list = parse_extents(&buf).unwrap();
    assert_eq!(list.extents.len(), 26);
    assert!(!list.truncated);
}

#[test]
fn extent_count_beyond_the_buffer_reads_what_is_there() {
    let buf = extents_with_count(&[(1, 0, 1)], 4);
    let list = parse_extents(&buf).unwrap();
    assert_eq!(list.extents.len(), 1);
    assert!(list.truncated);
    let only_header = extents_with_count(&[], 1);
    let list = parse_extents(&only_header).unwrap();
    assert!(list.extents.is_empty());
    assert!(list.truncated);
}

#[test]
fn short_extents_response_holds_nothing() {
    assert!(parse_extents(&[]).is_none());
    assert!(parse_extents(&[1, 0, 0, 0, 0, 0, 0]).is_none());
    assert!(parse_extents(&[0, 0, 0, 0, 0, 0, 0, 0]).is_some());
}

#[test]
fn has_extent_on_finds_any_match() {
    let list = vec![
        DiskExtent { disk_index: 2, starting_offset: 0, length_bytes: 1 },
        DiskExtent { disk_index: 4, starting_offset: 0, length_bytes: 1 },
    ];
    assert!(has_extent_on(&list, 2));
    assert!(has_extent_on(&list, 4));
    assert!(!has_extent_on(&list, 3));
    assert!(!has_extent_on(&Vec::new(), 0));
}

#[test]
fn mounted_letters_follow_the_bitmask() {
    assert_eq!(mounted_letters(0), Vec::<char>::new());
    assert_eq!(mounted_letters(0b1), vec!['A']);
    assert_eq!(mounted_letters(0b100), vec!['C']);
    assert_eq!(mounted_letters(0b1100), vec!['C', 'D']);
    assert_eq!(mounted_letters(1 << 25), vec!['Z']);
    assert_eq!(mounted_letters(0b1_0000_0000_0000_0000_0000_1101), vec!['A', 'C', 'D', 'Y']);
}

#[test]
fn bits_past_z_stand_for_nothing() {
    assert_eq!(mounted_letters(1 << 26), Vec::<char>::new());
    assert_eq!(mounted_letters(0xFC00_0000), Vec::<char>::new());
    let all = mounted_letters(u32::MAX);
    assert_eq!(all.len(), 26);
    assert_eq!(all.first(), Some(&'A'));
    assert_eq!(all.last(), Some(&'Z'));
}

#[test]
fn mounted_letters_are_in_alphabetical_order() {
    let letters = mounted_letters(0x0155_AA55);
    for pair in letters.windows(2) {
        assert!(pair[0] < pair[1]);
    }
    for (position, letter) in ('A'..='Z').enumerate() {
        assert_eq!(letters.contains(&letter), (0x0155_AA55u32 >> position) & 1 == 1);
    }
}

#[test]
fn logical_drives_are_listed_as_root_paths() {
    assert_eq!(
        list_logical_drives(0b1100),
        vec!["C:\\".to_string(), "D:\\".to_string()]
    );
    assert!(list_logical_drives(0).is_empty());
    assert_eq!(list_logical_drives(u32::MAX).len(), 26);
    assert_eq!(list_logical_drives(1 << 25), vec!["Z:\\".to_string()]);
}
