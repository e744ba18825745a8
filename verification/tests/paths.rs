use disk_topology::path::{
    encode_wide, physical_drive_path, volume_device_path, volume_letter, volume_root_path,
};
use disk_topology::request::DeviceQuery;
use disk_topology::text::push_decimal;

fn wide(text: &str) -> Vec<u16> {
    let mut units: Vec<u16> = text.encode_utf16().collect();
    units.push(0);
    units
}

#[test]
fn physical_drive_paths() {
    assert_eq!(physical_drive_path(0), "\\\\.\\PHYSICALDRIVE0");
    assert_eq!(physical_drive_path(1), "\\\\.\\PHYSICALDRIVE1");
    assert_eq!(physical_drive_path(12), "\\\\.\\PHYSICALDRIVE12");
    assert_eq!(physical_drive_path(u64::MAX), "\\\\.\\PHYSICALDRIVE18446744073709551615");
}

#[test]
fn volume_paths() {
    assert_eq!(volume_device_path('C'), "\\\\.\\C:");
    assert_eq!(volume_device_path('Z'), "\\\\.\\Z:");
    assert_eq!(volume_root_path('C'), "C:\\");
    assert_eq!(volume_root_path('A'), "A:\\");
}

#[test]
fn volume_letter_reads_a_device_path_back() {
    assert_eq!(volume_letter("\\\\.\\C:"), Some('C'));
    assert_eq!(volume_letter(&volume_device_path('Q')), Some('Q'));
    assert_eq!(volume_letter("\\\\.\\é:"), Some('é'));
    assert_eq!(volume_letter("C:\\"), None);
    assert_eq!(volume_letter("\\\\.\\C"), None);
    assert_eq!(volume_letter("\\\\.\\CD:"), None);
    assert_eq!(volume_letter("\\\\.\\C;"), None);
    assert_eq!(volume_letter("//./C:"), None);
    assert_eq!(volume_letter(""), None);
    assert_eq!(volume_letter("\\\\.\\PHYSICALDRIVE0"), None);
}

#[test]
fn wide_path_is_utf16_with_a_terminator() {
    let path = physical_drive_path(3);
    let units = encode_wide(&path).unwrap();
    assert_eq!(units, wide("\\\\.\\PHYSICALDRIVE3"));
    assert_eq!(units.len(), path.len() + 1);
    assert_eq!(units.last(), Some(&0));
    assert_eq!(units[0], 0x5C);
    assert_eq!(units[17], 0x33);
}

#[test]
fn wide_volume_paths() {
    assert_eq!(encode_wide(&volume_device_path('C')).unwrap(), wide("\\\\.\\C:"));
    assert_eq!(encode_wide(&volume_root_path('C')).unwrap(), wide("C:\\"));
}

#[test]
fn wide_empty_text_is_a_lone_terminator() {
    assert_eq!(encode_wide("").unwrap(), vec![0u16]);
}

#[test]
fn wide_text_above_the_basic_plane_uses_surrogates() {
    assert_eq!(encode_wide("a\u{1F4BE}").unwrap(), vec![0x61, 0xD83D, 0xDCBE, 0]);
    assert_eq!(encode_wide("\u{10000}").unwrap(), vec![0xD800, 0xDC00, 0]);
    assert_eq!(encode_wide("\u{10FFFF}").unwrap(), vec![0xDBFF, 0xDFFF, 0]);
    assert_eq!(encode_wide("\u{FFFF}").unwrap(), vec![0xFFFF, 0]);
}

#[test]
fn wide_text_with_an_inner_nul_is_refused() {
    assert_eq!(encode_wide("a\0b"), None);
    assert_eq!(encode_wide("\0a"), None);
    assert_eq!(encode_wide("\0\0"), None);
}

#[test]
fn wide_text_that_ends_in_nul_is_taken_as_it_is() {
    assert_eq!(encode_wide("ab\0").unwrap(), vec![0x61, 0x62, 0]);
    assert_eq!(encode_wide("\0").unwrap(), vec![0]);
}

#[test]
fn decimal_notation() {
    let cases: [(u64, &str); 8] = [
        (0, "0"),
        (7, "7"),
        (9, "9"),
        (10, "10"),
        (99, "99"),
        (100, "100"),
        (1_000_204_886_016, "1000204886016"),
        (u64::MAX, "18446744073709551615"),
    ];
    for (number, text) in cases {
        let mut out = String::from("#");
        push_decimal(&mut out, number);
        assert_eq!(out, format!("#{}", text));
    }
}

#[test]
fn control_codes() {
    assert_eq!(DeviceQuery::Identity.control_code(), 0x002D_1400);
    assert_eq!(DeviceQuery::Geometry.control_code(), 0x0007_00A0);
    assert_eq!(DeviceQuery::Layout.control_code(), 0x0007_0050);
    assert_eq!(DeviceQuery::Extents.control_code(), 0x0056_0000);
}

#[test]
fn response_capacities() {
    assert_eq!(DeviceQuery::Identity.response_capacity(), 1024);
    assert_eq!(DeviceQuery::Geometry.response_capacity(), 40);
    assert_eq!(DeviceQuery::Layout.response_capacity(), 48 + 128 * 144);
    assert_eq!(DeviceQuery::Extents.response_capacity(), 8 + 26 * 24);
}

#[test]
fn request_bytes() {
    assert_eq!(DeviceQuery::Identity.request_bytes(), vec![0u8; 12]);
    assert!(DeviceQuery::Geometry.request_bytes().is_empty());
    assert!(DeviceQuery::Layout.request_bytes().is_empty());
    assert!(DeviceQuery::Extents.request_bytes().is_empty());
}
