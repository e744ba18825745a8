use disk_topology::bus::BusType;
use disk_topology::identity::{join_model, parse_descriptor, query_identity, DESCRIPTOR_FIXED_LEN};
use disk_topology::request::{DeviceError, DeviceQuery};
use disk_topology::text::text_field_bytes;

fn put_u32(buf: &mut Vec<u8>, at: usize, value: u32) {
    buf[at..at + 4].copy_from_slice(&value.to_le_bytes());
}

fn put_text(buf: &mut Vec<u8>, at: usize, text: &[u8]) {
    buf[at..at + text.len()].copy_from_slice(text);
}

fn descriptor(vendor: Option<&[u8]>, product: Option<&[u8]>, bus_code: u8) -> Vec<u8> {
    let mut buf = vec![0u8; DeviceQuery::Identity.response_capacity()];
    put_u32(&mut buf, 0, 1);
    put_u32(&mut buf, 4, 200);
    buf[28] = bus_code;
    if let Some(text) = vendor {
        put_u32(&mut buf, 12, 40);
        put_text(&mut buf, 40, text);
    }
    if let Some(text) = product {
        put_u32(&mut buf, 16, 100);
        put_text(&mut buf, 100, text);
    }
    buf
}

#[test]
fn model_joins_vendor_and_product_with_a_space() {
    let buf = descriptor(Some(b"Samsung"), Some(b"SSD 970 EVO"), 0x11);
    let identity = parse_descriptor(&buf).unwrap();
    assert_eq!(identity.model, "Samsung SSD 970 EVO");
    assert_eq!(identity.bus_type, BusType::Nvme);
}

#[test]
fn absent_vendor_leaves_the_separating_space() {
    let buf = descriptor(None, Some(b"Virtual Disk"), 0x0E);
    let identity = parse_descriptor(&buf).unwrap();
    assert_eq!(identity.model, " Virtual Disk");
    assert_eq!(identity.bus_type, BusType::Virtual);
}

#[test]
fn absent_product_leaves_the_separating_space() {
    let buf = descriptor(Some(b"WDC"), None, 0x0B);
    let identity = parse_descriptor(&buf).unwrap();
    assert_eq!(identity.model, "WDC ");
}

#[test]
fn both_strings_absent_give_a_single_space() {
    let buf = descriptor(None, None, 0x07);
    let identity = parse_descriptor(&buf).unwrap();
    assert_eq!(identity.model, " ");
    assert_eq!(identity.bus_type, BusType::Usb);
}

#[test]
fn offset_zero_is_never_followed() {
    // The start of the buffer holds readable bytes; an offset of zero must not
    // pick them up.
    let mut buf = descriptor(None, None, 0x01);
    put_text(&mut buf, 0, b"AB");
    let identity = parse_descriptor(&buf).unwrap();
    assert_eq!(identity.model, " ");
}

#[test]
fn offset_past_the_end_reads_nothing() {
    let mut buf = descriptor(None, Some(b"Disk"), 0x03);
    put_u32(&mut buf, 12, 5000);
    let identity = parse_descriptor(&buf).unwrap();
    assert_eq!(identity.model, " Disk");
    assert_eq!(identity.bus_type, BusType::Ata);
}

#[test]
fn unterminated_string_ends_with_the_buffer() {
    let mut buf = vec![0u8; 44];
    put_u32(&mut buf, 12, 40);
    put_text(&mut buf, 40, b"ABCD");
    buf[28] = 0x0A;
    let identity = parse_descriptor(&buf).unwrap();
    assert_eq!(identity.model, "ABCD ");
    assert_eq!(identity.bus_type, BusType::Sas);
}

#[test]
fn invalid_utf8_is_replaced_not_rejected() {
    let buf = descriptor(Some(&[0xFF, b'A']), Some(b"B"), 0x08);
    let identity = parse_descriptor(&buf).unwrap();
    assert_eq!(identity.model, "\u{FFFD}A B");
}

#[test]
fn valid_utf8_is_decoded() {
    let buf = descriptor(Some("Gerät".as_bytes()), Some(b"X"), 0x08);
    let identity = parse_descriptor(&buf).unwrap();
    assert_eq!(identity.model, "Gerät X");
}

#[test]
fn short_response_has_no_identity() {
    let buf = vec![0u8; DESCRIPTOR_FIXED_LEN - 1];
    assert!(parse_descriptor(&buf).is_none());
    assert!(parse_descriptor(&[]).is_none());
    let exact = vec![0u8; DESCRIPTOR_FIXED_LEN];
    assert!(parse_descriptor(&exact).is_some());
}

#[test]
fn failed_exchange_has_no_identity() {
    assert!(query_identity(&Err(DeviceError::NotFound)).is_none());
    assert!(query_identity(&Err(DeviceError::QueryFailure)).is_none());
    assert!(query_identity(&Ok(vec![0u8; 10])).is_none());
}

#[test]
fn answered_exchange_has_an_identity() {
    let buf = descriptor(Some(b"Kingston"), Some(b"DataTraveler"), 0x07);
    let identity = query_identity(&Ok(buf)).unwrap();
    assert_eq!(identity.model, "Kingston DataTraveler");
    assert_eq!(identity.bus_type, BusType::Usb);
}

#[test]
fn join_model_keeps_empty_parts() {
    assert_eq!(join_model("a", "b"), "a b");
    assert_eq!(join_model("", "b"), " b");
    assert_eq!(join_model("a", ""), "a ");
    assert_eq!(join_model("", ""), " ");
}

#[test]
fn text_field_stops_at_the_first_nul() {
    let buf = b"\0\0ab\0cd\0".to_vec();
    assert_eq!(text_field_bytes(&buf, 2), b"ab");
    assert_eq!(text_field_bytes(&buf, 3), b"b");
    assert_eq!(text_field_bytes(&buf, 4), b"");
    assert_eq!(text_field_bytes(&buf, 5), b"cd");
    assert_eq!(text_field_bytes(&buf, 0), b"");
    assert_eq!(text_field_bytes(&buf, 8), b"");
    assert_eq!(text_field_bytes(&buf, 900), b"");
}

#[test]
fn every_defined_bus_code_has_its_type() {
    let table = [
        (0x01u8, BusType::Scsi, "SCSI"),
        (0x02, BusType::Atapi, "ATAPI"),
        (0x03, BusType::Ata, "ATA"),
        (0x04, BusType::Ieee1394, "1394"),
        (0x05, BusType::Ssa, "SSA"),
        (0x06, BusType::FibreChannel, "Fibre"),
        (0x07, BusType::Usb, "USB"),
        (0x08, BusType::Raid, "RAID"),
        (0x09, BusType::Iscsi, "iSCSI"),
        (0x0A, BusType::Sas, "SAS"),
        (0x0B, BusType::Sata, "SATA"),
        (0x0C, BusType::Sd, "SD"),
        (0x0D, BusType::Mmc, "MMC"),
        (0x0E, BusType::Virtual, "VIRTUAL"),
        (0x0F, BusType::FileBackedVirtual, "FileBackedVirtual"),
        (0x10, BusType::StorageSpaces, "Spaces"),
        (0x11, BusType::Nvme, "NVMe"),
        (0x12, BusType::Scm, "SCM"),
        (0x7F, BusType::MaxReserved, "BusTypeMaxReserved"),
    ];
    for (code, bus, name) in table {
        assert_eq!(BusType::from_code(code), bus);
        assert_eq!(bus.name(), name);
    }
}

#[test]
fn undefined_bus_codes_are_unknown() {
    for code in 0u8..=255 {
        let defined = (0x01..=0x12).contains(&code) || code == 0x7F;
        assert_eq!(BusType::from_code(code) == BusType::Unknown, !defined);
    }
    assert_eq!(BusType::Unknown.name(), "UNKNOWN");
}
