use disk_topology::capacity::{query_capacity, tenths_of_gib, CapacityInfo, SpaceCounts, GIB};
use disk_topology::request::DeviceError;

#[test]
fn capacity_of_a_500_gb_volume() {
    let response = Ok(SpaceCounts { total_bytes: 500_000_000_000, free_bytes: 100_000_000_000 });
    let info = query_capacity(&response).unwrap();
    assert_eq!(info.total_bytes(), 500_000_000_000);
    assert_eq!(info.free_bytes(), 100_000_000_000);
    assert_eq!(info.used_bytes(), 400_000_000_000);
    assert_eq!(tenths_of_gib(info.total_bytes()), 4657);
    assert_eq!(tenths_of_gib(info.free_bytes()), 931);
    assert_eq!(tenths_of_gib(info.used_bytes()), 3725);
    let gib = GIB as f64;
    assert!((info.total_bytes() as f64 / gib - 465.7).abs() < 0.05);
    assert!((info.free_bytes() as f64 / gib - 93.1).abs() < 0.05);
    assert!((info.used_bytes() as f64 / gib - 372.5).abs() < 0.05);
}

#[test]
fn used_is_total_less_free() {
    let cases: [(u64, u64); 5] =
        [(0, 0), (1, 0), (1, 1), (u64::MAX, 0), (u64::MAX, u64::MAX)];
    for (total, free) in cases {
        let info = CapacityInfo::new(total, free).unwrap();
        assert_eq!(info.used_bytes(), info.total_bytes() - info.free_bytes());
        assert!(info.free_bytes() <= info.total_bytes());
        assert_eq!(info.total_bytes(), total);
        assert_eq!(info.free_bytes(), free);
    }
}

#[test]
fn free_beyond_total_is_no_capacity() {
    assert!(CapacityInfo::new(10, 11).is_none());
    assert!(CapacityInfo::new(0, 1).is_none());
    assert!(query_capacity(&Ok(SpaceCounts { total_bytes: 5, free_bytes: 6 })).is_none());
}

#[test]
fn failed_free_space_query_is_no_capacity() {
    assert!(query_capacity(&Err(DeviceError::QueryFailure)).is_none());
    assert!(query_capacity(&Err(DeviceError::NotFound)).is_none());
}

#[test]
fn gigabytes_are_1024_based() {
    assert_eq!(GIB, 1024 * 1024 * 1024);
    assert_eq!(tenths_of_gib(0), 0);
    assert_eq!(tenths_of_gib(GIB), 10);
    assert_eq!(tenths_of_gib(1_000_000_000), 9);
    assert_eq!(tenths_of_gib(100 * GIB), 1000);
    assert_eq!(tenths_of_gib(107_374_182_400), 1000);
}

#[test]
fn tenths_round_to_nearest() {
    // A twentieth of a gigabyte is where the first tenth begins.
    assert_eq!(tenths_of_gib(GIB / 20), 0);
    assert_eq!(tenths_of_gib(GIB / 20 + 1), 1);
    assert_eq!(tenths_of_gib(GIB / 2), 5);
    assert_eq!(tenths_of_gib(u64::MAX), 171_798_691_840);
}
