use desk_monitoring::metrics::frame_tick;
use desk_monitoring::metrics::{
    disk_usage, enough_ics_files, is_ics_file_name, remote_tick, skip_file_system, traffic_totals,
    DiskInfo, DiskUsage,
};

#[test]
fn remote_ticks() {
    assert_eq!(remote_tick(0), (true, 1));
    assert_eq!(remote_tick(1), (false, 2));
    assert_eq!(remote_tick(15), (true, 16));
    assert_eq!(remote_tick(u64::MAX), (u64::MAX % 15 == 0, u64::MAX));
}

fn disk(fs: &str, total: u64, available: u64) -> DiskInfo {
    DiskInfo { file_system: fs.to_string(), total, available }
}

#[test]
fn disk_usage_skips_virtual_file_systems() {
    assert!(skip_file_system("tmpfs"));
    assert!(skip_file_system("DEVFS"));
    assert!(skip_file_system("squashfs"));
    assert!(!skip_file_system("ext4"));
    let u = disk_usage(&vec![disk("ext4", 100, 40), disk("TmpFS", 1000, 1000), disk("apfs", 50, 10)]);
    assert_eq!(u, DiskUsage { used: 100, free: 50, total: 150 });
}

#[test]
fn disk_usage_edge_cases() {
    assert_eq!(disk_usage(&vec![]), DiskUsage { used: 1, free: 0, total: 1 });
    let u = disk_usage(&vec![disk("ext4", u64::MAX, 5), disk("xfs", 10, 5)]);
    assert_eq!(u, DiskUsage { used: u64::MAX - 10, free: 10, total: u64::MAX });
    let odd = disk_usage(&vec![disk("ext4", 10, 20)]);
    assert_eq!(odd, DiskUsage { used: 0, free: 20, total: 10 });
}

#[test]
fn traffic_sums_saturate() {
    assert_eq!(traffic_totals(&vec![(1, 2), (3, 4)]), (4, 6));
    assert_eq!(traffic_totals(&vec![(u64::MAX, 1), (1, 1)]), (u64::MAX, 2));
    assert_eq!(traffic_totals(&vec![]), (0, 0));
}

#[test]
fn ics_file_names() {
    assert!(is_ics_file_name("work.ics"));
    assert!(is_ics_file_name("a.b.ics"));
    assert!(is_ics_file_name("..ics"));
    assert!(!is_ics_file_name(".ics"));
    assert!(!is_ics_file_name("work.ICS"));
    assert!(!is_ics_file_name("work.ics.bak"));
    assert!(!is_ics_file_name("ics"));
    for name in ["work.ics", "a.b.ics", "..ics", ".ics", "x.ics.y", "ics", "", "a.icss"] {
        let by_path = std::path::Path::new(name).extension().and_then(|e| e.to_str()) == Some("ics");
        assert_eq!(is_ics_file_name(name), by_path, "name = {name:?}");
    }
    assert!(!enough_ics_files(80));
    assert!(enough_ics_files(81));
}

#[test]
fn frame_ticks() {

    assert_eq!(frame_tick(0), (1, false));
    assert_eq!(frame_tick(29), (30, true));
    assert_eq!(frame_tick(59), (60, true));
    assert_eq!(frame_tick(u32::MAX), (0, true));
}
