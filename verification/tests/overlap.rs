use disk_regions::{
    Disk, DiskExt, FileSystemType, LvmEncryption, PartitionInfo, PartitionTable, PartitionType,
    REMOVE,
};

fn partition(number: i32, start: u64, end: u64) -> PartitionInfo {
    PartitionInfo {
        number,
        start_sector: start,
        end_sector: end,
        part_type: PartitionType::Primary,
        filesystem: Some(FileSystemType::Ext4),
        bitflags: 0,
        mount_point: None,
        target: None,
        volume_group: None,
    }
}

fn disk_with(partitions: Vec<PartitionInfo>) -> Disk {
    let mut disk = Disk::new(
        String::from("/dev/sda"),
        String::from("Test Disk"),
        2_000_000,
        512,
        PartitionTable::Gpt,
    );
    disk.partitions = partitions;
    disk
}

#[test]
fn empty_disk_has_no_overlap() {
    assert_eq!(disk_with(vec![]).overlaps_region(0, u64::MAX), None);
}

#[test]
fn range_before_and_behind_is_clear() {
    let disk = disk_with(vec![partition(1, 1000, 2000)]);
    assert_eq!(disk.overlaps_region(0, 999), None);
    assert_eq!(disk.overlaps_region(2001, 3000), None);
}

#[test]
fn touching_bounds_overlap() {
    let disk = disk_with(vec![partition(1, 1000, 2000)]);
    assert_eq!(disk.overlaps_region(0, 1000), Some(1));
    assert_eq!(disk.overlaps_region(2000, 3000), Some(1));
}

#[test]
fn containment_overlaps_either_way() {
    let disk = disk_with(vec![partition(1, 1000, 2000)]);
    assert_eq!(disk.overlaps_region(1200, 1300), Some(1));
    assert_eq!(disk.overlaps_region(500, 2500), Some(1));
    assert_eq!(disk.overlaps_region(1000, 2000), Some(1));
}

#[test]
fn first_in_list_order_is_reported() {
    let disk = disk_with(vec![partition(7, 5000, 6000), partition(3, 1000, 2000)]);
    assert_eq!(disk.overlaps_region(1500, 5500), Some(7));
    assert_eq!(disk.overlaps_region(1500, 1600), Some(3));
}

#[test]
fn removed_partition_is_skipped() {
    let mut gone = partition(1, 1000, 2000);
    gone.remove();
    assert!(gone.flag_is_enabled(REMOVE));
    let disk = disk_with(vec![gone.clone(), partition(2, 1500, 2500)]);
    assert_eq!(disk.overlaps_region(1000, 1400), None);
    assert_eq!(disk.overlaps_region(1000, 1500), Some(2));
    assert_eq!(disk_with(vec![gone]).overlaps_region(0, u64::MAX), None);
}

#[test]
fn remove_sets_only_the_flag() {
    let mut part = partition(1, 1000, 2000);
    part.bitflags = 5;
    part.mount_point = Some(String::from("/"));
    part.target = Some(String::from("/home"));
    part.volume_group = Some((
        String::from("data"),
        Some(LvmEncryption {
            physical_volume: String::from("cryptdata"),
            password: Some(String::from("secret")),
            keydata: None,
        }),
    ));
    let before = part.clone();
    part.remove();
    assert_eq!(part.bitflags, 7);
    part.bitflags = 5;
    assert_eq!(part, before);
}

#[test]
fn overlap_is_symmetric() {
    let ranges: [(u64, u64); 6] =
        [(0, 10), (5, 15), (10, 20), (11, 12), (0, 100), (50, 50)];
    for a in ranges {
        for b in ranges {
            let a_against_b = disk_with(vec![partition(1, b.0, b.1)]).overlaps_region(a.0, a.1);
            let b_against_a = disk_with(vec![partition(1, a.0, a.1)]).overlaps_region(b.0, b.1);
            assert_eq!(a_against_b, b_against_a);
            let share = a.0.max(b.0) <= a.1.min(b.1);
            assert_eq!(a_against_b.is_some(), share);
        }
    }
}

#[test]
fn used_sectors_leave_out_removed_partitions() {
    let mut gone = partition(2, 0, 999);
    gone.remove();
    let disk = disk_with(vec![partition(1, 1000, 1999), gone, partition(3, 5000, 5000)]);
    assert_eq!(disk.get_used(), 1001);
    assert_eq!(disk_with(vec![]).get_used(), 0);
}

#[test]
fn sectors_count_both_bounds() {
    assert_eq!(partition(1, 4096, 500_000).sectors(), 495_905);
    assert_eq!(partition(1, 7, 7).sectors(), 1);
    assert_eq!(partition(1, 1, u64::MAX).sectors(), u64::MAX);
}
