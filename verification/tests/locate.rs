use disk_regions::text::same_text;
use disk_regions::{
    find_partition, find_partition_mut, Disk, FileSystemType, LvmDevice, PartitionInfo,
    PartitionTable, PartitionType,
};

fn partition(number: i32, mount_point: Option<&str>, target: Option<&str>) -> PartitionInfo {
    PartitionInfo {
        number,
        start_sector: 0,
        end_sector: 99,
        part_type: PartitionType::Primary,
        filesystem: Some(FileSystemType::Ext4),
        bitflags: 0,
        mount_point: mount_point.map(String::from),
        target: target.map(String::from),
        volume_group: None,
    }
}

fn disk(path: &str, partitions: Vec<PartitionInfo>) -> Disk {
    let mut disk = Disk::new(
        String::from(path),
        String::from("Test Disk"),
        2_000_000,
        512,
        PartitionTable::Gpt,
    );
    disk.partitions = partitions;
    disk
}

fn two_disks() -> Vec<Disk> {
    vec![
        disk("/dev/sda", vec![partition(1, Some("/old"), Some("/boot")), partition(2, None, None)]),
        disk(
            "/dev/sdb",
            vec![
                partition(1, Some("/"), Some("/home")),
                partition(2, None, Some("/")),
                partition(3, None, Some("/")),
            ],
        ),
    ]
}

#[test]
fn partition_is_found_by_its_target() {
    let disks = two_disks();
    let (path, part) = find_partition(&disks, "/boot").unwrap();
    assert_eq!(path, "/dev/sda");
    assert_eq!(part, &disks[0].partitions[0]);
    let (path, part) = find_partition(&disks, "/home").unwrap();
    assert_eq!(path, "/dev/sdb");
    assert_eq!(part.number, 1);
}

#[test]
fn first_partition_with_the_target_is_found() {
    let disks = two_disks();
    let (path, part) = find_partition(&disks, "/").unwrap();
    assert_eq!(path, "/dev/sdb");
    assert_eq!(part.number, 2);
    let mut both = two_disks();
    both[0].partitions[1].target = Some(String::from("/"));
    let (path, part) = find_partition(&both, "/").unwrap();
    assert_eq!(path, "/dev/sda");
    assert_eq!(part.number, 2);
}

#[test]
fn mount_point_is_not_taken_for_a_target() {
    let mut disks = two_disks();
    assert!(find_partition(&disks, "/old").is_none());
    assert!(find_partition_mut(&mut disks, "/old").is_none());
    assert_eq!(disks, two_disks());
}

#[test]
fn nothing_is_found_where_nothing_matches() {
    let mut disks = two_disks();
    assert!(find_partition(&disks, "/var").is_none());
    assert!(find_partition(&disks, "").is_none());
    assert!(find_partition_mut(&mut disks, "/var").is_none());
    let none: Vec<Disk> = Vec::new();
    assert!(find_partition(&none, "/").is_none());
    assert!(find_partition(&[disk("/dev/sda", vec![])], "/").is_none());
}

#[test]
fn found_partition_can_be_changed_in_place() {
    let mut disks = two_disks();
    {
        let (path, part) = find_partition_mut(&mut disks, "/").unwrap();
        assert_eq!(path, "/dev/sdb");
        assert_eq!(part.number, 2);
        part.filesystem = Some(FileSystemType::Btrfs);
        part.remove();
    }
    let mut expected = two_disks();
    expected[1].partitions[1].filesystem = Some(FileSystemType::Btrfs);
    expected[1].partitions[1].bitflags = 2;
    assert_eq!(disks, expected);
}

#[test]
fn logical_devices_are_searched_alike() {
    let mut device =
        LvmDevice::new(String::from("data"), String::from("/dev/mapper/data"), 1000, 512);
    device.partitions.push(partition(1, None, Some("/")));
    let mut devices = vec![device];
    let (path, part) = find_partition(&devices, "/").unwrap();
    assert_eq!(path, "/dev/mapper/data");
    assert_eq!(part.number, 1);
    let (path, part) = find_partition_mut(&mut devices, "/").unwrap();
    assert_eq!(path, "/dev/mapper/data");
    part.number = 5;
    assert_eq!(devices[0].partitions[0].number, 5);
}

#[test]
fn texts_are_the_same_character_by_character() {
    assert!(same_text("", ""));
    assert!(same_text("/home", "/home"));
    assert!(!same_text("/home", "/homes"));
    assert!(!same_text("/home", "/hume"));
    assert!(!same_text("/home", ""));
    assert!(same_text("/dév", "/dév"));
    assert!(!same_text("/dév", "/dev"));
}
