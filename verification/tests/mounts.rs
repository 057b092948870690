use disk_regions::{
    Disk, DiskExt, Disks, FileSystemType, LvmDevice, PartitionInfo, PartitionTable, PartitionType,
};

fn partition(number: i32, mount_point: Option<&str>, group: Option<&str>) -> PartitionInfo {
    PartitionInfo {
        number,
        start_sector: 0,
        end_sector: 99,
        part_type: PartitionType::Primary,
        filesystem: Some(FileSystemType::Ext4),
        bitflags: 0,
        mount_point: mount_point.map(String::from),
        target: None,
        volume_group: group.map(|g| (String::from(g), None)),
    }
}

fn disk(partitions: Vec<PartitionInfo>) -> Disk {
    let mut disk = Disk::new(
        String::from("/dev/sda"),
        String::from("Test Disk"),
        2_000_000,
        512,
        PartitionTable::Gpt,
    );
    disk.partitions = partitions;
    disk
}

fn group(name: &str, partitions: Vec<PartitionInfo>) -> LvmDevice {
    let mut device =
        LvmDevice::new(String::from(name), format!("/dev/mapper/{}", name), 1_000_000, 512);
    device.partitions = partitions;
    device
}

fn disks(logical: Vec<LvmDevice>) -> Disks {
    let mut all = Disks::new();
    for device in logical {
        all.add_logical(device);
    }
    all
}

#[test]
fn mount_of_a_partition_is_found() {
    let d = disk(vec![partition(1, Some("/boot"), None), partition(2, Some("/"), None)]);
    assert!(d.contains_mount("/", None));
    assert!(d.contains_mount("/boot", None));
    assert!(d.contains_mount("/", Some(&Disks::new())));
    assert!(!d.contains_mount("/home", None));
    assert!(!d.contains_mount("/boo", None));
    assert!(!d.contains_mount("", None));
}

#[test]
fn target_is_no_mount() {
    let mut part = partition(1, None, None);
    part.target = Some(String::from("/"));
    assert!(!disk(vec![part]).contains_mount("/", None));
}

#[test]
fn mount_of_the_whole_device_is_found() {
    let mut d = group("data", vec![]);
    d.mount_point = Some(String::from("/srv"));
    assert!(d.contains_mount("/srv", None));
    assert!(!d.contains_mount("/", None));
}

#[test]
fn partitions_are_searched_on_a_device_mounted_elsewhere() {
    let mut d = disk(vec![partition(1, Some("/"), None)]);
    d.mount_point = Some(String::from("/srv"));
    assert!(d.contains_mount("/srv", None));
    assert!(d.contains_mount("/", None));
}

#[test]
fn device_without_partitions_holds_no_mount() {
    assert!(!disk(vec![]).contains_mount("/", None));
    assert!(!disk(vec![]).contains_mount("/", Some(&disks(vec![group("data", vec![])]))));
}

#[test]
fn mount_is_found_through_a_volume_group() {
    let all = disks(vec![
        group("other", vec![partition(1, Some("/var"), None)]),
        group("data", vec![partition(1, Some("/"), None)]),
    ]);
    let d = disk(vec![partition(1, Some("/boot"), None), partition(2, None, Some("data"))]);
    assert!(d.contains_mount("/", Some(&all)));
    assert!(d.contains_mount("/boot", Some(&all)));
    assert!(!d.contains_mount("/var", Some(&all)));
    assert!(!d.contains_mount("/", None));
    assert!(!d.contains_mount("/", Some(&Disks::new())));
}

#[test]
fn mount_of_a_logical_device_is_found_through_its_group() {
    let mut data = group("data", vec![]);
    data.mount_point = Some(String::from("/"));
    let all = disks(vec![data]);
    let d = disk(vec![partition(1, None, Some("data"))]);
    assert!(d.contains_mount("/", Some(&all)));
}

#[test]
fn unknown_volume_group_leads_nowhere() {
    let all = disks(vec![group("data", vec![partition(1, Some("/"), None)])]);
    let d = disk(vec![partition(1, None, Some("missing"))]);
    assert!(!d.contains_mount("/", Some(&all)));
}

#[test]
fn first_logical_device_of_a_name_is_the_one_looked_up() {
    let all = disks(vec![
        group("data", vec![]),
        group("data", vec![partition(1, Some("/"), None)]),
    ]);
    let d = disk(vec![partition(1, None, Some("data"))]);
    assert!(!d.contains_mount("/", Some(&all)));
    let found = all.get_logical_device("data").unwrap();
    assert!(found.partitions.is_empty());
    assert!(all.get_logical_device("dat").is_none());
}

#[test]
fn chain_of_volume_groups_is_followed_to_its_end() {
    let all = disks(vec![
        group("c", vec![partition(1, Some("/deep"), None)]),
        group("a", vec![partition(1, None, Some("b"))]),
        group("b", vec![partition(1, None, Some("c"))]),
    ]);
    let d = disk(vec![partition(1, None, Some("a"))]);
    assert!(d.contains_mount("/deep", Some(&all)));
    assert!(!d.contains_mount("/", Some(&all)));
}

#[test]
fn volume_groups_in_a_circle_end_the_search() {
    let all = disks(vec![
        group("a", vec![partition(1, None, Some("b"))]),
        group("b", vec![partition(1, None, Some("a")), partition(2, Some("/in"), None)]),
        group("self", vec![partition(1, None, Some("self"))]),
    ]);
    let d = disk(vec![partition(1, None, Some("a")), partition(2, None, Some("self"))]);
    assert!(!d.contains_mount("/", Some(&all)));
    assert!(d.contains_mount("/in", Some(&all)));
    assert!(!all.logical[2].contains_mount("/", Some(&all)));
}

#[test]
fn collection_keeps_devices_in_the_order_added() {
    let mut all = Disks::new();
    assert!(all.physical.is_empty() && all.logical.is_empty());
    all.add(disk(vec![]));
    let mut second = disk(vec![]);
    second.device_path = String::from("/dev/sdb");
    all.add(second);
    all.add_logical(group("data", vec![]));
    assert_eq!(all.physical.len(), 2);
    assert_eq!(all.physical[1].get_device_path(), "/dev/sdb");
    assert_eq!(all.logical.len(), 1);
}
