use disk_regions::{Disk, DiskExt, LvmDevice, PartitionTable, Sector};

fn disk(sectors: u64, sector_size: u64) -> Disk {
    Disk::new(
        String::from("/dev/sda"),
        String::from("Test Disk"),
        sectors,
        sector_size,
        PartitionTable::Gpt,
    )
}

#[test]
fn start_leaves_two_mebibytes_free() {
    assert_eq!(disk(2_000_000, 512).get_sector(Sector::Start), 4096);
    assert_eq!(disk(2_000_000, 4096).get_sector(Sector::Start), 512);
}

#[test]
fn end_leaves_two_mebibytes_free() {
    assert_eq!(disk(2_000_000, 512).get_sector(Sector::End), 1_995_904);
    assert_eq!(disk(2_000_000, 4096).get_sector(Sector::End), 1_999_488);
}

#[test]
fn megabyte_is_decimal_and_rounds_down() {
    let d = disk(2_000_000, 512);
    assert_eq!(d.get_sector(Sector::Megabyte(100)), 195_312);
    assert_eq!(d.get_sector(Sector::Megabyte(0)), 0);
    assert_eq!(d.get_sector(Sector::Megabyte(1)), 1953);
}

#[test]
fn megabyte_from_end_counts_back_from_end() {
    let d = disk(2_000_000, 512);
    assert_eq!(d.get_sector(Sector::MegabyteFromEnd(100)), 1_995_904 - 195_312);
    assert_eq!(d.get_sector(Sector::MegabyteFromEnd(0)), 1_995_904);
}

#[test]
fn unit_is_the_sector_itself() {
    let d = disk(2_000_000, 512);
    assert_eq!(d.get_sector(Sector::Unit(0)), 0);
    assert_eq!(d.get_sector(Sector::Unit(123_456)), 123_456);
    assert_eq!(d.get_sector(Sector::Unit(u64::MAX)), u64::MAX);
}

#[test]
fn unit_from_end_counts_back_from_end() {
    let d = disk(2_000_000, 512);
    assert_eq!(d.get_sector(Sector::UnitFromEnd(1000)), 1_994_904);
    assert_eq!(d.get_sector(Sector::UnitFromEnd(1_995_904)), 0);
}

#[test]
fn percent_is_a_share_of_65535() {
    let d = disk(2_000_000, 512);
    assert_eq!(d.get_sector(Sector::Percent(0)), 0);
    assert_eq!(d.get_sector(Sector::Percent(32768)), 1_000_000);
    assert_eq!(d.get_sector(Sector::Percent(u16::MAX)), 1_999_969);
    assert_eq!(d.get_sector(Sector::Percent(1)), 30);
}

#[test]
fn percent_of_the_largest_device_does_not_overflow() {
    let d = disk(u64::MAX, u64::MAX);
    // 65535 divides u64::MAX, so the whole of this device is all of its sectors.
    assert_eq!(d.get_sector(Sector::Percent(u16::MAX)), u64::MAX);
    assert_eq!(d.get_sector(Sector::Percent(1)), u64::MAX / 65535);
    assert_eq!(d.get_sector(Sector::Percent(0)), 0);
}

#[test]
fn megabyte_of_a_large_count_does_not_overflow() {
    let d = disk(2_000_000, 1_000_000);
    assert_eq!(d.get_sector(Sector::Megabyte(u64::MAX)), u64::MAX);
}

#[test]
fn resolve_reads_only_the_geometry() {
    let a = disk(2_000_000, 512);
    let b = LvmDevice::new(String::from("data"), String::from("/dev/mapper/data"), 2_000_000, 512);
    for sector in [
        Sector::Start,
        Sector::End,
        Sector::Megabyte(7),
        Sector::MegabyteFromEnd(7),
        Sector::Unit(7),
        Sector::UnitFromEnd(7),
        Sector::Percent(7),
    ] {
        assert_eq!(a.get_sector(sector), b.get_sector(sector));
        assert_eq!(a.get_sector(sector), sector.resolve(2_000_000, 512));
        assert_eq!(a.get_sector(sector), a.get_sector(sector));
    }
    assert_eq!(a, disk(2_000_000, 512));
}

#[test]
fn start_lies_before_end_above_four_mebibytes() {
    // 8193 sectors of 512 bytes are one sector more than four mebibytes.
    let d = disk(8193, 512);
    assert_eq!(d.get_sector(Sector::Start), 4096);
    assert_eq!(d.get_sector(Sector::End), 4097);
    // At exactly four mebibytes the two meet.
    let d = disk(8192, 512);
    assert_eq!(d.get_sector(Sector::Start), d.get_sector(Sector::End));
}

#[test]
fn from_end_positions_decrease() {
    let d = disk(2_000_000, 512);
    let mut last_unit = d.get_sector(Sector::UnitFromEnd(0));
    let mut last_megabyte = d.get_sector(Sector::MegabyteFromEnd(0));
    for n in 1..50 {
        let unit = d.get_sector(Sector::UnitFromEnd(n));
        let megabyte = d.get_sector(Sector::MegabyteFromEnd(n));
        assert!(unit < last_unit);
        assert!(megabyte < last_megabyte);
        last_unit = unit;
        last_megabyte = megabyte;
    }
}

#[test]
fn megabytes_from_end_can_tie_on_huge_sectors() {
    let d = disk(2_000_000, 2_000_000);
    assert_eq!(
        d.get_sector(Sector::MegabyteFromEnd(0)),
        d.get_sector(Sector::MegabyteFromEnd(1))
    );
}
