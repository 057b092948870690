use crate::partitions::{FileSystemType, LvmEncryption, PartitionInfo, PartitionType};
use vstd::prelude::*;

verus! {

/// The number that a partition carries until a table has given it a slot.
pub const UNNUMBERED: i32 = -1;

/// A partition that is asked for: where it is to lie and what it is to hold.
#[derive(Debug, Clone, PartialEq, Eq)]
pub struct PartitionBuilder {
    /// The first sector asked for.
    pub start_sector: u64,
    /// The last sector asked for.
    pub end_sector: u64,
    pub filesystem: Option<FileSystemType>,
    pub part_type: PartitionType,
    /// Where the partition is to be mounted.
    pub mount: Option<String>,
    pub volume_group: Option<(String, Option<LvmEncryption>)>,
}

impl PartitionBuilder {
    /// The candidate ends no earlier than it starts.
    pub open spec fn valid(self) -> bool {
        self.start_sector <= self.end_sector
    }

    /// The number of sectors that the candidate asks for, both bounds
    /// included: the size of the partition that `build` makes of it.
    pub open spec fn requested_sectors(self) -> int {
        self.end_sector - self.start_sector + 1
    }

    /// The partition that `build` makes of the candidate: unnumbered, without
    /// flags, not mounted, and otherwise as asked for.
    pub open spec fn built(self) -> PartitionInfo {
        PartitionInfo {
            number: UNNUMBERED,
            start_sector: self.start_sector,
            end_sector: self.end_sector,
            part_type: self.part_type,
            filesystem: self.filesystem,
            bitflags: 0,
            mount_point: None,
            target: self.mount,
            volume_group: self.volume_group,
        }
    }

    /// A primary partition on the sectors from `start` to `end`, to be
    /// formatted with `filesystem`.
    pub fn new(start: u64, end: u64, filesystem: FileSystemType) -> (r: PartitionBuilder)
        ensures
            r == (PartitionBuilder {
                start_sector: start,
                end_sector: end,
                filesystem: Some(filesystem),
                part_type: PartitionType::Primary,
                mount: None,
                volume_group: None,
            }),
    {
        PartitionBuilder {
            start_sector: start,
            end_sector: end,
            filesystem: Some(filesystem),
            part_type: PartitionType::Primary,
            mount: None,
            volume_group: None,
        }
    }

    /// Sets the place of the partition in a DOS table.
    pub fn partition_type(self, part_type: PartitionType) -> (r: PartitionBuilder)
        ensures
            r == (PartitionBuilder { part_type, ..self }),
    {
        let mut builder = self;
        builder.part_type = part_type;
        builder
    }

    /// Sets where the partition is to be mounted.
    pub fn mount(self, target: String) -> (r: PartitionBuilder)
        ensures
            r == (PartitionBuilder { mount: Some(target), ..self }),
    {
        let mut builder = self;
        builder.mount = Some(target);
        builder
    }

    /// Makes the partition a physical volume of the volume group `group`.
    pub fn logical_volume(self, group: String, encryption: Option<LvmEncryption>) -> (r:
        PartitionBuilder)
        ensures
            r == (PartitionBuilder { volume_group: Some((group, encryption)), ..self }),
    {
        let mut builder = self;
        builder.volume_group = Some((group, encryption));
        builder
    }

    /// Turns the candidate into a partition.
    pub fn build(self) -> (r: PartitionInfo)
        ensures
            r == self.built(),
    {
        PartitionInfo {
            number: UNNUMBERED,
            start_sector: self.start_sector,
            end_sector: self.end_sector,
            part_type: self.part_type,
            filesystem: self.filesystem,
            bitflags: 0,
            mount_point: None,
            target: self.mount,
            volume_group: self.volume_group,
        }
    }
}

} // verus!
