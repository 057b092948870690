use crate::device::{DeviceView, DiskExt};
use crate::error::DiskError;
use crate::partitions::{PartitionInfo, PartitionTable, PartitionType};
use crate::text::path_view;
use vstd::prelude::*;

verus! {

/// A physical disk with its partition table.
#[derive(Debug, Clone, PartialEq, Eq)]
pub struct Disk {
    pub model_name: String,
    pub device_path: String,
    pub mount_point: Option<String>,
    /// The number of sectors of the disk.
    pub size: u64,
    /// The size of a sector in bytes.
    pub sector_size: u64,
    pub table_type: PartitionTable,
    pub partitions: Vec<PartitionInfo>,
}

impl View for Disk {
    type V = DeviceView;

    open spec fn view(&self) -> DeviceView {
        DeviceView {
            device_path: self.device_path@,
            model: self.model_name@,
            mount_point: path_view(self.mount_point),
            partitions: self.partitions@,
            sectors: self.size,
            sector_size: self.sector_size,
            table_type: Some(self.table_type),
            logical: false,
            volume_group: None,
        }
    }
}

/// The number of partitions among the first `n` of `parts` that take a
/// primary slot of a DOS table.
pub open spec fn primary_count(parts: Seq<PartitionInfo>, n: int) -> int
    decreases n,
{
    if n <= 0 {
        0
    } else {
        primary_count(parts, n - 1) + if parts[n - 1].part_type is Primary {
            1int
        } else {
            0int
        }
    }
}

/// The number of logical partitions among the first `n` of `parts`.
pub open spec fn logical_count(parts: Seq<PartitionInfo>, n: int) -> int
    decreases n,
{
    if n <= 0 {
        0
    } else {
        logical_count(parts, n - 1) + if parts[n - 1].part_type is Logical {
            1int
        } else {
            0int
        }
    }
}

/// The rule of the partition table. A GPT takes any partition. A DOS table
/// has four primary slots, one of which the logical partitions share: a new
/// primary partition needs a free slot beside theirs, any other a table
/// whose slots are not all taken by primary partitions. Partitions flagged
/// `REMOVE` keep their slots until they are gone from the list.
pub open spec fn table_rule(
    table: PartitionTable,
    parts: Seq<PartitionInfo>,
    part_type: PartitionType,
) -> Result<(), DiskError> {
    let primary = primary_count(parts, parts.len() as int);
    let logical = logical_count(parts, parts.len() as int);
    match table {
        PartitionTable::Gpt => Ok(()),
        PartitionTable::Msdos => if primary == 4 || (part_type is Primary && primary == 3
            && logical != 0) {
            Err(DiskError::PrimaryPartitionsExceeded)
        } else {
            Ok(())
        },
    }
}

impl Disk {
    /// A disk without partitions.
    pub fn new(
        device_path: String,
        model_name: String,
        size: u64,
        sector_size: u64,
        table_type: PartitionTable,
    ) -> (r: Disk)
        ensures
            r@ == (DeviceView {
                device_path: device_path@,
                model: model_name@,
                mount_point: None,
                partitions: Seq::empty(),
                sectors: size,
                sector_size,
                table_type: Some(table_type),
                logical: false,
                volume_group: None,
            }),
    {
        Disk {
            model_name,
            device_path,
            mount_point: None,
            size,
            sector_size,
            table_type,
            partitions: Vec::new(),
        }
    }

    /// Counts the primary and the logical partitions of the disk.
    pub fn get_partition_type_count(&self) -> (r: (usize, usize))
        ensures
            r.0 == primary_count(self@.partitions, self@.partitions.len() as int),
            r.1 == logical_count(self@.partitions, self@.partitions.len() as int),
    {
        let mut primary: usize = 0;
        let mut logical: usize = 0;
        let mut i: usize = 0;
        while i < self.partitions.len()
            invariant
                i <= self.partitions.len(),
                primary == primary_count(self.partitions@, i as int),
                logical == logical_count(self.partitions@, i as int),
                primary <= i,
                logical <= i,
            decreases self.partitions.len() - i,
        {
            match self.partitions[i].part_type {
                PartitionType::Primary => {
                    primary = primary + 1;
                },
                PartitionType::Logical => {
                    logical = logical + 1;
                },
                PartitionType::Extended => {},
            }
            i = i + 1;
        }
        (primary, logical)
    }
}

impl DiskExt for Disk {
    const LOGICAL: bool = false;

    proof fn lemma_kind(&self) {
        assert(Disk::LOGICAL == false);
    }

    open spec fn table_verdict(&self, part_type: PartitionType) -> Result<(), DiskError> {
        table_rule(self.table_type, self.partitions@, part_type)
    }

    fn get_device_path(&self) -> (r: &str) {
        self.device_path.as_str()
    }

    fn get_model(&self) -> (r: &str) {
        self.model_name.as_str()
    }

    fn get_mount_point(&self) -> (r: Option<&str>) {
        match &self.mount_point {
            Some(m) => Some(m.as_str()),
            None => None,
        }
    }

    fn get_partitions(&self) -> (r: &[PartitionInfo]) {
        self.partitions.as_slice()
    }

    fn get_partitions_mut(&mut self) -> (r: &mut [PartitionInfo]) {
        self.partitions.as_mut_slice()
    }

    fn get_sectors(&self) -> (r: u64) {
        self.size
    }

    fn get_sector_size(&self) -> (r: u64) {
        self.sector_size
    }

    fn get_table_type(&self) -> (r: Option<PartitionTable>) {
        Some(self.table_type)
    }

    fn validate_partition_table(&self, part_type: PartitionType) -> (r: Result<(), DiskError>) {
        match self.table_type {
            PartitionTable::Gpt => Ok(()),
            PartitionTable::Msdos => {
                let (primary, logical) = self.get_partition_type_count();
                let full = match part_type {
                    PartitionType::Primary => primary == 4 || (primary == 3 && logical != 0),
                    _ => primary == 4,
                };
                if full {
                    Err(DiskError::PrimaryPartitionsExceeded)
                } else {
                    Ok(())
                }
            },
        }
    }

    fn push_partition(&mut self, partition: PartitionInfo) {
        self.partitions.push(partition);
    }
}

} // verus!
