use crate::builder::PartitionBuilder;
use crate::disks::Disks;
use crate::error::DiskError;
use crate::limits::{check_partition_size, size_verdict};
use crate::lvm::LvmDevice;
use crate::mount::{device_holds_mount, partitions_contain_mount, siblings};
use crate::overlap::{
    all_apart, conflict_number, find_conflict, has_conflict, is_first_conflict,
    lemma_clear_partition_keeps_apart,
};
use crate::partitions::{
    all_valid, count_used, lemma_used_sectors_push, used_sectors, PartitionInfo, PartitionTable,
    PartitionType,
};
use crate::sector::Sector;
use crate::text::same_text;
use vstd::prelude::*;

verus! {

/// What the placement rules see of a device.
pub struct DeviceView {
    /// The path of the block device.
    pub device_path: Seq<char>,
    /// The name the device goes by; no rule reads it.
    pub model: Seq<char>,
    /// Where the device as a whole is mounted, if it is.
    pub mount_point: Option<Seq<char>>,
    /// The partitions in the order in which they were found or added.
    pub partitions: Seq<PartitionInfo>,
    /// The number of sectors of the device; of a volume group, of its pool.
    pub sectors: u64,
    /// The size of a sector in bytes.
    pub sector_size: u64,
    /// The kind of partition table; a logical device has none.
    pub table_type: Option<PartitionTable>,
    /// Whether the device is a logical one, backed by a volume group.
    pub logical: bool,
    /// The name of the volume group behind a logical device.
    pub volume_group: Option<Seq<char>>,
}

impl DeviceView {
    /// A sector has a size, and every partition ends no earlier than it starts.
    pub open spec fn valid(self) -> bool {
        &&& self.sector_size > 0
        &&& all_valid(self.partitions)
    }

    /// The sectors held by the partitions that are not flagged `REMOVE`.
    pub open spec fn used(self) -> int {
        used_sectors(self.partitions)
    }

    /// The device with `partition` added behind its other partitions.
    pub open spec fn with_partition(self, partition: PartitionInfo) -> DeviceView {
        DeviceView { partitions: self.partitions.push(partition), ..self }
    }

    /// Whether the device has room for the partition that `builder` asks
    /// for. A logical device has, if the sectors in use and those asked for
    /// together stay within its pool; a physical one, if the partition ends
    /// within the device.
    pub open spec fn has_room(self, builder: PartitionBuilder) -> bool {
        if self.logical {
            self.used() + builder.requested_sectors() <= self.sectors
        } else {
            builder.end_sector <= self.sectors
        }
    }

    /// What `add_partition` answers on a device whose partition table
    /// answers `table` to the type of the partition. The checks come in
    /// this order: overlap (on a physical device only), room, the partition
    /// table, the size that the file system allows. The first that fails
    /// gives the error.
    pub open spec fn placement(
        self,
        table: Result<(), DiskError>,
        builder: PartitionBuilder,
    ) -> Result<(), DiskError> {
        let start = builder.start_sector as int;
        let end = builder.end_sector as int;
        if !self.logical && has_conflict(self.partitions, start, end) {
            Err(DiskError::SectorOverlaps { id: conflict_number(self.partitions, start, end)->0 })
        } else if !self.has_room(builder) {
            Err(DiskError::PartitionOOB)
        } else if table is Err {
            table
        } else {
            size_verdict(requested_bytes(builder, self.sector_size) as u128, builder.filesystem)
        }
    }
}

/// The size in bytes of the partition that `builder` asks for, on sectors of
/// `sector_size` bytes.
pub open spec fn requested_bytes(builder: PartitionBuilder, sector_size: u64) -> int {
    builder.requested_sectors() * sector_size
}

/// What physical disks and logical devices have in common.
pub trait DiskExt: View<V = DeviceView> + Sized {
    /// Whether the device is a logical one, backed by a volume group: such a
    /// device has a pool of sectors to give out, and no sectors to overlap.
    const LOGICAL: bool;

    /// The view of a device tells its kind as `LOGICAL` does, and a device
    /// is a logical one exactly if it has no partition table, and exactly if
    /// a volume group stands behind it.
    proof fn lemma_kind(&self)
        ensures
            self@.logical == Self::LOGICAL,
            self@.logical == (self@.table_type is None),
            self@.logical == (self@.volume_group is Some),
    ;

    /// What `validate_partition_table` answers for a new partition of the
    /// type `part_type`.
    spec fn table_verdict(&self, part_type: PartitionType) -> Result<(), DiskError>;

    /// The path of the block device.
    fn get_device_path(&self) -> (r: &str)
        ensures
            r@ == self@.device_path,
    ;

    /// The model of the device.
    fn get_model(&self) -> (r: &str)
        ensures
            r@ == self@.model,
    ;

    /// Where the device as a whole is mounted.
    fn get_mount_point(&self) -> (r: Option<&str>)
        ensures
            r is Some == self@.mount_point is Some,
            r matches Some(m) ==> self@.mount_point == Some(m@),
    ;

    /// The partitions of the device.
    fn get_partitions(&self) -> (r: &[PartitionInfo])
        ensures
            r@ == self@.partitions,
    ;

    /// The partitions of the device, to change them in place. Nothing but
    /// the partitions changes, and their number stays.
    fn get_partitions_mut(&mut self) -> (r: &mut [PartitionInfo])
        ensures
            r@ == old(self)@.partitions,
            final(self)@ == (DeviceView { partitions: final(r)@, ..old(self)@ }),
    ;

    /// The number of sectors of the device.
    fn get_sectors(&self) -> (r: u64)
        ensures
            r == self@.sectors,
    ;

    /// The size of a sector in bytes.
    fn get_sector_size(&self) -> (r: u64)
        ensures
            r == self@.sector_size,
    ;

    /// The kind of partition table on the device.
    fn get_table_type(&self) -> (r: Option<PartitionTable>)
        ensures
            r == self@.table_type,
    ;

    /// Whether the partition table has room for one more partition of the
    /// type `part_type`.
    fn validate_partition_table(&self, part_type: PartitionType) -> (r: Result<(), DiskError>)
        ensures
            r == self.table_verdict(part_type),
    ;

    /// Adds `partition` behind the other partitions, unchecked.
    fn push_partition(&mut self, partition: PartitionInfo)
        ensures
            final(self)@ == old(self)@.with_partition(partition),
    ;

    /// Whether `mount` is found on the device: the device as a whole is
    /// mounted there, or one of its partitions is, or a partition is a
    /// physical volume of a volume group whose logical device, looked up in
    /// `parent`, holds the mount in the same way. A chain of volume groups is
    /// followed through as many logical devices as `parent` has, so that the
    /// search ends even where volume groups lead back to themselves.
    fn contains_mount(&self, mount: &str, parent: Option<&Disks>) -> (r: bool)
        ensures
            r == device_holds_mount(
                siblings(parent),
                self@,
                mount@,
                siblings(parent).len(),
            ),
    {
        if let Some(path) = self.get_mount_point() {
            if same_text(path, mount) {
                return true;
            }
        }
        match parent {
            Some(disks) => partitions_contain_mount(
                self.get_partitions(),
                disks.logical.as_slice(),
                mount,
                disks.logical.len(),
            ),
            None => {
                let alone: Vec<LvmDevice> = Vec::new();
                partitions_contain_mount(self.get_partitions(), alone.as_slice(), mount, 0)
            },
        }
    }

    /// The number of the first partition, in the order of the list, that is
    /// not flagged `REMOVE` and whose sectors are not apart from those from
    /// `start` to `end`.
    fn overlaps_region(&self, start: u64, end: u64) -> (r: Option<i32>)
        ensures
            r == conflict_number(self@.partitions, start as int, end as int),
            r is Some <==> has_conflict(self@.partitions, start as int, end as int),
            r matches Some(id) ==> exists|i: int|
                is_first_conflict(self@.partitions, start as int, end as int, i)
                    && self@.partitions[i].number == id,
    {
        find_conflict(self.get_partitions(), start, end)
    }

    /// The sectors held by the partitions that are not flagged `REMOVE`.
    fn get_used(&self) -> (r: u64)
        requires
            all_valid(self@.partitions),
            self@.used() <= u64::MAX,
        ensures
            r == self@.used(),
    {
        count_used(self.get_partitions()) as u64
    }

    /// The absolute sector that `sector` stands for on this device.
    fn get_sector(&self, sector: Sector) -> (r: u64)
        requires
            sector.resolvable(self@.sectors as int, self@.sector_size as int),
        ensures
            r == sector.absolute(self@.sectors as int, self@.sector_size as int),
    {
        sector.resolve(self.get_sectors(), self.get_sector_size())
    }

    /// Adds the partition that `builder` asks for, if every check of
    /// `placement` passes; otherwise the device stays as it was. On a
    /// physical device whose partitions share no sector, they share none
    /// afterwards either; on a logical device the sectors in use stay
    /// within the pool.
    fn add_partition(&mut self, builder: PartitionBuilder) -> (r: Result<(), DiskError>)
        requires
            old(self)@.valid(),
            builder.valid(),
        ensures
            r == old(self)@.placement(old(self).table_verdict(builder.part_type), builder),
            r is Ok ==> final(self)@ == old(self)@.with_partition(builder.built()),
            r is Ok ==> final(self)@.valid(),
            r is Ok ==> final(self)@.used() == old(self)@.used() + builder.requested_sectors(),
            r is Ok && old(self)@.logical ==> final(self)@.used() <= final(self)@.sectors,
            r is Ok && !old(self)@.logical && all_apart(old(self)@.partitions) ==> all_apart(
                final(self)@.partitions,
            ),
            r is Err ==> *final(self) == *old(self),
            !old(self)@.logical && has_conflict(
                old(self)@.partitions,
                builder.start_sector as int,
                builder.end_sector as int,
            ) ==> r is Err && r->Err_0 is SectorOverlaps,
            old(self)@.logical ==> (r is Ok <==> old(self)@.used() + builder.requested_sectors() <= old(
                self,
            )@.sectors && old(self).table_verdict(builder.part_type) is Ok && size_verdict(
                requested_bytes(builder, old(self)@.sector_size) as u128,
                builder.filesystem,
            ) is Ok),
    {
        proof {
            self.lemma_kind();
        }
        if !Self::LOGICAL {
            if let Some(id) = self.overlaps_region(builder.start_sector, builder.end_sector) {
                return Err(DiskError::SectorOverlaps { id });
            }
        }
        if Self::LOGICAL {
            let used: u128 = count_used(self.get_partitions());
            let asked: u128 = (builder.end_sector - builder.start_sector) as u128 + 1;
            let sectors: u128 = self.get_sectors() as u128;
            if sectors < used || sectors - used < asked {
                return Err(DiskError::PartitionOOB);
            }
        } else if self.get_sectors() < builder.end_sector {
            return Err(DiskError::PartitionOOB);
        }
        match self.validate_partition_table(builder.part_type) {
            Err(why) => {
                return Err(why);
            },
            Ok(()) => {},
        }
        let filesystem = builder.filesystem;
        let sector_size: u64 = self.get_sector_size();
        let partition = builder.build();
        let sectors: u128 = (partition.end_sector - partition.start_sector) as u128 + 1;
        assert(sectors * sector_size <= u128::MAX) by (nonlinear_arith)
            requires
                sectors <= 0x1_0000_0000_0000_0000,
                sector_size <= 0xffff_ffff_ffff_ffff,
        ;
        match check_partition_size(sectors * (sector_size as u128), filesystem) {
            Err(why) => {
                return Err(why);
            },
            Ok(()) => {},
        }
        proof {
            let before = self@.partitions;
            let after = before.push(partition);
            assert forall|i: int| 0 <= i < after.len() implies (#[trigger] after[i])@.valid() by {
                if i < before.len() {
                    assert(after[i] == before[i]);
                }
            }
            if !Self::LOGICAL && all_apart(before) {
                lemma_clear_partition_keeps_apart(before, partition);
            }
            lemma_used_sectors_push(before, partition);
        }
        self.push_partition(partition);
        Ok(())
    }
}

} // verus!
