use crate::builder::PartitionBuilder;
use crate::device::{requested_bytes, DeviceView, DiskExt};
use crate::error::DiskError;
use crate::limits::size_verdict;
use crate::partitions::{PartitionInfo, PartitionTable, PartitionType};
use crate::text::path_view;
use vstd::prelude::*;

verus! {

/// A logical device: the volumes of one volume group, which share the
/// group's pool of sectors. It has no partition table.
#[derive(Debug, Clone, PartialEq, Eq)]
pub struct LvmDevice {
    /// The name of the volume group.
    pub volume_group: String,
    pub model_name: String,
    pub device_path: String,
    pub mount_point: Option<String>,
    /// The number of sectors in the pool of the volume group.
    pub sectors: u64,
    /// The size of a sector in bytes.
    pub sector_size: u64,
    pub partitions: Vec<PartitionInfo>,
}

impl View for LvmDevice {
    type V = DeviceView;

    open spec fn view(&self) -> DeviceView {
        DeviceView {
            device_path: self.device_path@,
            model: self.model_name@,
            mount_point: path_view(self.mount_point),
            partitions: self.partitions@,
            sectors: self.sectors,
            sector_size: self.sector_size,
            table_type: None,
            logical: true,
            volume_group: Some(self.volume_group@),
        }
    }
}

impl LvmDevice {
    /// The logical device of the volume group `volume_group`, without
    /// volumes, with a pool of `sectors` sectors.
    pub fn new(volume_group: String, device_path: String, sectors: u64, sector_size: u64) -> (r:
        LvmDevice)
        ensures
            r.volume_group == volume_group,
            r@ == (DeviceView {
                device_path: device_path@,
                model: volume_group@,
                mount_point: None,
                partitions: Seq::empty(),
                sectors,
                sector_size,
                table_type: None,
                logical: true,
                volume_group: Some(volume_group@),
            }),
    {
        let model_name = volume_group.clone();
        LvmDevice {
            volume_group,
            model_name,
            device_path,
            mount_point: None,
            sectors,
            sector_size,
            partitions: Vec::new(),
        }
    }
}

impl DiskExt for LvmDevice {
    const LOGICAL: bool = true;

    proof fn lemma_kind(&self) {
        assert(LvmDevice::LOGICAL == true);
    }

    /// With no table, nothing limits the number or the type of the volumes.
    open spec fn table_verdict(&self, part_type: PartitionType) -> Result<(), DiskError> {
        Ok(())
    }

    fn get_device_path(&self) -> (r: &str) {
        self.device_path.as_str()
    }

    fn get_model(&self) -> (r: &str) {
        self.model_name.as_str()
    }

    fn get_mount_point(&self) -> (r: Option<&str>) {
        match &self.mount_point {
            Some(m) => Some(m.as_str()),
            None => None,
        }
    }

    fn get_partitions(&self) -> (r: &[PartitionInfo]) {
        self.partitions.as_slice()
    }

    fn get_partitions_mut(&mut self) -> (r: &mut [PartitionInfo]) {
        self.partitions.as_mut_slice()
    }

    fn get_sectors(&self) -> (r: u64) {
        self.sectors
    }

    fn get_sector_size(&self) -> (r: u64) {
        self.sector_size
    }

    fn get_table_type(&self) -> (r: Option<PartitionTable>) {
        None
    }

    fn validate_partition_table(&self, part_type: PartitionType) -> (r: Result<(), DiskError>) {
        Ok(())
    }

    fn push_partition(&mut self, partition: PartitionInfo) {
        self.partitions.push(partition);
    }
}

/// A volume whose size suits its file system is added to a logical device
/// exactly when the sectors in use and the sectors of the volume, both of
/// its bounds included, together stay within the pool of the volume group.
pub proof fn lemma_logical_device_takes_what_fits(device: LvmDevice, builder: PartitionBuilder)
    requires
        size_verdict(
            requested_bytes(builder, device@.sector_size) as u128,
            builder.filesystem,
        ) is Ok,
    ensures
        device@.placement(device.table_verdict(builder.part_type), builder) is Ok
            <==> device@.used() + builder.requested_sectors() <= device@.sectors,
{
}

} // verus!
