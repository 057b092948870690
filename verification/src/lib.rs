//! Where a partition may lie on a block device: symbolic positions resolved
//! to sectors, overlap and capacity rules, and the devices and partitions
//! that mount points belong to.

pub mod builder;
pub mod depth;
pub mod device;
pub mod disk;
pub mod disks;
pub mod error;
pub mod limits;
pub mod locate;
pub mod lvm;
pub mod mount;
pub mod overlap;
pub mod partitions;
pub mod removable;
pub mod sector;
pub mod text;

pub use builder::PartitionBuilder;
pub use device::{DeviceView, DiskExt};
pub use disk::Disk;
pub use disks::Disks;
pub use error::DiskError;
pub use limits::check_partition_size;
pub use locate::{find_partition, find_partition_mut};
pub use lvm::LvmDevice;
pub use partitions::{
    FileSystemType, LvmEncryption, PartitionInfo, PartitionTable, PartitionType, REMOVE,
};
pub use sector::Sector;
