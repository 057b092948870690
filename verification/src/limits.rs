use crate::error::DiskError;
use crate::partitions::FileSystemType;
use vstd::prelude::*;

verus! {

/// The smallest size in bytes of a Btrfs partition: 250 megabytes.
pub const BTRFS_MIN: u64 = 250000000;

/// The smallest size in bytes of a FAT16 partition: 16 megabytes.
pub const FAT16_MIN: u64 = 16000000;

/// The largest size in bytes of a FAT16 partition: 4095 megabytes.
pub const FAT16_MAX: u64 = 4095000000;

/// The smallest size in bytes of a FAT32 partition: 33 megabytes.
pub const FAT32_MIN: u64 = 33000000;

/// The largest size in bytes of a FAT32 partition: 2 terabytes.
pub const FAT32_MAX: u64 = 2000000000000;

/// The largest size in bytes of an ext4 partition: 16 terabytes.
pub const EXT4_MAX: u64 = 16000000000000;

impl FileSystemType {
    /// The smallest partition, in bytes, that can hold the file system.
    pub open spec fn min_bytes(self) -> u64 {
        match self {
            FileSystemType::Btrfs => BTRFS_MIN,
            FileSystemType::Fat16 => FAT16_MIN,
            FileSystemType::Fat32 => FAT32_MIN,
            _ => 0,
        }
    }

    /// The largest partition, in bytes, that the file system can fill, for
    /// the file systems that have such a limit.
    pub open spec fn max_bytes(self) -> Option<u64> {
        match self {
            FileSystemType::Fat16 => Some(FAT16_MAX),
            FileSystemType::Fat32 => Some(FAT32_MAX),
            FileSystemType::Ext4 => Some(EXT4_MAX),
            _ => None,
        }
    }
}

/// What `check_partition_size` answers: a partition without a file system
/// has any size; one with a file system lies within that file system's
/// limits, and the lower limit is looked at first.
pub open spec fn size_verdict(size: u128, filesystem: Option<FileSystemType>) -> Result<
    (),
    DiskError,
> {
    match filesystem {
        None => Ok(()),
        Some(fs) => if size < fs.min_bytes() {
            Err(DiskError::PartitionTooSmall { size, min: fs.min_bytes() })
        } else if fs.max_bytes() is Some && size > fs.max_bytes()->0 {
            Err(DiskError::PartitionTooLarge { size, max: fs.max_bytes()->0 })
        } else {
            Ok(())
        },
    }
}

/// Checks that a partition of `size` bytes can hold `filesystem`.
pub fn check_partition_size(size: u128, filesystem: Option<FileSystemType>) -> (r: Result<
    (),
    DiskError,
>)
    ensures
        r == size_verdict(size, filesystem),
{
    match filesystem {
        None => Ok(()),
        Some(fs) => {
            let (min, max): (u64, Option<u64>) = match fs {
                FileSystemType::Btrfs => (BTRFS_MIN, None),
                FileSystemType::Fat16 => (FAT16_MIN, Some(FAT16_MAX)),
                FileSystemType::Fat32 => (FAT32_MIN, Some(FAT32_MAX)),
                FileSystemType::Ext4 => (0, Some(EXT4_MAX)),
                _ => (0, None),
            };
            if size < min as u128 {
                return Err(DiskError::PartitionTooSmall { size, min });
            }
            match max {
                Some(max) if size > max as u128 => Err(DiskError::PartitionTooLarge { size, max }),
                _ => Ok(()),
            }
        },
    }
}

} // verus!
