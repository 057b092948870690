use vstd::prelude::*;

verus! {

/// Why a partition could not be placed on a device.
#[derive(Debug, Clone, Copy, PartialEq, Eq)]
pub enum DiskError {
    /// The requested range meets the sectors of the partition numbered `id`.
    SectorOverlaps { id: i32 },
    /// The partition would reach past the end of the device, or the volume
    /// group has too few free sectors left for it.
    PartitionOOB,
    /// A DOS partition table has no free primary slot left.
    PrimaryPartitionsExceeded,
    /// The partition is smaller than its file system allows.
    PartitionTooSmall { size: u128, min: u64 },
    /// The partition is larger than its file system allows.
    PartitionTooLarge { size: u128, max: u64 },
}

} // verus!
