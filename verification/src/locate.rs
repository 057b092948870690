use crate::device::{DeviceView, DiskExt};
use crate::partitions::PartitionInfo;
use vstd::prelude::*;

verus! {

/// Whether some partition of some device of `disks` is to be mounted at
/// `target`.
pub open spec fn holds_target<T: DiskExt>(disks: Seq<T>, target: Seq<char>) -> bool {
    exists|i: int, j: int|
        0 <= i < disks.len() && 0 <= j < disks[i]@.partitions.len() && (
        #[trigger] disks[i]@.partitions[j])@.target == Some(target)
}

/// Whether partition `j` of device `i` is the first that is to be mounted at
/// `target`, going through the devices in their order and through the
/// partitions of each in theirs.
pub open spec fn is_first_target<T: DiskExt>(
    disks: Seq<T>,
    target: Seq<char>,
    i: int,
    j: int,
) -> bool {
    &&& 0 <= i < disks.len()
    &&& 0 <= j < disks[i]@.partitions.len()
    &&& disks[i]@.partitions[j]@.target == Some(target)
    &&& forall|b: int| 0 <= b < j ==> (#[trigger] disks[i]@.partitions[b])@.target != Some(target)
    &&& forall|a: int, b: int|
        0 <= a < i && 0 <= b < disks[a]@.partitions.len() ==> (
        #[trigger] disks[a]@.partitions[b])@.target != Some(target)
}

/// The places of the device and of the partition that `find_partition`
/// finds.
pub fn locate_partition<T: DiskExt>(disks: &[T], target: &str) -> (r: Option<(usize, usize)>)
    ensures
        r is Some <==> holds_target(disks@, target@),
        r matches Some((i, j)) ==> is_first_target(disks@, target@, i as int, j as int),
{
    let mut i: usize = 0;
    while i < disks.len()
        invariant
            i <= disks.len(),
            forall|a: int, b: int|
                0 <= a < i && 0 <= b < disks@[a]@.partitions.len() ==> (
                #[trigger] disks@[a]@.partitions[b])@.target != Some(target@),
        decreases disks.len() - i,
    {
        let parts = disks[i].get_partitions();
        let mut j: usize = 0;
        while j < parts.len()
            invariant
                j <= parts.len(),
                i < disks.len(),
                parts@ == disks@[i as int]@.partitions,
                forall|a: int, b: int|
                    0 <= a < i && 0 <= b < disks@[a]@.partitions.len() ==> (
                    #[trigger] disks@[a]@.partitions[b])@.target != Some(target@),
                forall|b: int|
                    0 <= b < j ==> (#[trigger] disks@[i as int]@.partitions[b])@.target != Some(
                        target@,
                    ),
            decreases parts.len() - j,
        {
            if parts[j].has_target(target) {
                return Some((i, j));
            }
            j = j + 1;
        }
        i = i + 1;
    }
    None
}

/// Finds the partition that is to be mounted at `target`, and the path of
/// the device that it lies on: the first such partition, going through the
/// devices in their order and through the partitions of each in theirs.
/// Where a partition is mounted at present plays no part.
pub fn find_partition<'a, T: DiskExt>(disks: &'a [T], target: &str) -> (r: Option<
    (&'a str, &'a PartitionInfo),
>)
    ensures
        r is Some <==> holds_target(disks@, target@),
        r matches Some((path, part)) ==> exists|i: int, j: int|
            is_first_target(disks@, target@, i, j) && path@ == disks@[i]@.device_path && *part
                == disks@[i]@.partitions[j],
{
    match locate_partition(disks, target) {
        Some((i, j)) => {
            let disk = &disks[i];
            let parts = disk.get_partitions();
            Some((disk.get_device_path(), &parts[j]))
        },
        None => None,
    }
}

/// Finds the partition that `find_partition` finds, to change it in place,
/// and hands out a copy of the path of its device. Whatever the caller makes
/// of the partition takes its place; nothing else changes.
pub fn find_partition_mut<'a, T: DiskExt>(disks: &'a mut [T], target: &str) -> (r: Option<
    (String, &'a mut PartitionInfo),
>)
    ensures
        r is Some <==> holds_target(old(disks)@, target@),
        r is None ==> final(disks)@ == old(disks)@,
        r matches Some((path, part)) ==> exists|i: int, j: int|
            {
                &&& is_first_target(old(disks)@, target@, i, j)
                &&& path@ == old(disks)@[i]@.device_path
                &&& *part == old(disks)@[i]@.partitions[j]
                &&& final(disks)@.len() == old(disks)@.len()
                &&& forall|k: int|
                    0 <= k < old(disks)@.len() && k != i ==> final(disks)@[k] == old(disks)@[k]
                &&& final(disks)@[i]@ == (DeviceView {
                    partitions: old(disks)@[i]@.partitions.update(j, *final(part)),
                    ..old(disks)@[i]@
                })
            },
{
    match locate_partition(disks, target) {
        Some((i, j)) => {
            let disk = &mut disks[i];
            let path = disk.get_device_path().to_owned();
            let parts = disk.get_partitions_mut();
            Some((path, &mut parts[j]))
        },
        None => None,
    }
}

/// A path at which a partition is mounted at present, but at which none is
/// to be mounted, is no target: `find_partition` and `find_partition_mut`
/// find nothing for it.
pub proof fn lemma_mount_point_is_no_target<T: DiskExt>(
    disks: Seq<T>,
    path: Seq<char>,
    i: int,
    j: int,
)
    requires
        0 <= i < disks.len(),
        0 <= j < disks[i]@.partitions.len(),
        disks[i]@.partitions[j]@.mount_point == Some(path),
        forall|a: int, b: int|
            0 <= a < disks.len() && 0 <= b < disks[a]@.partitions.len() ==> (
            #[trigger] disks[a]@.partitions[b])@.target != Some(path),
    ensures
        !holds_target(disks, path),
{
}

} // verus!
