use crate::device::DeviceView;
use crate::disks::Disks;
use crate::lvm::LvmDevice;
use crate::partitions::{PartitionInfo, PartitionView};
use crate::text::{is_path, same_text};
use vstd::prelude::*;

verus! {

/// Whether `logical[k]` is the logical device that a lookup of the volume
/// group `group` finds: the first one of that name.
pub open spec fn is_group_device(logical: Seq<LvmDevice>, group: Seq<char>, k: int) -> bool {
    &&& 0 <= k < logical.len()
    &&& logical[k]@.volume_group == Some(group)
    &&& forall|j: int| 0 <= j < k ==> (#[trigger] logical[j])@.volume_group != Some(group)
}

/// Whether `mount` is found from the partition `part`: it is mounted there,
/// or it is a physical volume of a volume group whose logical device holds
/// the mount, no more than `depth` volume groups further down.
pub open spec fn partition_holds_mount(
    logical: Seq<LvmDevice>,
    part: PartitionView,
    mount: Seq<char>,
    depth: nat,
) -> bool
    decreases depth, 0nat,
{
    part.mount_point == Some(mount) || (depth > 0 && part.volume_group is Some && exists|k: int|
        is_group_device(logical, part.volume_group->0, k) && device_holds_mount(
            logical,
            (#[trigger] logical[k])@,
            mount,
            (depth - 1) as nat,
        ))
}

/// Whether `mount` is found on `device`: the device as a whole is mounted
/// there, or the mount is found from one of its partitions.
pub open spec fn device_holds_mount(
    logical: Seq<LvmDevice>,
    device: DeviceView,
    mount: Seq<char>,
    depth: nat,
) -> bool
    decreases depth, 2nat,
{
    device.mount_point == Some(mount) || partitions_hold_mount(
        logical,
        device.partitions,
        mount,
        depth,
    )
}

/// Whether `mount` is found from one of the partitions `parts`.
pub open spec fn partitions_hold_mount(
    logical: Seq<LvmDevice>,
    parts: Seq<PartitionInfo>,
    mount: Seq<char>,
    depth: nat,
) -> bool
    decreases depth, 1nat,
{
    exists|i: int|
        0 <= i < parts.len() && partition_holds_mount(logical, (#[trigger] parts[i])@, mount, depth)
}

/// The logical devices beside a device: those of the collection it belongs
/// to, none for a device on its own.
pub open spec fn siblings(parent: Option<&Disks>) -> Seq<LvmDevice> {
    match parent {
        Some(disks) => disks.logical@,
        None => Seq::empty(),
    }
}

/// Looks up the logical device of the volume group `group`: the place of
/// the first one of that name.
pub fn find_group(logical: &[LvmDevice], group: &str) -> (r: Option<usize>)
    ensures
        r matches Some(k) ==> is_group_device(logical@, group@, k as int),
        r is None ==> forall|k: int|
            0 <= k < logical@.len() ==> (#[trigger] logical@[k])@.volume_group != Some(group@),
{
    let mut k: usize = 0;
    while k < logical.len()
        invariant
            k <= logical.len(),
            forall|j: int| 0 <= j < k ==> (#[trigger] logical@[j])@.volume_group != Some(group@),
        decreases logical.len() - k,
    {
        if same_text(logical[k].volume_group.as_str(), group) {
            return Some(k);
        }
        k = k + 1;
    }
    None
}

/// Whether `mount` is found from one of the partitions `parts`, following
/// volume groups into the logical devices `logical`, `depth` of them at most
/// one after another.
pub fn partitions_contain_mount(
    parts: &[PartitionInfo],
    logical: &[LvmDevice],
    mount: &str,
    depth: usize,
) -> (r: bool)
    ensures
        r == partitions_hold_mount(logical@, parts@, mount@, depth as nat),
    decreases depth,
{
    let mut i: usize = 0;
    while i < parts.len()
        invariant
            i <= parts.len(),
            forall|j: int|
                0 <= j < i ==> !partition_holds_mount(
                    logical@,
                    (#[trigger] parts@[j])@,
                    mount@,
                    depth as nat,
                ),
        decreases parts.len() - i,
    {
        let part = &parts[i];
        if part.is_mounted_at(mount) {
            return true;
        }
        if depth > 0 {
            if let Some((group, _)) = &part.volume_group {
                if let Some(k) = find_group(logical, group.as_str()) {
                    let device = &logical[k];
                    if is_path(&device.mount_point, mount) || partitions_contain_mount(
                        device.partitions.as_slice(),
                        logical,
                        mount,
                        depth - 1,
                    ) {
                        return true;
                    }
                    proof {
                        lemma_one_group_device(logical@, group@, k as int);
                    }
                }
            }
        }
        i = i + 1;
    }
    false
}

/// A lookup finds at most one logical device.
pub proof fn lemma_one_group_device(logical: Seq<LvmDevice>, group: Seq<char>, k: int)
    requires
        is_group_device(logical, group, k),
    ensures
        forall|j: int| is_group_device(logical, group, j) ==> j == k,
{
    assert forall|j: int| is_group_device(logical, group, j) implies j == k by {
        if j < k {
            assert(logical[j]@.volume_group != Some(group));
        } else if k < j {
            assert(logical[k]@.volume_group != Some(group));
        }
    }
}

/// A mount is found on every device that has a partition mounted there,
/// whatever else the device and the collection hold.
pub proof fn lemma_mounted_partition_is_found(
    logical: Seq<LvmDevice>,
    device: DeviceView,
    mount: Seq<char>,
    depth: nat,
    i: int,
)
    requires
        0 <= i < device.partitions.len(),
        device.partitions[i]@.mount_point == Some(mount),
    ensures
        device_holds_mount(logical, device, mount, depth),
{
    assert(partition_holds_mount(logical, device.partitions[i]@, mount, depth));
}

/// A mount is found on a device of which a partition is a physical volume
/// of a volume group, where the logical device of that group has a
/// partition mounted there: one volume group is followed whenever the
/// collection has the logical device at all.
pub proof fn lemma_mount_is_found_through_group(
    logical: Seq<LvmDevice>,
    device: DeviceView,
    mount: Seq<char>,
    i: int,
    k: int,
    j: int,
)
    requires
        0 <= i < device.partitions.len(),
        device.partitions[i]@.volume_group is Some,
        is_group_device(logical, device.partitions[i]@.volume_group->0, k),
        0 <= j < logical[k]@.partitions.len(),
        logical[k]@.partitions[j]@.mount_point == Some(mount),
    ensures
        device_holds_mount(logical, device, mount, logical.len()),
{
    let below = (logical.len() - 1) as nat;
    lemma_mounted_partition_is_found(logical, logical[k]@, mount, below, j);
    assert(partition_holds_mount(logical, device.partitions[i]@, mount, logical.len()));
}

/// What is found within some number of volume groups is found within any
/// greater number.
pub proof fn lemma_deeper_finds_more(
    logical: Seq<LvmDevice>,
    device: DeviceView,
    mount: Seq<char>,
    depth: nat,
    deeper: nat,
)
    requires
        depth <= deeper,
        device_holds_mount(logical, device, mount, depth),
    ensures
        device_holds_mount(logical, device, mount, deeper),
    decreases depth,
{
    if device.mount_point != Some(mount) {
        let i = choose|i: int|
            0 <= i < device.partitions.len() && partition_holds_mount(
                logical,
                (#[trigger] device.partitions[i])@,
                mount,
                depth,
            );
        let part = device.partitions[i]@;
        if part.mount_point != Some(mount) {
            let k = choose|k: int|
                is_group_device(logical, part.volume_group->0, k) && device_holds_mount(
                    logical,
                    (#[trigger] logical[k])@,
                    mount,
                    (depth - 1) as nat,
                );
            lemma_deeper_finds_more(
                logical,
                logical[k]@,
                mount,
                (depth - 1) as nat,
                (deeper - 1) as nat,
            );
        }
        assert(partition_holds_mount(logical, device.partitions[i]@, mount, deeper));
    }
}

} // verus!
