use crate::device::DeviceView;
use crate::lvm::LvmDevice;
use crate::mount::{
    device_holds_mount, is_group_device, lemma_deeper_finds_more, partition_holds_mount,
};
use vstd::prelude::*;
use vstd::set_lib::{
    lemma_int_range, lemma_len_subset, lemma_set_empty_equivalency_len, lemma_subset_equality,
    set_int_range,
};

verus! {

/// The logical devices on which `mount` is found within `depth` volume
/// groups, by their places in `logical`.
pub open spec fn holders(logical: Seq<LvmDevice>, mount: Seq<char>, depth: nat) -> Set<int> {
    Set::new(
        |k: int| 0 <= k < logical.len() && device_holds_mount(logical, logical[k]@, mount, depth),
    )
}

/// Whether one volume group more than `depth` finds the mount on no further
/// logical device.
pub open spec fn settled(logical: Seq<LvmDevice>, mount: Seq<char>, depth: nat) -> bool {
    holders(logical, mount, depth + 1).subset_of(holders(logical, mount, depth))
}

/// What a device finds through one volume group more depends only on where
/// the logical devices find the mount.
proof fn lemma_found_by_holders(
    logical: Seq<LvmDevice>,
    device: DeviceView,
    mount: Seq<char>,
    from: nat,
    to: nat,
)
    requires
        holders(logical, mount, from).subset_of(holders(logical, mount, to)),
        device_holds_mount(logical, device, mount, from + 1),
    ensures
        device_holds_mount(logical, device, mount, to + 1),
{
    if device.mount_point != Some(mount) {
        let i = choose|i: int|
            0 <= i < device.partitions.len() && partition_holds_mount(
                logical,
                (#[trigger] device.partitions[i])@,
                mount,
                from + 1,
            );
        let part = device.partitions[i]@;
        if part.mount_point != Some(mount) {
            let k = choose|k: int|
                is_group_device(logical, part.volume_group->0, k) && device_holds_mount(
                    logical,
                    (#[trigger] logical[k])@,
                    mount,
                    from,
                );
            assert(holders(logical, mount, from).contains(k));
            assert(holders(logical, mount, to).contains(k));
        }
        assert(partition_holds_mount(logical, device.partitions[i]@, mount, to + 1));
    }
}

/// Where no logical device holds the mount within `depth` volume groups,
/// whatever a device finds through one more it holds itself.
proof fn lemma_found_without_holders(
    logical: Seq<LvmDevice>,
    device: DeviceView,
    mount: Seq<char>,
    depth: nat,
)
    requires
        holders(logical, mount, depth) =~= Set::empty(),
        device_holds_mount(logical, device, mount, depth + 1),
    ensures
        device_holds_mount(logical, device, mount, 0),
{
    if device.mount_point != Some(mount) {
        let i = choose|i: int|
            0 <= i < device.partitions.len() && partition_holds_mount(
                logical,
                (#[trigger] device.partitions[i])@,
                mount,
                depth + 1,
            );
        let part = device.partitions[i]@;
        if part.mount_point != Some(mount) {
            let k = choose|k: int|
                is_group_device(logical, part.volume_group->0, k) && device_holds_mount(
                    logical,
                    (#[trigger] logical[k])@,
                    mount,
                    depth,
                );
            assert(holders(logical, mount, depth).contains(k));
        }
        assert(partition_holds_mount(logical, device.partitions[i]@, mount, 0));
    }
}

/// There are no more holders than logical devices.
proof fn lemma_holders_bounded(logical: Seq<LvmDevice>, mount: Seq<char>, depth: nat)
    ensures
        holders(logical, mount, depth).finite(),
        holders(logical, mount, depth).len() <= logical.len(),
        holders(logical, mount, depth).subset_of(set_int_range(0, logical.len() as int)),
{
    lemma_int_range(0, logical.len() as int);
    lemma_len_subset(holders(logical, mount, depth), set_int_range(0, logical.len() as int));
}

/// A holder stays one at any greater depth.
proof fn lemma_holders_grow(logical: Seq<LvmDevice>, mount: Seq<char>, depth: nat, deeper: nat)
    requires
        depth <= deeper,
    ensures
        holders(logical, mount, depth).subset_of(holders(logical, mount, deeper)),
{
    assert forall|k: int| holders(logical, mount, depth).contains(k) implies holders(
        logical,
        mount,
        deeper,
    ).contains(k) by {
        lemma_deeper_finds_more(logical, logical[k]@, mount, depth, deeper);
    }
}

/// Once a depth is settled, every greater depth is, and finds the mount on
/// the same logical devices.
proof fn lemma_settled_stays(logical: Seq<LvmDevice>, mount: Seq<char>, depth: nat, deeper: nat)
    requires
        settled(logical, mount, depth),
        depth <= deeper,
    ensures
        settled(logical, mount, deeper),
        holders(logical, mount, deeper).subset_of(holders(logical, mount, depth)),
    decreases deeper - depth,
{
    if depth < deeper {
        let before = (deeper - 1) as nat;
        lemma_settled_stays(logical, mount, depth, before);
        assert forall|k: int| holders(logical, mount, deeper + 1).contains(k) implies holders(
            logical,
            mount,
            deeper,
        ).contains(k) by {
            lemma_found_by_holders(logical, logical[k]@, mount, deeper, before);
        }
    }
}

/// Each depth that is not settled adds a holder, so that by depth `depth`
/// either some depth is settled or there are more holders than `depth`.
proof fn lemma_settles_or_grows(logical: Seq<LvmDevice>, mount: Seq<char>, depth: nat)
    ensures
        (exists|i: nat| i <= depth && #[trigger] settled(logical, mount, i)) || holders(
            logical,
            mount,
            depth,
        ).len() > depth,
    decreases depth,
{
    lemma_holders_bounded(logical, mount, depth);
    if depth == 0 {
        let none = holders(logical, mount, 0);
        lemma_set_empty_equivalency_len(none);
        if none.len() == 0 {
            assert forall|k: int| holders(logical, mount, 1).contains(k) implies none.contains(
                k,
            ) by {
                lemma_found_without_holders(logical, logical[k]@, mount, 0);
            }
            assert(settled(logical, mount, 0));
        }
    } else {
        let before = (depth - 1) as nat;
        lemma_settles_or_grows(logical, mount, before);
        if !(exists|i: nat| i <= before && #[trigger] settled(logical, mount, i)) {
            if settled(logical, mount, before) {
            } else {
                let new = choose|k: int|
                    holders(logical, mount, depth).contains(k) && !holders(
                        logical,
                        mount,
                        before,
                    ).contains(k);
                lemma_holders_grow(logical, mount, before, depth);
                lemma_holders_bounded(logical, mount, before);
                let others = holders(logical, mount, depth).remove(new);
                assert(holders(logical, mount, before).subset_of(others));
                lemma_len_subset(holders(logical, mount, before), others);
            }
        }
    }
}

/// Following volume groups through as many logical devices as there are
/// finds every mount that following them any further would: a chain that
/// leads to the mount need pass no logical device twice.
pub proof fn lemma_depth_suffices(
    logical: Seq<LvmDevice>,
    device: DeviceView,
    mount: Seq<char>,
    depth: nat,
)
    requires
        device_holds_mount(logical, device, mount, depth),
    ensures
        device_holds_mount(logical, device, mount, logical.len()),
{
    let n = logical.len();
    if depth <= n {
        lemma_deeper_finds_more(logical, device, mount, depth, n);
    } else if n == 0 {
        let from = (depth - 1) as nat;
        assert(holders(logical, mount, from) =~= Set::empty());
        lemma_found_without_holders(logical, device, mount, from);
    } else {
        let last = (n - 1) as nat;
        let from = (depth - 1) as nat;
        lemma_settles_or_grows(logical, mount, last);
        if !(exists|i: nat| i <= last && #[trigger] settled(logical, mount, i)) {
            // Every logical device is a holder already.
            lemma_holders_bounded(logical, mount, last);
            lemma_holders_bounded(logical, mount, n);
            lemma_int_range(0, n as int);
            lemma_subset_equality(holders(logical, mount, last), set_int_range(0, n as int));
            assert(settled(logical, mount, last));
        }
        let i = choose|i: nat| i <= last && #[trigger] settled(logical, mount, i);
        lemma_settled_stays(logical, mount, i, from);
        lemma_holders_grow(logical, mount, i, last);
        lemma_found_by_holders(logical, device, mount, from, last);
    }
}

} // verus!
