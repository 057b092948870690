use crate::disk::Disk;
use crate::lvm::LvmDevice;
use crate::mount::{find_group, is_group_device};
use vstd::prelude::*;

verus! {

/// The devices of a machine: its physical disks, and the logical devices of
/// its volume groups.
#[derive(Debug, Clone, PartialEq, Eq)]
pub struct Disks {
    pub physical: Vec<Disk>,
    pub logical: Vec<LvmDevice>,
}

impl Disks {
    /// A collection without devices.
    pub fn new() -> (r: Disks)
        ensures
            r.physical@.len() == 0,
            r.logical@.len() == 0,
    {
        Disks { physical: Vec::new(), logical: Vec::new() }
    }

    /// Adds a physical disk behind the others.
    pub fn add(&mut self, disk: Disk)
        ensures
            final(self).physical@ == old(self).physical@.push(disk),
            final(self).logical == old(self).logical,
    {
        self.physical.push(disk);
    }

    /// Adds a logical device behind the others.
    pub fn add_logical(&mut self, device: LvmDevice)
        ensures
            final(self).logical@ == old(self).logical@.push(device),
            final(self).physical == old(self).physical,
    {
        self.logical.push(device);
    }

    /// The logical device of the volume group `group`: the first of that
    /// name, if there is one.
    pub fn get_logical_device(&self, group: &str) -> (r: Option<&LvmDevice>)
        ensures
            r matches Some(device) ==> exists|k: int|
                is_group_device(self.logical@, group@, k) && *device == self.logical@[k],
            r is None ==> forall|k: int|
                0 <= k < self.logical@.len() ==> (#[trigger] self.logical@[k])@.volume_group
                    != Some(group@),
    {
        match find_group(self.logical.as_slice(), group) {
            Some(k) => Some(&self.logical[k]),
            None => None,
        }
    }
}

} // verus!
