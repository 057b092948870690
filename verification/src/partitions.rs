use crate::text::{is_path, path_view};
use vstd::prelude::*;

verus! {

/// Flag of a partition that is to be deleted: it still stands in its
/// device's list, but no longer takes part in overlap or capacity accounting.
pub const REMOVE: u8 = 2;

/// The kinds of partition table.
#[derive(Debug, Clone, Copy, PartialEq, Eq)]
pub enum PartitionTable {
    Msdos,
    Gpt,
}

/// The place of a partition in a DOS partition table.
#[derive(Debug, Clone, Copy, PartialEq, Eq)]
pub enum PartitionType {
    Primary,
    Logical,
    Extended,
}

/// The file systems a partition can hold.
#[derive(Debug, Clone, Copy, PartialEq, Eq)]
pub enum FileSystemType {
    Btrfs,
    Exfat,
    Ext2,
    Ext3,
    Ext4,
    F2fs,
    Fat16,
    Fat32,
    Ntfs,
    Swap,
    Xfs,
    Luks,
    Lvm,
}

/// How the physical volume under a volume group is encrypted.
#[derive(Debug, Clone, PartialEq, Eq)]
pub struct LvmEncryption {
    pub physical_volume: String,
    pub password: Option<String>,
    pub keydata: Option<String>,
}

/// A partition of a device.
#[derive(Debug, Clone, PartialEq, Eq)]
pub struct PartitionInfo {
    /// The partition's slot in the table of its device.
    pub number: i32,
    /// The first sector of the partition.
    pub start_sector: u64,
    /// The last sector of the partition.
    pub end_sector: u64,
    pub part_type: PartitionType,
    pub filesystem: Option<FileSystemType>,
    /// Flags such as `REMOVE`, one bit each.
    pub bitflags: u8,
    /// Where the partition is mounted at present.
    pub mount_point: Option<String>,
    /// Where the partition is to be mounted once the plan is carried out.
    pub target: Option<String>,
    /// The volume group that the partition is a physical volume of.
    pub volume_group: Option<(String, Option<LvmEncryption>)>,
}

/// The view of `LvmEncryption`.
pub struct EncryptionView {
    pub physical_volume: Seq<char>,
    pub password: Option<Seq<char>>,
    pub keydata: Option<Seq<char>>,
}

impl View for LvmEncryption {
    type V = EncryptionView;

    open spec fn view(&self) -> EncryptionView {
        EncryptionView {
            physical_volume: self.physical_volume@,
            password: path_view(self.password),
            keydata: path_view(self.keydata),
        }
    }
}

/// The view of a partition: every field of it, texts by their characters.
pub struct PartitionView {
    pub number: int,
    pub start_sector: int,
    pub end_sector: int,
    /// All the flags, one bit each.
    pub bitflags: u8,
    /// Whether the flag `REMOVE` is among them.
    pub removed: bool,
    pub part_type: PartitionType,
    pub filesystem: Option<FileSystemType>,
    pub mount_point: Option<Seq<char>>,
    pub target: Option<Seq<char>>,
    /// The name of the volume group that the partition is a physical volume
    /// of.
    pub volume_group: Option<Seq<char>>,
    /// How that physical volume is encrypted, if it is.
    pub encryption: Option<EncryptionView>,
}

/// Whether the bit `flag`, a power of two, is set in `bits`.
pub open spec fn has_flag(bits: u8, flag: u8) -> bool {
    bits / flag % 2 == 1
}

/// Whether the sector ranges `[a_start, a_end]` and `[b_start, b_end]` are
/// not apart: the first has a bound that lies neither before nor behind the
/// second.
pub open spec fn ranges_meet(a_start: int, a_end: int, b_start: int, b_end: int) -> bool {
    !((a_start < b_start && a_end < b_start) || (a_start > b_end && a_end > b_end))
}

impl PartitionView {
    /// A partition ends no earlier than it starts.
    pub open spec fn valid(self) -> bool {
        self.start_sector <= self.end_sector
    }

    /// The number of sectors in the partition, both bounds included.
    pub open spec fn sectors(self) -> int {
        self.end_sector - self.start_sector + 1
    }

    /// Whether the partition stands in the way of a new partition on the
    /// sectors from `start` to `end`.
    pub open spec fn conflicts_with(self, start: int, end: int) -> bool {
        !self.removed && ranges_meet(start, end, self.start_sector, self.end_sector)
    }
}

impl View for PartitionInfo {
    type V = PartitionView;

    open spec fn view(&self) -> PartitionView {
        PartitionView {
            number: self.number as int,
            start_sector: self.start_sector as int,
            end_sector: self.end_sector as int,
            bitflags: self.bitflags,
            removed: has_flag(self.bitflags, REMOVE),
            part_type: self.part_type,
            filesystem: self.filesystem,
            mount_point: path_view(self.mount_point),
            target: path_view(self.target),
            volume_group: match self.volume_group {
                Some((group, _)) => Some(group@),
                None => None,
            },
            encryption: match self.volume_group {
                Some((_, Some(encryption))) => Some(encryption@),
                _ => None,
            },
        }
    }
}

impl PartitionInfo {
    /// Whether any of the bits of `flag` is set on the partition.
    pub fn flag_is_enabled(&self, flag: u8) -> (r: bool)
        ensures
            r == (self.bitflags & flag != 0),
            flag == REMOVE ==> r == self@.removed,
    {
        let flags: u8 = self.bitflags;
        assert((flags & 2 != 0) == (flags / 2 % 2 == 1)) by (bit_vector);
        flags & flag != 0
    }

    /// Marks the partition as one to delete. No other flag and no other
    /// field changes.
    pub fn remove(&mut self)
        ensures
            *final(self) == (PartitionInfo {
                bitflags: old(self).bitflags | REMOVE,
                ..*old(self)
            }),
            final(self)@ == (PartitionView {
                bitflags: old(self).bitflags | REMOVE,
                removed: true,
                ..old(self)@
            }),
    {
        let flags: u8 = self.bitflags;
        assert((flags | 2) / 2 % 2 == 1) by (bit_vector);
        self.bitflags = flags | REMOVE;
    }

    /// The number of sectors in the partition.
    pub fn sectors(&self) -> (r: u64)
        requires
            self@.valid(),
            self@.sectors() <= u64::MAX,
        ensures
            r == self@.sectors(),
    {
        self.end_sector - self.start_sector + 1
    }

    /// Whether the partition is mounted at `path` at present.
    pub fn is_mounted_at(&self, path: &str) -> (r: bool)
        ensures
            r == (self@.mount_point == Some(path@)),
    {
        is_path(&self.mount_point, path)
    }

    /// Whether the partition is to be mounted at `path`.
    pub fn has_target(&self, path: &str) -> (r: bool)
        ensures
            r == (self@.target == Some(path@)),
    {
        is_path(&self.target, path)
    }
}

/// The sectors that the partitions of `parts` hold, those left out that are
/// flagged `REMOVE`.
pub open spec fn used_sectors(parts: Seq<PartitionInfo>) -> int
    decreases parts.len(),
{
    if parts.len() == 0 {
        0
    } else {
        used_sectors(parts.drop_last()) + counted_sectors(parts.last()@)
    }
}

/// What one partition adds to `used_sectors`.
pub open spec fn counted_sectors(part: PartitionView) -> int {
    if part.removed {
        0
    } else {
        part.sectors()
    }
}

/// A partition added behind the others adds its own sectors to those in
/// use, unless it is flagged `REMOVE`.
pub proof fn lemma_used_sectors_push(parts: Seq<PartitionInfo>, part: PartitionInfo)
    ensures
        used_sectors(parts.push(part)) == used_sectors(parts) + counted_sectors(part@),
{
    assert(parts.push(part).drop_last() =~= parts);
}

/// A partition flagged `REMOVE` adds nothing to the sectors in use: with it
/// or without it, the list holds the same number.
pub proof fn lemma_removed_not_counted(parts: Seq<PartitionInfo>, i: int)
    requires
        0 <= i < parts.len(),
        parts[i]@.removed,
    ensures
        used_sectors(parts.remove(i)) == used_sectors(parts),
    decreases parts.len(),
{
    if i == parts.len() - 1 {
        assert(parts.remove(i) =~= parts.drop_last());
    } else {
        assert(parts.remove(i).drop_last() =~= parts.drop_last().remove(i));
        assert(parts.remove(i).last() == parts.last());
        lemma_removed_not_counted(parts.drop_last(), i);
    }
}

/// Flagging a partition `REMOVE` takes its sectors out of those in use, and
/// no others.
pub proof fn lemma_flagging_frees_sectors(
    parts: Seq<PartitionInfo>,
    i: int,
    flagged: PartitionInfo,
)
    requires
        0 <= i < parts.len(),
        flagged@.removed,
    ensures
        used_sectors(parts.update(i, flagged)) == used_sectors(parts) - counted_sectors(
            parts[i]@,
        ),
    decreases parts.len(),
{
    if i == parts.len() - 1 {
        assert(parts.update(i, flagged).drop_last() =~= parts.drop_last());
    } else {
        assert(parts.update(i, flagged).drop_last() =~= parts.drop_last().update(i, flagged));
        assert(parts.update(i, flagged).last() == parts.last());
        lemma_flagging_frees_sectors(parts.drop_last(), i, flagged);
    }
}

/// Whether every partition of `parts` is valid.
pub open spec fn all_valid(parts: Seq<PartitionInfo>) -> bool {
    forall|i: int| 0 <= i < parts.len() ==> (#[trigger] parts[i])@.valid()
}

/// Sums up `used_sectors` in a type that no list of partitions overflows.
pub fn count_used(parts: &[PartitionInfo]) -> (r: u128)
    requires
        all_valid(parts@),
    ensures
        r == used_sectors(parts@),
{
    let mut used: u128 = 0;
    let mut i: usize = 0;
    while i < parts.len()
        invariant
            i <= parts.len(),
            all_valid(parts@),
            used == used_sectors(parts@.take(i as int)),
            used <= i * 0x1_0000_0000_0000_0000,
        decreases parts.len() - i,
    {
        let part = &parts[i];
        proof {
            assert(parts@.take(i + 1).drop_last() =~= parts@.take(i as int));
            assert(parts@.take(i + 1).last() == parts@[i as int]);
            assert(parts@[i as int]@.valid());
        }
        if !part.flag_is_enabled(REMOVE) {
            used = used + ((part.end_sector - part.start_sector) as u128 + 1);
        }
        i = i + 1;
    }
    proof {
        assert(parts@.take(i as int) =~= parts@);
    }
    used
}

} // verus!
