use crate::partitions::{all_valid, ranges_meet, PartitionInfo, REMOVE};
use vstd::prelude::*;

verus! {

/// Whether some partition of `parts` stands in the way of the sectors from
/// `start` to `end`.
pub open spec fn has_conflict(parts: Seq<PartitionInfo>, start: int, end: int) -> bool {
    exists|i: int| 0 <= i < parts.len() && (#[trigger] parts[i])@.conflicts_with(start, end)
}

/// Whether `parts[i]` is the first partition of `parts`, in the order of the
/// list, that stands in the way of the sectors from `start` to `end`.
pub open spec fn is_first_conflict(parts: Seq<PartitionInfo>, start: int, end: int, i: int) -> bool {
    &&& 0 <= i < parts.len()
    &&& parts[i]@.conflicts_with(start, end)
    &&& forall|j: int| 0 <= j < i ==> !(#[trigger] parts[j])@.conflicts_with(start, end)
}

/// The place in `parts` of the first partition in the way that stands at
/// `from` or behind it, if there is one.
pub open spec fn first_conflict_from(
    parts: Seq<PartitionInfo>,
    start: int,
    end: int,
    from: int,
) -> Option<int>
    decreases parts.len() - from,
{
    if from < 0 || from >= parts.len() {
        None
    } else if parts[from]@.conflicts_with(start, end) {
        Some(from)
    } else {
        first_conflict_from(parts, start, end, from + 1)
    }
}

/// The place in `parts` of the first partition in the way, if there is one.
pub open spec fn first_conflict(parts: Seq<PartitionInfo>, start: int, end: int) -> Option<int> {
    first_conflict_from(parts, start, end, 0)
}

/// The number of the first partition in the way, if there is one.
pub open spec fn conflict_number(parts: Seq<PartitionInfo>, start: int, end: int) -> Option<i32> {
    match first_conflict(parts, start, end) {
        Some(i) => Some(parts[i].number),
        None => None,
    }
}

/// Looks for the first partition of `parts` that is not flagged `REMOVE` and
/// whose sectors are not apart from those from `start` to `end`.
pub fn find_conflict(parts: &[PartitionInfo], start: u64, end: u64) -> (r: Option<i32>)
    ensures
        r == conflict_number(parts@, start as int, end as int),
        r is Some <==> has_conflict(parts@, start as int, end as int),
        r matches Some(id) ==> exists|i: int|
            is_first_conflict(parts@, start as int, end as int, i) && parts@[i].number == id,
{
    let mut i: usize = 0;
    while i < parts.len()
        invariant
            i <= parts.len(),
            forall|j: int| 0 <= j < i ==> !(#[trigger] parts@[j])@.conflicts_with(
                start as int,
                end as int,
            ),
        decreases parts.len() - i,
    {
        let part = &parts[i];
        if !part.flag_is_enabled(REMOVE) && !((start < part.start_sector && end
            < part.start_sector) || (start > part.end_sector && end > part.end_sector)) {
            proof {
                assert(is_first_conflict(parts@, start as int, end as int, i as int));
                lemma_first_conflict(parts@, start as int, end as int);
            }
            return Some(part.number);
        }
        i = i + 1;
    }
    proof {
        lemma_first_conflict(parts@, start as int, end as int);
    }
    None
}

/// `first_conflict_from` names the first partition in the way at `from` or
/// behind it, and names none exactly when there is none there.
pub proof fn lemma_first_conflict_from(parts: Seq<PartitionInfo>, start: int, end: int, from: int)
    requires
        0 <= from,
    ensures
        match first_conflict_from(parts, start, end, from) {
            Some(i) => {
                &&& from <= i < parts.len()
                &&& parts[i]@.conflicts_with(start, end)
                &&& forall|j: int| from <= j < i ==> !(#[trigger] parts[j])@.conflicts_with(start, end)
            },
            None => forall|j: int|
                from <= j < parts.len() ==> !(#[trigger] parts[j])@.conflicts_with(start, end),
        },
    decreases parts.len() - from,
{
    if from < parts.len() && !parts[from]@.conflicts_with(start, end) {
        lemma_first_conflict_from(parts, start, end, from + 1);
        let rest = first_conflict_from(parts, start, end, from + 1);
        if rest is Some {
            assert forall|j: int| from <= j < rest->0 implies !(#[trigger] parts[j])@.conflicts_with(
                start,
                end,
            ) by {
                if j > from {
                }
            }
        } else {
            assert forall|j: int| from <= j < parts.len() implies !(
            #[trigger] parts[j])@.conflicts_with(start, end) by {
                if j > from {
                }
            }
        }
    }
}

/// `first_conflict` is the place of the first partition in the way: a list
/// has at most one such place, and none exactly when nothing is in the way.
pub proof fn lemma_first_conflict(parts: Seq<PartitionInfo>, start: int, end: int)
    ensures
        forall|i: int|
            is_first_conflict(parts, start, end, i) <==> first_conflict(parts, start, end) == Some(
                i,
            ),
        first_conflict(parts, start, end) is Some <==> has_conflict(parts, start, end),
{
    lemma_first_conflict_from(parts, start, end, 0);
    let found = first_conflict(parts, start, end);
    assert forall|i: int| is_first_conflict(parts, start, end, i) implies found == Some(i) by {
        if found is Some {
            let k = found->0;
            if k < i {
                assert(!parts[k]@.conflicts_with(start, end));
            } else if i < k {
                assert(!parts[i]@.conflicts_with(start, end));
            }
        } else {
            assert(!parts[i]@.conflicts_with(start, end));
        }
    }
    if has_conflict(parts, start, end) {
        let i = choose|i: int|
            0 <= i < parts.len() && (#[trigger] parts[i])@.conflicts_with(start, end);
        if found is None {
            assert(!parts[i]@.conflicts_with(start, end));
        }
    }
    if found is Some {
        assert(parts[found->0]@.conflicts_with(start, end));
    }
}

/// Two sector ranges meet whichever of them is asked about the other.
pub proof fn lemma_ranges_meet_symmetric(a_start: int, a_end: int, b_start: int, b_end: int)
    requires
        a_start <= a_end,
        b_start <= b_end,
    ensures
        ranges_meet(a_start, a_end, b_start, b_end) == ranges_meet(b_start, b_end, a_start, a_end),
{
}

/// Whether the sector `s` lies in the range `[start, end]`.
pub open spec fn holds_sector(start: int, end: int, s: int) -> bool {
    start <= s <= end
}

/// Two sector ranges meet exactly when they share a sector.
pub proof fn lemma_ranges_meet_share_sector(a_start: int, a_end: int, b_start: int, b_end: int)
    requires
        a_start <= a_end,
        b_start <= b_end,
    ensures
        ranges_meet(a_start, a_end, b_start, b_end) <==> exists|s: int|
            #[trigger] holds_sector(a_start, a_end, s) && holds_sector(b_start, b_end, s),
{
    if ranges_meet(a_start, a_end, b_start, b_end) {
        let s = if a_start >= b_start {
            a_start
        } else {
            b_start
        };
        assert(holds_sector(a_start, a_end, s) && holds_sector(b_start, b_end, s));
    }
}

/// A range that lies wholly before or wholly behind every partition that is
/// not flagged `REMOVE` has no conflict.
pub proof fn lemma_clear_range_has_no_conflict(parts: Seq<PartitionInfo>, start: int, end: int)
    requires
        start <= end,
        forall|i: int|
            0 <= i < parts.len() && !(#[trigger] parts[i])@.removed ==> end < parts[i]@.start_sector
                || parts[i]@.end_sector < start,
    ensures
        !has_conflict(parts, start, end),
        conflict_number(parts, start, end) is None,
{
    assert forall|i: int| 0 <= i < parts.len() implies !(#[trigger] parts[i])@.conflicts_with(
        start,
        end,
    ) by {}
    lemma_first_conflict(parts, start, end);
}

/// A partition flagged `REMOVE` is never the one that `first_conflict` names.
pub proof fn lemma_removed_never_conflicts(parts: Seq<PartitionInfo>, start: int, end: int)
    ensures
        first_conflict(parts, start, end) matches Some(i) ==> 0 <= i < parts.len()
            && !parts[i]@.removed,
{
    lemma_first_conflict_from(parts, start, end, 0);
}

/// Whether no two partitions of `parts` share a sector, those left out that
/// are flagged `REMOVE`.
pub open spec fn all_apart(parts: Seq<PartitionInfo>) -> bool {
    forall|i: int, j: int|
        0 <= i < j < parts.len() && !(#[trigger] parts[i])@.removed && !(
        #[trigger] parts[j])@.removed ==> !ranges_meet(
            parts[i]@.start_sector,
            parts[i]@.end_sector,
            parts[j]@.start_sector,
            parts[j]@.end_sector,
        )
}

/// Partitions that share no sector still share none once a partition is
/// added whose range has no conflict with them.
pub proof fn lemma_clear_partition_keeps_apart(parts: Seq<PartitionInfo>, part: PartitionInfo)
    requires
        all_apart(parts),
        all_valid(parts),
        part@.valid(),
        !has_conflict(parts, part@.start_sector, part@.end_sector),
    ensures
        all_apart(parts.push(part)),
{
    let after = parts.push(part);
    assert forall|i: int, j: int|
        0 <= i < j < after.len() && !(#[trigger] after[i])@.removed && !(
        #[trigger] after[j])@.removed implies !ranges_meet(
        after[i]@.start_sector,
        after[i]@.end_sector,
        after[j]@.start_sector,
        after[j]@.end_sector,
    ) by {
        if j < parts.len() {
            assert(after[i] == parts[i] && after[j] == parts[j]);
        } else {
            assert(after[i] == parts[i]);
            assert(parts[i]@.valid());
            assert(!parts[i]@.conflicts_with(part@.start_sector, part@.end_sector));
        }
    }
}

} // verus!
