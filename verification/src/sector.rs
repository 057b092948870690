use vstd::prelude::*;

verus! {

/// Bytes left free at the front and at the back of every device.
pub const MIB2: u64 = 2097152;

/// Bytes in the decimal megabyte that `Sector::Megabyte` counts in.
pub const MEGABYTE: u64 = 1000000;

/// The scale of `Sector::Percent`: the value that stands for the whole device.
pub const PERCENT_SCALE: u64 = 65535;

/// A position on a device, given the way a user would give it.
#[derive(Debug, Clone, Copy, PartialEq, Eq)]
pub enum Sector {
    /// The first sector behind the margin at the front.
    Start,
    /// The first sector of the margin at the back.
    End,
    /// So many decimal megabytes from the first sector of the device.
    Megabyte(u64),
    /// So many decimal megabytes before `End`.
    MegabyteFromEnd(u64),
    /// An absolute sector.
    Unit(u64),
    /// So many sectors before `End`.
    UnitFromEnd(u64),
    /// A share of the device, in 65535ths of its size in bytes.
    Percent(u16),
}

/// The number of sectors that the margin of `MIB2` bytes covers.
pub open spec fn margin(sector_size: int) -> int {
    MIB2 as int / sector_size
}

/// The number of whole sectors in `n` decimal megabytes.
pub open spec fn megabytes(n: int, sector_size: int) -> int {
    n * MEGABYTE as int / sector_size
}

impl Sector {
    /// The absolute sector that `self` stands for on a device of `sectors`
    /// sectors of `sector_size` bytes each. Every division rounds down.
    pub open spec fn absolute(self, sectors: int, sector_size: int) -> int
        recommends
            sector_size > 0,
    {
        match self {
            Sector::Start => margin(sector_size),
            Sector::End => sectors - margin(sector_size),
            Sector::Megabyte(n) => megabytes(n as int, sector_size),
            Sector::MegabyteFromEnd(n) => sectors - margin(sector_size) - megabytes(
                n as int,
                sector_size,
            ),
            Sector::Unit(n) => n as int,
            Sector::UnitFromEnd(n) => sectors - margin(sector_size) - n,
            Sector::Percent(v) => (sectors * sector_size) / (PERCENT_SCALE as int) * (v as int)
                / sector_size,
        }
    }

    /// Whether `self` names a sector that a `u64` can hold.
    pub open spec fn resolvable(self, sectors: int, sector_size: int) -> bool {
        &&& sector_size > 0
        &&& 0 <= self.absolute(sectors, sector_size) <= u64::MAX
    }

    /// Computes the absolute sector that `self` stands for.
    pub fn resolve(self, sectors: u64, sector_size: u64) -> (r: u64)
        requires
            self.resolvable(sectors as int, sector_size as int),
        ensures
            r == self.absolute(sectors as int, sector_size as int),
    {
        let front: u64 = MIB2 / sector_size;
        match self {
            Sector::Start => front,
            Sector::End => sectors - front,
            Sector::Megabyte(n) => whole_megabytes(n, sector_size) as u64,
            Sector::MegabyteFromEnd(n) => {
                let m: u128 = whole_megabytes(n, sector_size);
                (sectors - front) - (m as u64)
            },
            Sector::Unit(n) => n,
            Sector::UnitFromEnd(n) => (sectors - front) - n,
            Sector::Percent(v) => {
                proof {
                    lemma_share_bounds(sectors as int, sector_size as int, v as int);
                }
                let bytes: u128 = (sectors as u128) * (sector_size as u128);
                let share: u128 = bytes / (PERCENT_SCALE as u128) * (v as u128);
                (share / (sector_size as u128)) as u64
            },
        }
    }
}

/// The number of whole sectors in `n` decimal megabytes, in a type wide
/// enough for every `n`.
fn whole_megabytes(n: u64, sector_size: u64) -> (r: u128)
    requires
        sector_size > 0,
    ensures
        r == megabytes(n as int, sector_size as int),
{
    (n as u128) * (MEGABYTE as u128) / (sector_size as u128)
}

/// A share of a device never leaves the device: each step of
/// `Sector::Percent` stays within 128 bits, and its result within `sectors`.
proof fn lemma_share_bounds(sectors: int, sector_size: int, v: int)
    requires
        0 <= sectors <= u64::MAX,
        0 < sector_size <= u64::MAX,
        0 <= v <= PERCENT_SCALE,
    ensures
        0 <= sectors * sector_size <= u128::MAX,
        0 <= (sectors * sector_size) / (PERCENT_SCALE as int) * v <= sectors * sector_size,
        0 <= (sectors * sector_size) / (PERCENT_SCALE as int) * v / sector_size <= sectors,
{
    let bytes = sectors * sector_size;
    assert(0 <= bytes <= 0xffff_ffff_ffff_ffff * 0xffff_ffff_ffff_ffff) by (nonlinear_arith)
        requires
            bytes == sectors * sector_size,
            0 <= sectors <= 0xffff_ffff_ffff_ffff,
            0 < sector_size <= 0xffff_ffff_ffff_ffff,
    ;
    let unit = bytes / 65535;
    assert(0 <= unit && unit * 65535 <= bytes);
    assert(0 <= unit * v <= unit * 65535) by (nonlinear_arith)
        requires
            0 <= unit,
            0 <= v <= 65535,
    ;
    let share = unit * v;
    assert(0 <= share / sector_size <= sectors) by (nonlinear_arith)
        requires
            0 <= share <= sectors * sector_size,
            0 < sector_size,
            0 <= sectors,
    ;
}

/// On a device of more than four binary megabytes, `Sector::Start` lies
/// strictly before `Sector::End`.
pub proof fn lemma_start_before_end(sectors: int, sector_size: int)
    requires
        sector_size > 0,
        sectors * sector_size > 2 * MIB2,
    ensures
        Sector::Start.absolute(sectors, sector_size) < Sector::End.absolute(sectors, sector_size),
{
    let front = margin(sector_size);
    assert(front * sector_size <= MIB2) by (nonlinear_arith)
        requires
            front == MIB2 as int / sector_size,
            sector_size > 0,
    ;
    assert(2 * front < sectors) by (nonlinear_arith)
        requires
            front * sector_size <= MIB2,
            sectors * sector_size > 2 * MIB2,
            sector_size > 0,
    ;
}

/// The further back from the end a position is asked for, the smaller the
/// sector: `Sector::UnitFromEnd` is strictly decreasing in its argument.
pub proof fn lemma_unit_from_end_decreases(sectors: int, sector_size: int, near: u64, far: u64)
    requires
        near < far,
    ensures
        Sector::UnitFromEnd(far).absolute(sectors, sector_size) < Sector::UnitFromEnd(
            near,
        ).absolute(sectors, sector_size),
{
}

/// `Sector::MegabyteFromEnd` is strictly decreasing in its argument, as long
/// as a sector is no larger than a megabyte (on larger sectors two
/// neighbouring arguments can round to the same sector).
pub proof fn lemma_megabyte_from_end_decreases(
    sectors: int,
    sector_size: int,
    near: u64,
    far: u64,
)
    requires
        0 < sector_size <= MEGABYTE,
        near < far,
    ensures
        Sector::MegabyteFromEnd(far).absolute(sectors, sector_size) < Sector::MegabyteFromEnd(
            near,
        ).absolute(sectors, sector_size),
{
    let a = near as int * MEGABYTE as int;
    let b = far as int * MEGABYTE as int;
    assert(a + sector_size <= b);
    assert(a / sector_size < b / sector_size) by (nonlinear_arith)
        requires
            a + sector_size <= b,
            sector_size > 0,
    ;
}

} // verus!
