use crate::device::{DeviceSpec, PartitionMapType};
use crate::partition::PartitionSpec;
use crate::space::{
    first_fit, free_ranges, insert_index, region_fits, Allocator, Geometry, ONE_MIB,
};
use vstd::prelude::*;

verus! {

/// Highest partition number that an MBR table holds without extended
/// partitions.
pub const MBR_MAX_NUM: u32 = 4;

/// Last sector that an MBR entry can reach.
pub const MBR_MAX_LBA: u64 = 0xFFFF_FFFE;

/// Highest partition number that a GPT table holds.
pub const GPT_MAX_NUM: u32 = 128;

/// Why a partition table cannot be built from a device description.
#[derive(Clone, Copy, Debug, PartialEq, Eq, Structural)]
pub enum PlanError {
    /// The disk geometry is unusable.
    BadGeometry,
    /// A partition is numbered 0.
    NumberZero,
    /// This partition number needs an extended or logical MBR partition.
    ExtendedUnsupported(u32),
    /// This partition number is past the last GPT entry.
    SlotOutOfRange(u32),
    /// No free space is left for this partition.
    NoFreeSpace(u32),
    /// This partition takes the rest of the disk but is not the last one.
    FillNotLast(u32),
    /// Too little space is left for this partition.
    NotEnoughSpace(u32),
    /// This partition's size does not fit in an MBR entry.
    SizeTooLarge(u32),
    /// This partition's start does not fit in an MBR entry.
    StartTooLarge(u32),
    /// No free range holds this partition.
    NoSuitableSpace(u32),
    /// This partition leaves the usable area or overlaps another.
    DoesNotFit(u32),
    /// This partition's type has no code in the table's format.
    TypeUnsupported(u32),
    /// No partition holds the root filesystem.
    NoRootfs,
}

/// Where a partition was placed: `size` sectors from `start`.
#[derive(Clone, Copy, Debug, PartialEq, Eq, Structural)]
pub struct Placed {
    pub num: u32,
    pub start: u64,
    pub size: u64,
}

/// No other partition of the list has a number as high as the one at `i`.
pub open spec fn highest_numbered(parts: Seq<PartitionSpec>, i: int) -> bool {
    forall|j: int| 0 <= j < parts.len() && j != i ==> (#[trigger] parts[j]).num < parts[i].num
}

/// The size of the partition at `i`, given the free ranges `fr`: its own
/// size, or for size 0, the last free range less one sector.
pub open spec fn resolve_size(
    kind: PartitionMapType,
    g: Geometry,
    parts: Seq<PartitionSpec>,
    num_partitions: u32,
    i: int,
    fr: Seq<(u64, u64)>,
) -> Result<u64, PlanError> {
    let p = parts[i];
    let last_len = fr.last().1;
    if p.size != 0 {
        Ok(p.size)
    } else if !(p.num == num_partitions && highest_numbered(parts, i)) {
        Err(PlanError::FillNotLast(p.num))
    } else if kind == PartitionMapType::GPT && last_len < g.mib() {
        Err(PlanError::NotEnoughSpace(p.num))
    } else {
        Ok((last_len - 1) as u64)
    }
}

/// The start of the partition at `i` with `size` sectors: its explicit
/// start, one mebibyte for partition 1, or the first free range that
/// holds it.
pub open spec fn resolve_start(
    kind: PartitionMapType,
    g: Geometry,
    p: PartitionSpec,
    fr: Seq<(u64, u64)>,
    size: u64,
) -> Result<u64, PlanError> {
    match p.start_sector {
        Some(s) => if kind == PartitionMapType::MBR && s > u32::MAX {
            Err(PlanError::StartTooLarge(p.num))
        } else {
            Ok(s)
        },
        None => if p.num == 1 {
            Ok(g.mib())
        } else {
            match first_fit(fr, size) {
                Some(s) => Ok(s),
                None => Err(PlanError::NoSuitableSpace(p.num)),
            }
        },
    }
}

/// Where the partition at `i` goes, given the occupied regions `occ`.
pub open spec fn place_partition(
    kind: PartitionMapType,
    g: Geometry,
    parts: Seq<PartitionSpec>,
    num_partitions: u32,
    i: int,
    occ: Seq<(u64, u64)>,
) -> Result<Placed, PlanError> {
    let p = parts[i];
    let fr = free_ranges(g, occ);
    if p.num == 0 {
        Err(PlanError::NumberZero)
    } else if kind == PartitionMapType::MBR && p.num > MBR_MAX_NUM {
        Err(PlanError::ExtendedUnsupported(p.num))
    } else if kind == PartitionMapType::GPT && p.num > GPT_MAX_NUM {
        Err(PlanError::SlotOutOfRange(p.num))
    } else if fr.len() == 0 {
        Err(PlanError::NoFreeSpace(p.num))
    } else {
        match resolve_size(kind, g, parts, num_partitions, i, fr) {
            Err(e) => Err(e),
            Ok(size) => if kind == PartitionMapType::MBR && size > u32::MAX {
                Err(PlanError::SizeTooLarge(p.num))
            } else if kind == PartitionMapType::MBR && size < g.mib() {
                Err(PlanError::NotEnoughSpace(p.num))
            } else {
                match resolve_start(kind, g, p, fr, size) {
                    Err(e) => Err(e),
                    Ok(start) => if region_fits(g, occ, start, size) {
                        Ok(Placed { num: p.num, start, size })
                    } else {
                        Err(PlanError::DoesNotFit(p.num))
                    },
                }
            },
        }
    }
}

/// The placements of the first `k` partitions, and the regions they
/// occupy, in ascending order.
pub open spec fn plan_prefix(kind: PartitionMapType, g: Geometry, d: DeviceSpec, k: int) -> Result<
    (Seq<Placed>, Seq<(u64, u64)>),
    PlanError,
>
    decreases k,
{
    if k <= 0 {
        Ok((seq![], seq![]))
    } else {
        match plan_prefix(kind, g, d, k - 1) {
            Err(e) => Err(e),
            Ok((placed, occ)) => match place_partition(
                kind,
                g,
                d.partitions@,
                d.num_partitions,
                k - 1,
                occ,
            ) {
                Err(e) => Err(e),
                Ok(p) => Ok(
                    (
                        placed.push(p),
                        occ.insert(insert_index(occ, p.start), (p.start, (p.start + p.size - 1) as u64)),
                    ),
                ),
            },
        }
    }
}

/// The placement of every partition of `d`, in the order they are listed,
/// or the first reason one cannot be placed.
pub open spec fn layout(kind: PartitionMapType, g: Geometry, d: DeviceSpec) -> Result<
    Seq<Placed>,
    PlanError,
> {
    if !g.wf() || (kind == PartitionMapType::MBR && g.last_usable > MBR_MAX_LBA) {
        Err(PlanError::BadGeometry)
    } else {
        match plan_prefix(kind, g, d, d.partitions@.len() as int) {
            Err(e) => Err(e),
            Ok((placed, _)) => Ok(placed),
        }
    }
}

/// The regions occupied once the first `i` partitions are placed.
pub open spec fn occupied_before(kind: PartitionMapType, g: Geometry, d: DeviceSpec, i: int) -> Seq<
    (u64, u64),
> {
    plan_prefix(kind, g, d, i)->Ok_0.1
}

/// Once the first `m` partitions are placed, each placement is the one that
/// `place_partition` gives among the regions occupied before it.
pub proof fn lemma_plan_prefix_steps(kind: PartitionMapType, g: Geometry, d: DeviceSpec, m: int)
    requires
        0 <= m,
        plan_prefix(kind, g, d, m) is Ok,
    ensures
        plan_prefix(kind, g, d, m)->Ok_0.0.len() == m,
        forall|k: int|
            0 <= k < m ==> {
                &&& plan_prefix(kind, g, d, k) is Ok
                &&& #[trigger] place_partition(
                    kind,
                    g,
                    d.partitions@,
                    d.num_partitions,
                    k,
                    occupied_before(kind, g, d, k),
                ) == Ok::<Placed, PlanError>(plan_prefix(kind, g, d, m)->Ok_0.0[k])
            },
    decreases m,
{
    if m > 0 {
        lemma_plan_prefix_steps(kind, g, d, m - 1);
    }
}

/// Every partition of a layout lies, with at least one sector, within the
/// usable area, and keeps its number.
pub proof fn lemma_layout_bounds(kind: PartitionMapType, g: Geometry, d: DeviceSpec)
    requires
        layout(kind, g, d) is Ok,
    ensures
        layout(kind, g, d)->Ok_0.len() == d.partitions@.len(),
        forall|i: int|
            0 <= i < d.partitions@.len() ==> {
                let pl = #[trigger] layout(kind, g, d)->Ok_0[i];
                &&& pl.num == d.partitions@[i].num
                &&& pl.size > 0
                &&& g.first_usable <= pl.start
                &&& pl.start + pl.size - 1 <= g.last_usable
                &&& (kind == PartitionMapType::MBR ==> pl.size <= u32::MAX && pl.num <= MBR_MAX_NUM)
            },
        kind == PartitionMapType::MBR ==> g.last_usable <= MBR_MAX_LBA,
{
    let n = d.partitions@.len() as int;
    lemma_plan_prefix_steps(kind, g, d, n);
    assert forall|i: int| 0 <= i < n implies {
        let pl = #[trigger] layout(kind, g, d)->Ok_0[i];
        &&& pl.num == d.partitions@[i].num
        &&& pl.size > 0
        &&& g.first_usable <= pl.start
        &&& pl.start + pl.size - 1 <= g.last_usable
        &&& (kind == PartitionMapType::MBR ==> pl.size <= u32::MAX && pl.num <= MBR_MAX_NUM)
    } by {
        assert(place_partition(
            kind,
            g,
            d.partitions@,
            d.num_partitions,
            i,
            occupied_before(kind, g, d, i),
        ) is Ok);
    }
}

proof fn lemma_plan_prefix_within(kind: PartitionMapType, g: Geometry, d: DeviceSpec, k: int)
    requires
        0 <= k,
        plan_prefix(kind, g, d, k) is Ok,
    ensures
        crate::space::occupied_within(g, occupied_before(kind, g, d, k)),
    decreases k,
{
    if k > 0 {
        lemma_plan_prefix_within(kind, g, d, k - 1);
        let occ = occupied_before(kind, g, d, k - 1);
        let p = place_partition(kind, g, d.partitions@, d.num_partitions, k - 1, occ)->Ok_0;
        crate::space::lemma_insert_within(g, occ, p.start, p.size);
    }
}

/// A partition of size 0 in a layout is the highest-numbered one, its
/// number is the declared partition count, and it takes the last free
/// range, less one sector.
pub proof fn lemma_fill_takes_rest(kind: PartitionMapType, g: Geometry, d: DeviceSpec, i: int)
    requires
        layout(kind, g, d) is Ok,
        0 <= i < d.partitions@.len(),
        d.partitions@[i].size == 0,
    ensures
        highest_numbered(d.partitions@, i),
        d.partitions@[i].num == d.num_partitions,
        layout(kind, g, d)->Ok_0[i].size == free_ranges(g, occupied_before(kind, g, d, i)).last().1
            - 1,
{
    lemma_plan_prefix_steps(kind, g, d, d.partitions@.len() as int);
    let occ = occupied_before(kind, g, d, i);
    assert(place_partition(kind, g, d.partitions@, d.num_partitions, i, occ) is Ok);
    lemma_plan_prefix_within(kind, g, d, i);
    crate::space::lemma_free_ranges_nonempty(g, occ, occ.len() + 1int);
}

/// Partition 1, with no explicit start, starts one mebibyte into the disk:
/// sector 2048 with 512-byte sectors, sector 256 with 4096-byte sectors.
pub proof fn lemma_first_partition_at_one_mib(kind: PartitionMapType, g: Geometry, d: DeviceSpec, i: int)
    requires
        layout(kind, g, d) is Ok,
        0 <= i < d.partitions@.len(),
        d.partitions@[i].num == 1,
        d.partitions@[i].start_sector is None,
    ensures
        layout(kind, g, d)->Ok_0[i].start == g.mib(),
        g.sector_size == 512 ==> layout(kind, g, d)->Ok_0[i].start == 2048,
        g.sector_size == 4096 ==> layout(kind, g, d)->Ok_0[i].start == 256,
{
    lemma_plan_prefix_steps(kind, g, d, d.partitions@.len() as int);
    assert(place_partition(
        kind,
        g,
        d.partitions@,
        d.num_partitions,
        i,
        occupied_before(kind, g, d, i),
    ) is Ok);
}

fn is_highest_numbered(parts: &Vec<PartitionSpec>, i: usize) -> (r: bool)
    requires
        i < parts@.len(),
    ensures
        r == highest_numbered(parts@, i as int),
{
    let num = parts[i].num;
    let mut j: usize = 0;
    while j < parts.len()
        invariant
            i < parts@.len(),
            num == parts@[i as int].num,
            j <= parts@.len(),
            forall|k: int| 0 <= k < j && k != i ==> (#[trigger] parts@[k]).num < num,
        decreases parts@.len() - j,
    {
        if j != i && parts[j].num >= num {
            return false;
        }
        j = j + 1;
    }
    true
}

/// Places the partition at index `i` among the regions that `alloc` holds.
fn place(
    kind: PartitionMapType,
    alloc: &Allocator,
    parts: &Vec<PartitionSpec>,
    num_partitions: u32,
    i: usize,
) -> (r: Result<Placed, PlanError>)
    requires
        alloc.wf(),
        i < parts@.len(),
    ensures
        r == place_partition(kind, alloc.geometry, parts@, num_partitions, i as int, alloc.occupied@),
{
    let g = alloc.geometry;
    let p = &parts[i];
    let mib: u64 = ONE_MIB / g.sector_size;
    if p.num == 0 {
        return Err(PlanError::NumberZero);
    }
    if kind == PartitionMapType::MBR && p.num > MBR_MAX_NUM {
        return Err(PlanError::ExtendedUnsupported(p.num));
    }
    if kind == PartitionMapType::GPT && p.num > GPT_MAX_NUM {
        return Err(PlanError::SlotOutOfRange(p.num));
    }
    let fr = alloc.free_ranges();
    if fr.len() == 0 {
        return Err(PlanError::NoFreeSpace(p.num));
    }
    let last_len = fr[fr.len() - 1].1;
    let size: u64 = if p.size != 0 {
        p.size
    } else {
        if !(p.num == num_partitions && is_highest_numbered(parts, i)) {
            return Err(PlanError::FillNotLast(p.num));
        }
        if kind == PartitionMapType::GPT && last_len < mib {
            return Err(PlanError::NotEnoughSpace(p.num));
        }
        proof {
            crate::space::lemma_free_ranges_nonempty(
                g,
                alloc.occupied@,
                alloc.occupied@.len() + 1int,
            );
        }
        last_len - 1
    };
    if kind == PartitionMapType::MBR && size > 0xFFFF_FFFFu64 {
        return Err(PlanError::SizeTooLarge(p.num));
    }
    if kind == PartitionMapType::MBR && size < mib {
        return Err(PlanError::NotEnoughSpace(p.num));
    }
    let start: u64 = match p.start_sector {
        Some(s) => {
            if kind == PartitionMapType::MBR && s > 0xFFFF_FFFFu64 {
                return Err(PlanError::StartTooLarge(p.num));
            }
            s
        },
        None => {
            if p.num == 1 {
                mib
            } else {
                match crate::space::first_fit_in(&fr, size) {
                    Some(s) => s,
                    None => {
                        return Err(PlanError::NoSuitableSpace(p.num));
                    },
                }
            }
        },
    };
    if !alloc.fits(start, size) {
        return Err(PlanError::DoesNotFit(p.num));
    }
    Ok(Placed { num: p.num, start, size })
}

proof fn lemma_plan_prefix_err(kind: PartitionMapType, g: Geometry, d: DeviceSpec, k: int, m: int)
    requires
        0 <= k <= m,
        plan_prefix(kind, g, d, k) is Err,
    ensures
        plan_prefix(kind, g, d, m) == plan_prefix(kind, g, d, k),
    decreases m - k,
{
    if m > k {
        lemma_plan_prefix_err(kind, g, d, k, m - 1);
    }
}

/// Places every partition of `d` on a disk of geometry `g`, in the order
/// they are listed, as a table of kind `kind`.
pub fn plan_layout(kind: PartitionMapType, g: Geometry, d: &DeviceSpec) -> (r: Result<
    Vec<Placed>,
    PlanError,
>)
    ensures
        match r {
            Ok(v) => layout(kind, g, *d) == Ok::<Seq<Placed>, PlanError>(v@),
            Err(e) => layout(kind, g, *d) == Err::<Seq<Placed>, PlanError>(e),
        },
{
    if !(0 < g.sector_size && g.sector_size <= ONE_MIB && 0 < g.align && g.align <= ONE_MIB && 1
        <= g.first_usable && g.first_usable <= g.last_usable && g.last_usable
        <= crate::space::MAX_LBA) || (kind == PartitionMapType::MBR && g.last_usable > MBR_MAX_LBA) {
        return Err(PlanError::BadGeometry);
    }
    let mut alloc = Allocator::new(g);
    let mut placed: Vec<Placed> = Vec::new();
    let n = d.partitions.len();
    let mut i: usize = 0;
    while i < n
        invariant
            n == d.partitions@.len(),
            i <= n,
            g.wf(),
            !(kind == PartitionMapType::MBR && g.last_usable > MBR_MAX_LBA),
            alloc.wf(),
            alloc.geometry == g,
            plan_prefix(kind, g, *d, i as int) == Ok::<(Seq<Placed>, Seq<(u64, u64)>), PlanError>(
                (placed@, alloc.occupied@),
            ),
        decreases n - i,
    {
        match place(kind, &alloc, &d.partitions, d.num_partitions, i) {
            Err(e) => {
                proof {
                    lemma_plan_prefix_err(kind, g, *d, i + 1, n as int);
                }
                return Err(e);
            },
            Ok(p) => {
                alloc.occupy(p.start, p.size);
                placed.push(p);
            },
        }
        i = i + 1;
    }
    Ok(placed)
}

} // verus!
