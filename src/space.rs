use vstd::prelude::*;

verus! {

/// One mebibyte, in bytes.
pub const ONE_MIB: u64 = 1048576;

/// The highest sector number that a geometry may name.
pub const MAX_LBA: u64 = 0x3FFF_FFFF_FFFF_FFFF;

/// The usable area of a disk, in sectors, and the alignment of computed
/// partition starts.
#[derive(Clone, Copy, Debug)]
pub struct Geometry {
    /// Bytes per sector.
    pub sector_size: u64,
    /// First sector that a partition may use.
    pub first_usable: u64,
    /// Last sector that a partition may use.
    pub last_usable: u64,
    /// Computed starts are rounded up to a multiple of this many sectors.
    pub align: u64,
}

impl Geometry {
    pub open spec fn wf(self) -> bool {
        &&& 0 < self.sector_size <= ONE_MIB
        &&& 0 < self.align <= ONE_MIB
        &&& 1 <= self.first_usable <= self.last_usable <= MAX_LBA
    }

    /// One mebibyte in sectors.
    pub open spec fn mib(self) -> u64 {
        (ONE_MIB / self.sector_size) as u64
    }
}

/// `x` rounded up to a multiple of `a` (for `x >= 1`).
pub open spec fn round_up(x: int, a: int) -> int {
    ((x - 1) / a + 1) * a
}

/// Every occupied region lies within the usable area.
pub open spec fn occupied_within(g: Geometry, occ: Seq<(u64, u64)>) -> bool {
    forall|i: int|
        0 <= i < occ.len() ==> g.first_usable <= (#[trigger] occ[i]).0 <= occ[i].1 <= g.last_usable
}

/// First sector of gap `i`: the gaps lie before, between and after the
/// occupied regions.
pub open spec fn gap_start(g: Geometry, occ: Seq<(u64, u64)>, i: int) -> int {
    if i == 0 {
        g.first_usable as int
    } else {
        occ[i - 1].1 + 1
    }
}

/// First sector past gap `i`.
pub open spec fn gap_end(g: Geometry, occ: Seq<(u64, u64)>, i: int) -> int {
    if i == occ.len() {
        g.last_usable + 1
    } else {
        occ[i].0 as int
    }
}

/// The free range that gap `i` leaves once its start is aligned: none if
/// nothing is left.
pub open spec fn gap_piece(g: Geometry, occ: Seq<(u64, u64)>, i: int) -> Seq<(u64, u64)> {
    let a = round_up(gap_start(g, occ, i), g.align as int);
    let hi = gap_end(g, occ, i);
    if hi > a {
        seq![(a as u64, (hi - a) as u64)]
    } else {
        seq![]
    }
}

/// The free ranges of the first `k` gaps.
pub open spec fn free_prefix(g: Geometry, occ: Seq<(u64, u64)>, k: int) -> Seq<(u64, u64)>
    decreases k,
{
    if k <= 0 {
        seq![]
    } else {
        free_prefix(g, occ, k - 1) + gap_piece(g, occ, k - 1)
    }
}

/// The free ranges, as (start, length) pairs in the order of the occupied
/// regions: each gap with its start aligned, where anything is left of it.
pub open spec fn free_ranges(g: Geometry, occ: Seq<(u64, u64)>) -> Seq<(u64, u64)> {
    free_prefix(g, occ, occ.len() + 1int)
}

/// The start of the first free range from index `i` on that holds `size`
/// sectors.
pub open spec fn first_fit_from(fr: Seq<(u64, u64)>, size: u64, i: int) -> Option<u64>
    decreases fr.len() - i,
{
    if i < 0 || i >= fr.len() {
        None
    } else if fr[i].1 >= size {
        Some(fr[i].0)
    } else {
        first_fit_from(fr, size, i + 1)
    }
}

/// The start of the first free range that holds `size` sectors.
pub open spec fn first_fit(fr: Seq<(u64, u64)>, size: u64) -> Option<u64> {
    first_fit_from(fr, size, 0)
}

/// `size` sectors from `start` lie within the usable area and overlap no
/// occupied region.
pub open spec fn region_fits(g: Geometry, occ: Seq<(u64, u64)>, start: u64, size: u64) -> bool {
    &&& size > 0
    &&& g.first_usable <= start <= g.last_usable
    &&& size - 1 <= g.last_usable - start
    &&& forall|j: int|
        0 <= j < occ.len() ==> start + size - 1 < (#[trigger] occ[j]).0 || occ[j].1 < start
}

/// Where a region starting at `start` goes among the occupied regions from
/// index `i` on: before the first that starts after it.
pub open spec fn insert_index_from(occ: Seq<(u64, u64)>, start: u64, i: int) -> int
    decreases occ.len() - i,
{
    if i < 0 || i >= occ.len() {
        occ.len() as int
    } else if occ[i].0 > start {
        i
    } else {
        insert_index_from(occ, start, i + 1)
    }
}

pub open spec fn insert_index(occ: Seq<(u64, u64)>, start: u64) -> int {
    insert_index_from(occ, start, 0)
}

/// Every free range holds at least one sector.
pub proof fn lemma_free_ranges_nonempty(g: Geometry, occ: Seq<(u64, u64)>, k: int)
    requires
        g.wf(),
        occupied_within(g, occ),
        k <= occ.len() + 1,
    ensures
        forall|j: int|
            0 <= j < free_prefix(g, occ, k).len() ==> (#[trigger] free_prefix(g, occ, k)[j]).1 > 0,
    decreases k,
{
    if k > 0 {
        lemma_free_ranges_nonempty(g, occ, k - 1);
        let a = free_prefix(g, occ, k - 1);
        let b = gap_piece(g, occ, k - 1);
        assert forall|j: int| 0 <= j < (a + b).len() implies (#[trigger] (a + b)[j]).1 > 0 by {
            if j >= a.len() {
                let lo = gap_start(g, occ, k - 1);
                if k - 1 > 0 {
                    assert(g.first_usable <= occ[k - 2].0 <= occ[k - 2].1);
                }
                lemma_round_up(lo, g.align as int);
                if k - 1 < occ.len() {
                    assert(occ[k - 1].1 <= g.last_usable);
                }
                assert((a + b)[j] == b[j - a.len()]);
            }
        }
    }
}

proof fn lemma_insert_index_bounds(occ: Seq<(u64, u64)>, start: u64, i: int)
    requires
        0 <= i <= occ.len(),
    ensures
        i <= insert_index_from(occ, start, i) <= occ.len(),
    decreases occ.len() - i,
{
    if i < occ.len() && occ[i].0 <= start {
        lemma_insert_index_bounds(occ, start, i + 1);
    }
}

proof fn lemma_round_up(x: int, a: int)
    requires
        x >= 1,
        a >= 1,
    ensures
        x <= round_up(x, a) <= x - 1 + a,
{
    assert(((x - 1) / a) * a <= x - 1 && x - 1 < ((x - 1) / a + 1) * a) by (nonlinear_arith)
        requires
            x >= 1,
            a >= 1,
    ;
    assert(((x - 1) / a + 1) * a == ((x - 1) / a) * a + a) by (nonlinear_arith);
}

/// Occupying a region that fits keeps every region within the usable area.
pub proof fn lemma_insert_within(g: Geometry, occ: Seq<(u64, u64)>, start: u64, size: u64)
    requires
        occupied_within(g, occ),
        region_fits(g, occ, start, size),
    ensures
        occupied_within(
            g,
            occ.insert(insert_index(occ, start), (start, (start + size - 1) as u64)),
        ),
{
    let k = insert_index(occ, start);
    lemma_insert_index_bounds(occ, start, 0);
    let iv = (start, (start + size - 1) as u64);
    occ.insert_ensures(k, iv);
    let o2 = occ.insert(k, iv);
    assert forall|i: int| 0 <= i < o2.len() implies g.first_usable <= (#[trigger] o2[i]).0
        <= o2[i].1 <= g.last_usable by {
        if i > k {
            assert(o2[i] == occ[i - 1]);
        }
    }
}

/// The occupied regions of a partition table under construction, and the
/// geometry they lie in.
pub struct Allocator {
    pub geometry: Geometry,
    /// Occupied regions as (first, last) sectors, in ascending order.
    pub occupied: Vec<(u64, u64)>,
}

impl Allocator {
    pub open spec fn wf(&self) -> bool {
        self.geometry.wf() && occupied_within(self.geometry, self.occupied@)
    }

    /// An allocator with nothing occupied.
    pub fn new(geometry: Geometry) -> (r: Allocator)
        requires
            geometry.wf(),
        ensures
            r.wf(),
            r.geometry == geometry,
            r.occupied@ == Seq::<(u64, u64)>::empty(),
    {
        Allocator { geometry, occupied: Vec::new() }
    }

    /// The free ranges, as (start, length) pairs.
    pub fn free_ranges(&self) -> (r: Vec<(u64, u64)>)
        requires
            self.wf(),
        ensures
            r@ == free_ranges(self.geometry, self.occupied@),
    {
        let g = self.geometry;
        let n = self.occupied.len();
        let mut r: Vec<(u64, u64)> = Vec::new();
        let mut i: usize = 0;
        while i < n
            invariant
                self.wf(),
                g == self.geometry,
                n == self.occupied@.len(),
                i <= n,
                r@ == free_prefix(g, self.occupied@, i as int),
            decreases n - i,
        {
            self.push_gap(&mut r, i);
            i = i + 1;
        }
        self.push_gap(&mut r, n);
        r
    }

    /// Appends the free range that gap `i` leaves, if any.
    fn push_gap(&self, r: &mut Vec<(u64, u64)>, i: usize)
        requires
            self.wf(),
            i <= self.occupied@.len(),
        ensures
            final(r)@ == old(r)@ + gap_piece(self.geometry, self.occupied@, i as int),
    {
        let g = self.geometry;
        let lo: u64 = if i == 0 {
            g.first_usable
        } else {
            self.occupied[i - 1].1 + 1
        };
        let hi: u64 = if i == self.occupied.len() {
            g.last_usable + 1
        } else {
            self.occupied[i].0
        };
        proof {
            lemma_round_up(lo as int, g.align as int);
        }
        let a: u64 = ((lo - 1) / g.align + 1) * g.align;
        if hi > a {
            r.push((a, hi - a));
        }
        assert(r@ =~= old(r)@ + gap_piece(g, self.occupied@, i as int));
    }

    /// The start of the first free range that holds `size` sectors.
    pub fn find_first_fit(&self, size: u64) -> (r: Option<u64>)
        requires
            self.wf(),
        ensures
            r == first_fit(free_ranges(self.geometry, self.occupied@), size),
    {
        let fr = self.free_ranges();
        first_fit_in(&fr, size)
    }

    /// Whether `size` sectors from `start` are free and usable.
    pub fn fits(&self, start: u64, size: u64) -> (r: bool)
        requires
            self.wf(),
        ensures
            r == region_fits(self.geometry, self.occupied@, start, size),
    {
        let g = self.geometry;
        if size == 0 || start < g.first_usable || start > g.last_usable || size - 1
            > g.last_usable - start {
            return false;
        }
        let end = start + (size - 1);
        let mut j: usize = 0;
        while j < self.occupied.len()
            invariant
                j <= self.occupied@.len(),
                end == start + size - 1,
                forall|k: int|
                    0 <= k < j ==> end < (#[trigger] self.occupied@[k]).0 || self.occupied@[k].1
                        < start,
            decreases self.occupied@.len() - j,
        {
            let (s, e) = self.occupied[j];
            if !(end < s || e < start) {
                return false;
            }
            j = j + 1;
        }
        true
    }

    /// Marks `size` sectors from `start` as occupied, keeping the regions in
    /// ascending order.
    pub fn occupy(&mut self, start: u64, size: u64)
        requires
            old(self).wf(),
            region_fits(old(self).geometry, old(self).occupied@, start, size),
        ensures
            final(self).wf(),
            final(self).geometry == old(self).geometry,
            final(self).occupied@ == old(self).occupied@.insert(
                insert_index(old(self).occupied@, start),
                (start, (start + size - 1) as u64),
            ),
    {
        let ghost occ = self.occupied@;
        let n = self.occupied.len();
        let mut k: usize = 0;
        while k < n && self.occupied[k].0 <= start
            invariant
                self.occupied@ == occ,
                n == occ.len(),
                k <= n,
                insert_index(occ, start) == insert_index_from(occ, start, k as int),
            decreases n - k,
        {
            k = k + 1;
        }
        let end = start + (size - 1);
        self.occupied.insert(k, (start, end));
        proof {
            occ.insert_ensures(k as int, (start, end));
            let g = self.geometry;
            assert forall|i: int| 0 <= i < self.occupied@.len() implies g.first_usable
                <= (#[trigger] self.occupied@[i]).0 <= self.occupied@[i].1 <= g.last_usable by {
                if i > k {
                    assert(self.occupied@[i] == occ[i - 1]);
                }
            }
        }
    }
}

/// The start of the first range in `fr` that holds `size` sectors.
pub fn first_fit_in(fr: &Vec<(u64, u64)>, size: u64) -> (r: Option<u64>)
    ensures
        r == first_fit(fr@, size),
{
    let mut i: usize = 0;
    while i < fr.len()
        invariant
            i <= fr@.len(),
            first_fit(fr@, size) == first_fit_from(fr@, size, i as int),
        decreases fr@.len() - i,
    {
        if fr[i].1 >= size {
            return Some(fr[i].0);
        }
        i = i + 1;
    }
    None
}

} // verus!
