//! Bump allocation of 4 KiB physical frames out of the usable regions of the
//! bootloader's memory map.
use vstd::prelude::*;

verus! {

/// Size of a physical frame in bytes.
pub const FRAME_SIZE: u64 = 4096;

/// One past the highest physical address: bits 52..64 of a physical address are zero.
pub const PHYS_ADDR_LIMIT: u64 = 0x10_0000_0000_0000;

/// The memory type of a region of the boot memory map.
#[derive(Clone, Copy, PartialEq, Eq, Structural, Debug)]
pub enum MemoryRegionKind {
    /// Unused conventional memory, free for the kernel.
    Usable,
    /// Memory mappings created by the bootloader.
    Bootloader,
    /// An unknown region reported by the UEFI firmware, with its memory type tag.
    UnknownUefi(u32),
    /// An unknown region reported by the BIOS firmware, with its E820 type.
    UnknownBios(u32),
}

/// A region `[start, end)` of physical memory and its type.
#[derive(Clone, Copy, PartialEq, Eq, Structural, Debug)]
pub struct MemoryRegion {
    pub start: u64,
    pub end: u64,
    pub kind: MemoryRegionKind,
}

/// A 4 KiB physical frame, given by its start address.
#[derive(Clone, Copy, PartialEq, Eq, Structural, Debug)]
pub struct Frame {
    pub start: u64,
}

impl Frame {
    /// The physical address of the first byte of the frame.
    pub fn start_address(&self) -> (r: u64)
        ensures
            r == self.start,
    {
        self.start
    }
}

/// `a` rounded up to the next multiple of the frame size.
pub open spec fn align_up(a: int) -> int {
    if a % 4096 == 0 {
        a
    } else {
        a - a % 4096 + 4096
    }
}

pub open spec fn is_usable(r: MemoryRegion) -> bool {
    r.kind is Usable
}

/// Number of frames a region contributes: one per whole 4 KiB frame that
/// fits in `[align_up(start), end)`, none for a region that is not usable.
pub open spec fn region_frame_count(r: MemoryRegion) -> nat {
    if is_usable(r) && align_up(r.start as int) < r.end {
        ((r.end - align_up(r.start as int)) / 4096) as nat
    } else {
        0
    }
}

/// The frame start addresses a region contributes, in ascending order.
pub open spec fn region_frames(r: MemoryRegion) -> Seq<u64> {
    Seq::new(region_frame_count(r), |k: int| (align_up(r.start as int) + 4096 * k) as u64)
}

/// Every frame of the usable regions of a memory map, region by region in map order.
pub open spec fn usable_frames(regions: Seq<MemoryRegion>) -> Seq<u64>
    decreases regions.len(),
{
    if regions.len() == 0 {
        Seq::empty()
    } else {
        usable_frames(regions.drop_last()) + region_frames(regions.last())
    }
}

/// The addresses of a usable region are valid physical addresses, and its
/// start can be rounded up to a frame boundary without overflow.
pub open spec fn region_addresses_valid(r: MemoryRegion) -> bool {
    is_usable(r) ==> (r.end <= PHYS_ADDR_LIMIT && r.start <= u64::MAX - 4095)
}

pub open spec fn memory_map_valid(regions: Seq<MemoryRegion>) -> bool {
    forall|i: int| 0 <= i < regions.len() ==> #[trigger] region_addresses_valid(regions[i])
}

/// No two usable regions of the map overlap.
pub open spec fn usable_regions_disjoint(regions: Seq<MemoryRegion>) -> bool {
    forall|i: int, j: int|
        0 <= i < regions.len() && 0 <= j < regions.len() && i != j && is_usable(
            #[trigger] regions[i],
        ) && is_usable(#[trigger] regions[j]) ==> regions[i].end <= regions[j].start
            || regions[j].end <= regions[i].start
}

/// Bump allocator over the usable regions of the memory map: each
/// allocation hands out the next frame and advances a cursor. Frames are
/// never reclaimed.
#[derive(Debug)]
pub struct BootInfoFrameAllocator {
    memory_map: Vec<MemoryRegion>,
    next: usize,
}

impl BootInfoFrameAllocator {
    /// The memory map the allocator hands frames out of.
    pub closed spec fn regions(&self) -> Seq<MemoryRegion> {
        self.memory_map@
    }

    /// How many allocations have been made so far.
    pub closed spec fn cursor(&self) -> nat {
        self.next as nat
    }

    pub closed spec fn wf(&self) -> bool {
        memory_map_valid(self.memory_map@)
    }

    /// An allocator over `memory_map` that has handed out no frame yet.
    pub fn init(memory_map: Vec<MemoryRegion>) -> (r: Self)
        requires
            memory_map_valid(memory_map@),
        ensures
            r.wf(),
            r.regions() == memory_map@,
            r.cursor() == 0,
    {
        BootInfoFrameAllocator { memory_map, next: 0 }
    }

    /// The number of allocations made so far.
    pub fn allocated(&self) -> (r: usize)
        ensures
            r == self.cursor(),
    {
        self.next
    }

    /// The `n`-th frame of the usable regions, if there are that many.
    pub fn nth_usable_frame(&self, n: usize) -> (r: Option<Frame>)
        requires
            self.wf(),
        ensures
            r == (if n < usable_frames(self.regions()).len() {
                Some(Frame { start: usable_frames(self.regions())[n as int] })
            } else {
                None::<Frame>
            }),
    {
        let ghost regions = self.memory_map@;
        let mut remaining: u64 = n as u64;
        let mut i: usize = 0;
        while i < self.memory_map.len()
            invariant
                0 <= i <= regions.len(),
                regions == self.memory_map@,
                memory_map_valid(regions),
                remaining + usable_frames(regions.take(i as int)).len() == n,
            decreases regions.len() - i,
        {
            let region = self.memory_map[i];
            proof {
                lemma_usable_frames_take_step(regions, i as int);
                assert(region_addresses_valid(regions[i as int]));
            }
            match region.kind {
                MemoryRegionKind::Usable => {
                    let aligned = align_up_exec(region.start);
                    if aligned < region.end {
                        let count: u64 = (region.end - aligned) / 4096;
                        if remaining < count {
                            let addr: u64 = aligned + remaining * 4096;
                            proof {
                                lemma_frame_in_region(aligned as int, region.end as int, remaining as int);
                                lemma_usable_frames_prefix(regions, i as int + 1, regions.len() as int);
                                assert(regions.take(regions.len() as int) =~= regions);
                            }
                            return Some(Frame { start: addr });
                        }
                        remaining = remaining - count;
                    }
                }
                _ => {}
            }
            i = i + 1;
        }
        proof {
            assert(regions.take(regions.len() as int) =~= regions);
        }
        None
    }

    /// Hands out the next frame, or `None` once the usable regions are
    /// exhausted. The cursor advances either way.
    pub fn allocate_frame(&mut self) -> (r: Option<Frame>)
        requires
            old(self).wf(),
            old(self).cursor() < usize::MAX,
        ensures
            final(self).wf(),
            final(self).regions() == old(self).regions(),
            final(self).cursor() == old(self).cursor() + 1,
            r == (if old(self).cursor() < usable_frames(old(self).regions()).len() {
                Some(Frame { start: usable_frames(old(self).regions())[old(self).cursor() as int] })
            } else {
                None::<Frame>
            }),
    {
        let frame = self.nth_usable_frame(self.next);
        self.next = self.next + 1;
        frame
    }
}

/// Rounds `a` up to the next multiple of the frame size.
fn align_up_exec(a: u64) -> (r: u64)
    requires
        a <= u64::MAX - 4095,
    ensures
        r == align_up(a as int),
{
    let rem = a % 4096;
    if rem == 0 {
        a
    } else {
        a - rem + 4096
    }
}

proof fn lemma_frame_in_region(aligned: int, end: int, k: int)
    requires
        0 <= aligned < end,
        0 <= k < (end - aligned) / 4096,
    ensures
        aligned + 4096 * k + 4096 <= end,
        k * 4096 == 4096 * k,
{
    assert(aligned + 4096 * k + 4096 <= end) by (nonlinear_arith)
        requires
            0 <= aligned < end,
            0 <= k < (end - aligned) / 4096,
    ;
    assert(k * 4096 == 4096 * k) by (nonlinear_arith);
}

/// Taking one more region of the map appends that region's frames.
pub proof fn lemma_usable_frames_take_step(regions: Seq<MemoryRegion>, i: int)
    requires
        0 <= i < regions.len(),
    ensures
        usable_frames(regions.take(i + 1)) == usable_frames(regions.take(i)) + region_frames(
            regions[i],
        ),
{
    assert(regions.take(i + 1).drop_last() =~= regions.take(i));
    assert(regions.take(i + 1).last() == regions[i]);
}

/// The frames of a prefix of the map are a prefix of the frames of a longer prefix.
pub proof fn lemma_usable_frames_prefix(regions: Seq<MemoryRegion>, i: int, j: int)
    requires
        0 <= i <= j <= regions.len(),
    ensures
        usable_frames(regions.take(i)).len() <= usable_frames(regions.take(j)).len(),
        forall|k: int|
            0 <= k < usable_frames(regions.take(i)).len() ==> #[trigger] usable_frames(
                regions.take(j),
            )[k] == usable_frames(regions.take(i))[k],
    decreases j - i,
{
    if i < j {
        lemma_usable_frames_prefix(regions, i, j - 1);
        lemma_usable_frames_take_step(regions, j - 1);
    }
}


proof fn lemma_align_up(a: int)
    requires
        a >= 0,
    ensures
        align_up(a) % 4096 == 0,
        a <= align_up(a) < a + 4096,
{
    assert(align_up(a) % 4096 == 0 && a <= align_up(a) < a + 4096) by (nonlinear_arith)
        requires
            a >= 0,
            align_up(a) == (if a % 4096 == 0 {
                a
            } else {
                a - a % 4096 + 4096
            }),
    ;
}

/// The `k`-th frame of a region lies wholly in the region and is frame aligned.
proof fn lemma_region_frame(r: MemoryRegion, k: int)
    requires
        0 <= k < region_frames(r).len(),
    ensures
        is_usable(r),
        r.start <= region_frames(r)[k],
        region_frames(r)[k] + 4096 <= r.end,
        region_frames(r)[k] == align_up(r.start as int) + 4096 * k,
        region_frames(r)[k] % 4096 == 0,
{
    let a = align_up(r.start as int);
    lemma_align_up(r.start as int);
    lemma_frame_in_region(a, r.end as int, k);
    assert((a + 4096 * k) % 4096 == 0) by (nonlinear_arith)
        requires
            a % 4096 == 0,
            k >= 0,
    ;
}

/// The index of the region of the map the `k`-th usable frame comes from.
proof fn lemma_frame_source(regions: Seq<MemoryRegion>, k: int) -> (i: int)
    requires
        0 <= k < usable_frames(regions).len(),
    ensures
        0 <= i < regions.len(),
        is_usable(regions[i]),
        regions[i].start <= usable_frames(regions)[k],
        usable_frames(regions)[k] + 4096 <= regions[i].end,
        usable_frames(regions)[k] % 4096 == 0,
    decreases regions.len(),
{
    let prefix = usable_frames(regions.drop_last());
    if k < prefix.len() {
        let j = lemma_frame_source(regions.drop_last(), k);
        j
    } else {
        lemma_region_frame(regions.last(), k - prefix.len());
        regions.len() - 1
    }
}

/// Every frame the allocator can hand out is 4 KiB aligned and lies wholly,
/// all its 4096 bytes, inside a usable region of the memory map.
pub proof fn lemma_usable_frames_aligned_and_usable(regions: Seq<MemoryRegion>)
    ensures
        forall|k: int|
            0 <= k < usable_frames(regions).len() ==> #[trigger] usable_frames(regions)[k] % 4096
                == 0,
        forall|k: int|
            0 <= k < usable_frames(regions).len() ==> exists|i: int|
                0 <= i < regions.len() && is_usable(regions[i]) && regions[i].start
                    <= #[trigger] usable_frames(regions)[k] && usable_frames(regions)[k] + 4096
                    <= regions[i].end,
{
    assert forall|k: int| 0 <= k < usable_frames(regions).len() implies #[trigger] usable_frames(
        regions,
    )[k] % 4096 == 0 && exists|i: int|
        0 <= i < regions.len() && is_usable(regions[i]) && regions[i].start <= usable_frames(
            regions,
        )[k] && usable_frames(regions)[k] + 4096 <= regions[i].end by {
        let i = lemma_frame_source(regions, k);
    }
}



proof fn lemma_empty_regions_add_no_frames(regions: Seq<MemoryRegion>, i: int, m: int)
    requires
        0 <= i <= m <= regions.len(),
        forall|k: int| i <= k < m ==> region_frame_count(#[trigger] regions[k]) == 0,
    ensures
        usable_frames(regions.take(m)).len() == usable_frames(regions.take(i)).len(),
    decreases m - i,
{
    if m > i {
        lemma_empty_regions_add_no_frames(regions, i, m - 1);
        lemma_usable_frames_take_step(regions, m - 1);
    }
}

/// After the whole frames of one region come those of the next region that
/// holds a frame: the cursor crosses from region `i` into region `j` when
/// the regions between them hold none.
pub proof fn lemma_crossing_into_next_region(regions: Seq<MemoryRegion>, i: int, j: int)
    requires
        0 <= i < j < regions.len(),
        forall|k: int| i < k < j ==> region_frame_count(#[trigger] regions[k]) == 0,
        region_frame_count(regions[j]) > 0,
    ensures
        usable_frames(regions.take(i + 1)).len() < usable_frames(regions).len(),
        usable_frames(regions)[usable_frames(regions.take(i + 1)).len() as int] == align_up(
            regions[j].start as int,
        ),
        is_usable(regions[j]),
        regions[j].start <= usable_frames(regions)[usable_frames(regions.take(i + 1)).len() as int],
        usable_frames(regions)[usable_frames(regions.take(i + 1)).len() as int] + 4096 <= regions[j].end,
{
    lemma_empty_regions_add_no_frames(regions, i + 1, j);
    lemma_frames_in_map_order(regions, j, 0);
    lemma_region_frame(regions[j], 0);
}


/// Every whole 4 KiB frame of a usable region is handed out: a frame-aligned
/// address `f` whose frame `[f, f + 4096)` lies inside usable region `i` is
/// one of the allocator's frames, at the position after the frames of the
/// regions before `i` and the frames of region `i` below `f`.
pub proof fn lemma_every_whole_frame_is_handed_out(regions: Seq<MemoryRegion>, i: int, f: int)
    requires
        0 <= i < regions.len(),
        is_usable(regions[i]),
        f % 4096 == 0,
        regions[i].start <= f,
        f + 4096 <= regions[i].end,
    ensures
        usable_frames(regions.take(i)).len() + (f - align_up(regions[i].start as int)) / 4096
            < usable_frames(regions).len(),
        usable_frames(regions)[usable_frames(regions.take(i)).len() + (f - align_up(
            regions[i].start as int,
        )) / 4096] == f,
{
    let r = regions[i];
    let a = align_up(r.start as int);
    lemma_align_up(r.start as int);
    assert(a <= f) by (nonlinear_arith)
        requires
            f % 4096 == 0,
            r.start <= f,
            a % 4096 == 0,
            r.start <= a < r.start + 4096,
    ;
    let k = (f - a) / 4096;
    assert(k * 4096 == f - a && 0 <= k && k < (r.end - a) / 4096) by (nonlinear_arith)
        requires
            f % 4096 == 0,
            a % 4096 == 0,
            a <= f,
            f + 4096 <= r.end,
            k == (f - a) / 4096,
    ;
    assert(a < r.end);
    assert(k < region_frame_count(r));
    lemma_frames_in_map_order(regions, i, k);
}

/// No usable region of the map overlaps a region of another kind.
pub open spec fn usable_regions_apart(regions: Seq<MemoryRegion>) -> bool {
    forall|i: int, j: int|
        0 <= i < regions.len() && 0 <= j < regions.len() && is_usable(#[trigger] regions[i])
            && !is_usable(#[trigger] regions[j]) ==> regions[i].end <= regions[j].start
            || regions[j].end <= regions[i].start
}

/// When usable regions overlap no region of another kind, no frame handed
/// out overlaps memory that the map gives to something else.
pub proof fn lemma_frames_avoid_other_owners(regions: Seq<MemoryRegion>, k: int, j: int)
    requires
        usable_regions_apart(regions),
        0 <= k < usable_frames(regions).len(),
        0 <= j < regions.len(),
        !is_usable(regions[j]),
    ensures
        usable_frames(regions)[k] + 4096 <= regions[j].start || regions[j].end
            <= usable_frames(regions)[k],
{
    let i = lemma_frame_source(regions, k);
}

/// When the usable regions of the map do not overlap, no frame is handed out twice.
pub proof fn lemma_usable_frames_distinct(regions: Seq<MemoryRegion>)
    requires
        usable_regions_disjoint(regions),
    ensures
        usable_frames(regions).no_duplicates(),
    decreases regions.len(),
{
    if regions.len() > 0 {
        let init = regions.drop_last();
        let last = regions.last();
        assert(usable_regions_disjoint(init)) by {
            assert forall|i: int, j: int|
                0 <= i < init.len() && 0 <= j < init.len() && i != j && is_usable(
                    #[trigger] init[i],
                ) && is_usable(#[trigger] init[j]) implies init[i].end <= init[j].start
                || init[j].end <= init[i].start by {
                assert(init[i] == regions[i] && init[j] == regions[j]);
            }
        }
        lemma_usable_frames_distinct(init);
        let a = usable_frames(init);
        let b = region_frames(last);
        let s = usable_frames(regions);
        assert(s == a + b);
        assert forall|x: int, y: int| 0 <= x < s.len() && 0 <= y < s.len() && x != y implies s[x]
            != s[y] by {
            if x < a.len() && y < a.len() {
                assert(s[x] == a[x] && s[y] == a[y]);
            } else if x >= a.len() && y >= a.len() {
                lemma_region_frame(last, x - a.len());
                lemma_region_frame(last, y - a.len());
            } else {
                let (p, q) = if x < a.len() {
                    (x, y)
                } else {
                    (y, x)
                };
                let i = lemma_frame_source(init, p);
                lemma_region_frame(last, q - a.len());
                assert(init[i] == regions[i]);
                assert(regions[regions.len() - 1] == last);
                assert(s[p] == a[p]);
            }
        }
    }
}

/// Frames come region by region in map order: after the frames of the first
/// `i` regions come those of region `i`, in ascending order.
pub proof fn lemma_frames_in_map_order(regions: Seq<MemoryRegion>, i: int, k: int)
    requires
        0 <= i < regions.len(),
        0 <= k < region_frame_count(regions[i]),
    ensures
        usable_frames(regions.take(i)).len() + k < usable_frames(regions).len(),
        usable_frames(regions)[usable_frames(regions.take(i)).len() + k] == align_up(
            regions[i].start as int,
        ) + 4096 * k,
{
    lemma_usable_frames_take_step(regions, i);
    lemma_usable_frames_prefix(regions, i + 1, regions.len() as int);
    assert(regions.take(regions.len() as int) =~= regions);
    lemma_region_frame(regions[i], k);
    let n = usable_frames(regions.take(i)).len() + k;
    assert(usable_frames(regions.take(i + 1))[n] == region_frames(regions[i])[k]);
}

} // verus!
