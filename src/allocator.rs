//! The DMA allocator: a bitmap of fixed-size units over one region of
//! device-visible memory, handing out guards that own contiguous runs.

use vstd::prelude::*;

use xalloc::{BitmapAlloc, BitmapAllocRegion};

verus! {

#[verifier::external_type_specification]
#[verifier::external_body]
pub struct ExBitmapAlloc(BitmapAlloc);

#[verifier::external_type_specification]
#[verifier::external_body]
pub struct ExBitmapAllocRegion(BitmapAllocRegion);

/// The units that a bitmap marks as in use.
pub uninterp spec fn bitmap_used(a: BitmapAlloc) -> Set<int>;

/// The number of units a bitmap was made with.
pub uninterp spec fn bitmap_size(a: BitmapAlloc) -> nat;

/// The units that a region handle stands for.
pub uninterp spec fn region_units(r: BitmapAllocRegion) -> Set<int>;

/// The units `start .. start + n`.
pub open spec fn unit_range(start: int, n: int) -> Set<int> {
    Set::new(|u: int| start <= u < start + n)
}

/// Whether units `start .. start + n` all lie below `size` and are free.
pub open spec fn run_free(used: Set<int>, size: int, start: int, n: int) -> bool {
    &&& 0 <= start
    &&& start + n <= size
    &&& forall|u: int| start <= u < start + n ==> !used.contains(u)
}

/// Relies on `xalloc::BitmapAlloc::new`: a bitmap of `size` units, all free.
/// It rounds `size` up to whole words, and allocation adds a unit index to a
/// run length, so `size` stays well clear of the top of `usize`.
#[verifier::external_body]
fn bitmap_new(size: usize) -> (r: BitmapAlloc)
    requires
        size <= usize::MAX / 4,
    ensures
        bitmap_size(r) == size,
        bitmap_used(r) == Set::<int>::empty(),
{
    BitmapAlloc::new(size)
}

/// Relies on `xalloc::BitmapAlloc::alloc`: next-fit from the end of the last
/// allocation, then first-fit from unit 0; on success it marks the run in
/// use and returns a handle to it with its first unit; it returns `None`
/// only when no run of `n` free units exists. It asserts `n != 0`.
#[verifier::external_body]
fn bitmap_alloc(a: &mut BitmapAlloc, n: usize) -> (r: Option<(BitmapAllocRegion, usize)>)
    requires
        n > 0,
        n <= bitmap_size(*old(a)),
    ensures
        bitmap_size(*final(a)) == bitmap_size(*old(a)),
        match r {
            Some((region, start)) => {
                &&& run_free(bitmap_used(*old(a)), bitmap_size(*old(a)) as int, start as int, n as int)
                &&& bitmap_used(*final(a)) == bitmap_used(*old(a)).union(
                    unit_range(start as int, n as int),
                )
                &&& region_units(region) == unit_range(start as int, n as int)
            },
            None => {
                &&& bitmap_used(*final(a)) == bitmap_used(*old(a))
                &&& forall|s: int|
                    !run_free(bitmap_used(*old(a)), bitmap_size(*old(a)) as int, s, n as int)
            },
        },
{
    a.alloc(n)
}

/// Relies on `xalloc::BitmapAlloc::dealloc_relaxed`: clears the region's
/// units without checking that they were in use. It panics on units past
/// the end of the bitmap.
#[verifier::external_body]
fn bitmap_dealloc(a: &mut BitmapAlloc, region: BitmapAllocRegion)
    requires
        forall|u: int| region_units(region).contains(u) ==> 0 <= u < bitmap_size(*old(a)),
    ensures
        bitmap_size(*final(a)) == bitmap_size(*old(a)),
        bitmap_used(*final(a)) == bitmap_used(*old(a)).difference(region_units(region)),
{
    a.dealloc_relaxed(region)
}

/// Exclusive ownership of `count` units from `start`, which lie at device
/// address `addr` and span `len` bytes.
pub struct AllocationGuard {
    pub region: BitmapAllocRegion,
    pub start: usize,
    pub count: usize,
    pub addr: u64,
    pub len: u64,
}

impl AllocationGuard {
    /// The units the guard owns.
    pub open spec fn units(&self) -> Set<int> {
        unit_range(self.start as int, self.count as int)
    }

    pub open spec fn wf(&self) -> bool {
        region_units(self.region) == self.units()
    }

    /// Device address of the owned memory.
    pub fn as_ptr(&self) -> (r: u64)
        ensures
            r == self.addr,
    {
        self.addr
    }
}

/// Hands out runs of `granularity`-byte units of the DMA region at device
/// address `base`.
pub struct Allocator {
    pub allocator: BitmapAlloc,
    pub granularity: u64,
    pub base: u64,
    pub units: usize,
}

impl Allocator {
    /// The units in use.
    pub open spec fn used(&self) -> Set<int> {
        bitmap_used(self.allocator)
    }

    /// Every unit starts at an address that is a multiple of the
    /// granularity.
    pub proof fn lemma_aligned(&self, u: int)
        requires
            self.wf(),
            0 <= u,
        ensures
            self.addr_of(u) % (self.granularity as int) == 0,
    {
        let g = self.granularity as int;
        let b = self.base as int;
        vstd::arithmetic::div_mod::lemma_mod_multiples_vanish(u, b, g);
        assert(b + g * u == g * u + b);
    }

    /// Device address of unit `u`.
    pub open spec fn addr_of(&self, u: int) -> int {
        self.base + self.granularity * u
    }

    pub open spec fn wf(&self) -> bool {
        &&& self.granularity > 0
        &&& self.base % self.granularity == 0
        &&& self.base + self.granularity * self.units <= u64::MAX
        &&& bitmap_size(self.allocator) == self.units
        &&& forall|u: int| self.used().contains(u) ==> 0 <= u < self.units
    }

    /// What `allocate(n)` leaves behind: a guard for a run that was free,
    /// now in use, or nothing at all when no such run existed.
    pub open spec fn alloc_post(
        old: Allocator,
        n: usize,
        r: Option<AllocationGuard>,
        new: Allocator,
    ) -> bool {
        &&& new.wf()
        &&& new.granularity == old.granularity
        &&& new.base == old.base
        &&& new.units == old.units
        &&& r is Some <==> exists|s: int| run_free(old.used(), old.units as int, s, n as int)
        &&& match r {
            Some(g) => {
                &&& g.wf()
                &&& g.count == n
                &&& run_free(old.used(), old.units as int, g.start as int, n as int)
                &&& new.used() == old.used().union(g.units())
                &&& g.addr == old.addr_of(g.start as int)
                &&& g.addr % old.granularity == 0
                &&& g.len == old.granularity * n
            },
            None => new.used() == old.used(),
        }
    }

    /// An allocator over the `len` bytes of DMA memory at device address
    /// `base`, in units of `granularity` bytes, all free.
    pub fn new(base: u64, len: u64, granularity: u64) -> (r: Allocator)
        requires
            granularity > 0,
            base % granularity == 0,
            base + len <= u64::MAX,
            len / granularity <= usize::MAX / 4,
        ensures
            r.wf(),
            r.base == base,
            r.granularity == granularity,
            r.units == len / granularity,
            r.used() == Set::<int>::empty(),
    {
        let units = (len / granularity) as usize;
        assert(granularity * (len / granularity) <= len) by (nonlinear_arith)
            requires
                granularity > 0,
        ;
        Allocator { allocator: bitmap_new(units), granularity, base, units }
    }

    /// Finds `n` contiguous free units and hands out a guard for them;
    /// `None` when there is no such run. Nothing is moved to make room.
    pub fn allocate(&mut self, n: usize) -> (r: Option<AllocationGuard>)
        requires
            old(self).wf(),
            n > 0,
        ensures
            Self::alloc_post(*old(self), n, r, *final(self)),
    {
        if n > self.units {
            proof {
                assert forall|s: int| !run_free(self.used(), self.units as int, s, n as int) by {}
            }
            return None;
        }
        let ghost before = *self;
        match bitmap_alloc(&mut self.allocator, n) {
            Some((region, start)) => {
                proof {
                    assert(run_free(before.used(), before.units as int, start as int, n as int));
                    assert forall|u: int| self.used().contains(u) implies 0 <= u < self.units by {
                        if !before.used().contains(u) {
                            assert(unit_range(start as int, n as int).contains(u));
                        }
                    }
                }
                assert(self.granularity * (start + n) <= self.granularity * self.units)
                    by (nonlinear_arith)
                    requires
                        start + n <= self.units,
                ;
                assert(self.granularity * start <= self.granularity * (start + n))
                    by (nonlinear_arith);
                assert(self.granularity * (start + n) == self.granularity * start + self.granularity * n)
                    by (nonlinear_arith);
                let addr = self.base + self.granularity * (start as u64);
                let len = self.granularity * (n as u64);
                let g = AllocationGuard { region, start, count: n, addr, len };
                proof {
                    before.lemma_aligned(start as int);
                }
                assert(g.wf());
                assert(self.wf());
                assert(self.used() == before.used().union(g.units()));
                assert(exists|s: int| run_free(before.used(), before.units as int, s, n as int));
                Some(g)
            },
            None => {
                assert forall|u: int| self.used().contains(u) implies 0 <= u < self.units by {
                    assert(before.used().contains(u));
                }
                None
            },
        }
    }

    /// Returns the guard's units to the bitmap. Like the bitmap itself this
    /// does not check that the units were in use.
    pub fn release(&mut self, g: AllocationGuard)
        requires
            old(self).wf(),
            g.wf(),
            g.start + g.count <= old(self).units,
        ensures
            final(self).wf(),
            final(self).granularity == old(self).granularity,
            final(self).base == old(self).base,
            final(self).units == old(self).units,
            final(self).used() == old(self).used().difference(g.units()),
    {
        let ghost before = *self;
        bitmap_dealloc(&mut self.allocator, g.region);
        assert forall|u: int| self.used().contains(u) implies 0 <= u < self.units by {
            assert(before.used().contains(u));
        }
    }
}

/// A run handed out by `allocate` is disjoint from every run that was already
/// in use, so no two live guards overlap; and a guard that was in use stays
/// in use.
pub proof fn lemma_alloc_keeps_live_disjoint(
    s0: Allocator,
    n: usize,
    g: AllocationGuard,
    s1: Allocator,
    live: AllocationGuard,
)
    requires
        Allocator::alloc_post(s0, n, Some(g), s1),
        live.units().subset_of(s0.used()),
    ensures
        live.units().disjoint(g.units()),
        live.units().subset_of(s1.used()),
{
}

/// Releasing one guard leaves every other live guard's units in use.
pub proof fn lemma_release_keeps_others(
    s0: Allocator,
    g: AllocationGuard,
    s1: Allocator,
    live: AllocationGuard,
)
    requires
        s1.used() == s0.used().difference(g.units()),
        live.units().subset_of(s0.used()),
        live.units().disjoint(g.units()),
    ensures
        live.units().subset_of(s1.used()),
{
}

/// Whatever is in use lies within the region: the live allocation never
/// exceeds its capacity.
pub proof fn lemma_used_within_capacity(s: Allocator)
    requires
        s.wf(),
    ensures
        s.used().subset_of(unit_range(0, s.units as int)),
        s.used().finite(),
        s.used().len() <= s.units,
{
    let r = unit_range(0, s.units as int);
    assert(r =~= vstd::set_lib::set_int_range(0, s.units as int));
    vstd::set_lib::lemma_int_range(0, s.units as int);
    vstd::set_lib::lemma_len_subset(s.used(), r);
}

} // verus!
