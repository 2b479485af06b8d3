//! A model of the physical memory allocator the loader consumes: contiguous
//! regions identified by a nonzero base address, with the interface the
//! loader needs (`allocate`, `alloc_size`, `unalloc`, and populating a
//! region).
//! Addresses are handed out in increasing order and never reused, so every
//! allocation is fresh and live regions are pairwise disjoint. The call
//! counters let a caller account for every allocation and release.

use vstd::prelude::*;

verus! {

/// Lowest address the allocator hands out; the page below it is reserved
/// for the allocator itself, so no region ever has base address zero.
pub const FIRST_BASE: usize = 4096;

/// One live contiguous physical region.
pub struct Region {
    /// Base address; nonzero.
    pub base: usize,
    /// Usable size in bytes; nonzero.
    pub size: usize,
    /// The region's contents.
    pub bytes: Vec<u8>,
}

impl Region {
    /// A region is well formed when it sits above the reserved page and its
    /// contents cover exactly its size.
    pub open spec fn wf(self) -> bool {
        &&& self.base >= 1
        &&& self.size >= 1
        &&& self.bytes@.len() == self.size
    }
}

/// All live regions other than the one at `base` are carried over from
/// `a0` to `a1` unchanged: same liveness, same contents, same size.
pub open spec fn preserved_except(a0: Allocator, a1: Allocator, base: usize) -> bool {
    &&& forall|b: usize| b != base ==> (#[trigger] a1.live_at(b) <==> a0.live_at(b))
    &&& forall|b: usize|
        b != base && a0.live_at(b) ==> #[trigger] a1.bytes_at(b) == a0.bytes_at(b)
    &&& forall|b: usize|
        b != base && a0.live_at(b) ==> #[trigger] a1.size_at(b) == a0.size_at(b)
}

/// Carrying every region over unchanged preserves them trivially.
pub proof fn lemma_preserved_refl(a: Allocator, base: usize)
    ensures
        preserved_except(a, a, base),
{
}

/// Every region live in `a0` is still live in `a1`, with the same contents
/// and size.
pub open spec fn preserved(a0: Allocator, a1: Allocator) -> bool {
    &&& forall|b: usize| #[trigger] a0.live_at(b) ==> a1.live_at(b)
    &&& forall|b: usize| a0.live_at(b) ==> #[trigger] a1.bytes_at(b) == a0.bytes_at(b)
    &&& forall|b: usize| a0.live_at(b) ==> #[trigger] a1.size_at(b) == a0.size_at(b)
}

/// A step that only touches a region that was not live before preserves
/// everything that was.
pub proof fn lemma_preserved_from_except(a0: Allocator, a1: Allocator, base: usize)
    requires
        preserved_except(a0, a1, base),
        !a0.live_at(base),
    ensures
        preserved(a0, a1),
{
    assert forall|b: usize| #![trigger a0.live_at(b)] a0.live_at(b) implies a1.live_at(b)
        && a1.bytes_at(b) == a0.bytes_at(b) && a1.size_at(b) == a0.size_at(b) by {
        assert(b != base);
    }
}

/// Preservation composes across two steps.
pub proof fn lemma_preserved_trans(a0: Allocator, a1: Allocator, a2: Allocator)
    requires
        preserved(a0, a1),
        preserved(a1, a2),
    ensures
        preserved(a0, a2),
{
    assert forall|b: usize| #![trigger a0.live_at(b)] a0.live_at(b) implies a2.live_at(b)
        && a2.bytes_at(b) == a0.bytes_at(b) && a2.size_at(b) == a0.size_at(b) by {
        assert(a1.live_at(b));
    }
}

/// Two steps that only touch the one region compose.
pub proof fn lemma_preserved_except_trans(a0: Allocator, a1: Allocator, a2: Allocator, base: usize)
    requires
        preserved_except(a0, a1, base),
        preserved_except(a1, a2, base),
    ensures
        preserved_except(a0, a2, base),
{
    assert forall|b: usize| #![trigger a2.live_at(b)] #![trigger a0.live_at(b)] b != base implies (
    a2.live_at(b) <==> a0.live_at(b)) by {
        assert(a1.live_at(b) <==> a0.live_at(b));
    }
    assert forall|b: usize| #![trigger a2.bytes_at(b)] #![trigger a2.size_at(b)] #![trigger a0.live_at(b)] b
        != base && a0.live_at(b) implies a2.bytes_at(b) == a0.bytes_at(b) && a2.size_at(b)
        == a0.size_at(b) by {
        assert(a1.live_at(b));
    }
}

/// The allocator: its live regions, the next address it will hand out, and
/// counters of successful allocations and releases.
pub struct Allocator {
    /// Live regions, ordered by base address.
    pub regions: Vec<Region>,
    /// The next base address to hand out; all live regions end at or below it.
    pub next_base: usize,
    /// Number of successful allocations made so far.
    pub alloc_count: usize,
    /// Number of regions released so far.
    pub free_count: usize,
}

impl Allocator {
    /// Well-formedness: regions are well formed, sorted and disjoint, all
    /// below the high-water mark, and the counters balance the live count.
    pub open spec fn wf(self) -> bool {
        &&& forall|i: int|
            0 <= i < self.regions@.len() ==> (#[trigger] self.regions@[i]).wf()
        &&& forall|i: int|
            0 <= i < self.regions@.len() ==> (#[trigger] self.regions@[i]).base
                + self.regions@[i].size <= self.next_base
        &&& forall|i: int, j: int|
            0 <= i < j < self.regions@.len() ==> (#[trigger] self.regions@[i]).base
                + self.regions@[i].size <= (#[trigger] self.regions@[j]).base
        &&& self.next_base >= FIRST_BASE
        &&& self.alloc_count == self.free_count + self.regions@.len()
        &&& self.alloc_count <= self.next_base
    }

    /// There is a live region with this base address.
    pub open spec fn live_at(self, base: usize) -> bool {
        exists|i: int|
            0 <= i < self.regions@.len() && (#[trigger] self.regions@[i]).base == base
    }

    /// Index of the live region with this base address.
    pub open spec fn index_of(self, base: usize) -> int {
        choose|i: int|
            0 <= i < self.regions@.len() && (#[trigger] self.regions@[i]).base == base
    }

    /// Contents of the live region with this base address.
    pub open spec fn bytes_at(self, base: usize) -> Seq<u8>
        recommends
            self.live_at(base),
    {
        self.regions@[self.index_of(base)].bytes@
    }

    /// Size of the live region with this base address.
    pub open spec fn size_at(self, base: usize) -> int
        recommends
            self.live_at(base),
    {
        self.regions@[self.index_of(base)].size as int
    }

    /// Two live regions with equal base addresses are the same region.
    pub proof fn lemma_base_unique(self, i: int, j: int)
        requires
            self.wf(),
            0 <= i < self.regions@.len(),
            0 <= j < self.regions@.len(),
            self.regions@[i].base == self.regions@[j].base,
        ensures
            i == j,
    {
        if i < j {
            assert(self.regions@[i].base + self.regions@[i].size <= self.regions@[j].base);
            assert(self.regions@[i].wf());
        } else if j < i {
            assert(self.regions@[j].base + self.regions@[j].size <= self.regions@[i].base);
            assert(self.regions@[j].wf());
        }
    }

    /// The region at any index is the one `index_of` finds for its base.
    pub proof fn lemma_at_index(self, i: int)
        requires
            self.wf(),
            0 <= i < self.regions@.len(),
        ensures
            self.live_at(self.regions@[i].base),
            self.index_of(self.regions@[i].base) == i,
            self.bytes_at(self.regions@[i].base) == self.regions@[i].bytes@,
            self.size_at(self.regions@[i].base) == self.regions@[i].size,
    {
        let base = self.regions@[i].base;
        assert(self.live_at(base));
        let j = self.index_of(base);
        self.lemma_base_unique(i, j);
    }

    /// A fresh allocator with no regions and zeroed counters.
    pub fn new() -> (a: Allocator)
        ensures
            a.wf(),
            a.regions@.len() == 0,
            a.next_base == FIRST_BASE,
            a.alloc_count == 0,
            a.free_count == 0,
            forall|b: usize| !a.live_at(b),
    {
        Allocator { regions: Vec::new(), next_base: FIRST_BASE, alloc_count: 0, free_count: 0 }
    }

    /// Whether an allocation of `size` more bytes can succeed right now.
    pub open spec fn spec_can_alloc(self, size: int) -> bool {
        size > 0 && self.next_base + size <= usize::MAX
    }

    /// Whether `need` more bytes of address space are available.
    pub fn can_reserve(&self, need: usize) -> (b: bool)
        ensures
            b == (self.next_base + need <= usize::MAX),
    {
        need <= usize::MAX - self.next_base
    }

    /// Allocates a fresh zero-filled region of `size` bytes and returns its
    /// base address; returns zero (and changes nothing) when `size` is zero
    /// or the address space is exhausted.
    pub fn allocate(&mut self, size: usize) -> (base: usize)
        requires
            old(self).wf(),
        ensures
            final(self).wf(),
            base != 0 <==> old(self).spec_can_alloc(size as int),
            base == 0 ==> *final(self) == *old(self),
            base != 0 ==> {
                &&& base == old(self).next_base
                &&& !old(self).live_at(base)
                &&& final(self).next_base == base + size
                &&& final(self).alloc_count == old(self).alloc_count + 1
                &&& final(self).free_count == old(self).free_count
                &&& final(self).regions@.len() == old(self).regions@.len() + 1
                &&& final(self).live_at(base)
                &&& final(self).bytes_at(base) == Seq::new(size as nat, |i: int| 0u8)
                &&& final(self).size_at(base) == size
            },
            preserved_except(*old(self), *final(self), base),
    {
        if size == 0 || size > usize::MAX - self.next_base {
            proof {
                lemma_preserved_refl(*self, 0);
            }
            return 0;
        }
        let base = self.next_base;
        let bytes = zero_bytes(size);
        let region = Region { base, size, bytes };
        proof {
            assert forall|i: int| 0 <= i < self.regions@.len() implies (
            #[trigger] self.regions@[i]).base != base by {
                assert(self.regions@[i].base + self.regions@[i].size <= self.next_base);
                assert(self.regions@[i].wf());
            }
        }
        self.regions.push(region);
        self.next_base = base + size;
        self.alloc_count = self.alloc_count + 1;
        proof {
            let new = *self;
            let n = new.regions@.len() - 1;
            assert(new.regions@[n].base == base);
            new.lemma_at_index(n);
            assert(new.bytes_at(base) =~= Seq::new(size as nat, |i: int| 0u8));
            assert forall|b: usize| #![trigger new.live_at(b)] #![trigger old(self).live_at(b)] b
                != base implies (new.live_at(b) <==> old(self).live_at(b)) by {
                if new.live_at(b) {
                    let i = choose|i: int|
                        0 <= i < new.regions@.len() && (#[trigger] new.regions@[i]).base == b;
                    assert(i < n + 1);
                    assert(old(self).regions@[i].base == b);
                }
                if old(self).live_at(b) {
                    let i = choose|i: int|
                        0 <= i < old(self).regions@.len() && (#[trigger] old(
                        self).regions@[i]).base == b;
                    assert(new.regions@[i].base == b);
                }
            }
            assert forall|b: usize| #![trigger new.bytes_at(b)] #![trigger new.size_at(b)] #![trigger old(self).live_at(b)] b
                != base && old(self).live_at(b) implies new.bytes_at(b) == old(self).bytes_at(b)
                && new.size_at(b) == old(self).size_at(b) by {
                let i = choose|i: int|
                    0 <= i < old(self).regions@.len() && (#[trigger] old(self).regions@[i]).base
                        == b;
                old(self).lemma_at_index(i);
                assert(new.regions@[i].base == b);
                new.lemma_at_index(i);
            }
            assert(preserved_except(*old(self), new, base));
        }
        base
    }

    /// Reports the usable size of the live region at `base`.
    pub fn alloc_size(&self, base: usize) -> (size: usize)
        requires
            self.wf(),
            self.live_at(base),
        ensures
            size == self.size_at(base),
    {
        let i = self.find_index(base);
        self.regions[i].size
    }

    /// Finds the index of the live region at `base`.
    fn find_index(&self, base: usize) -> (i: usize)
        requires
            self.wf(),
            self.live_at(base),
        ensures
            i < self.regions@.len(),
            self.regions@[i as int].base == base,
            i == self.index_of(base),
    {
        let n = self.regions.len();
        let mut i: usize = 0;
        while i < n
            invariant
                self.wf(),
                self.live_at(base),
                n == self.regions@.len(),
                i <= n,
                forall|j: int| 0 <= j < i ==> (#[trigger] self.regions@[j]).base != base,
            decreases n - i,
        {
            if self.regions[i].base == base {
                proof {
                    self.lemma_at_index(i as int);
                }
                return i;
            }
            i = i + 1;
        }
        proof {
            let w = choose|w: int|
                0 <= w < self.regions@.len() && (#[trigger] self.regions@[w]).base == base;
            assert(false);
        }
        0
    }

    /// Releases the live region at `base`. Its address is never reused.
    pub fn unalloc(&mut self, base: usize)
        requires
            old(self).wf(),
            old(self).live_at(base),
        ensures
            final(self).wf(),
            !final(self).live_at(base),
            final(self).regions@.len() == old(self).regions@.len() - 1,
            final(self).next_base == old(self).next_base,
            final(self).alloc_count == old(self).alloc_count,
            final(self).free_count == old(self).free_count + 1,
            preserved_except(*old(self), *final(self), base),
    {
        let i = self.find_index(base);
        proof {
            assert(self.free_count < self.alloc_count);
        }
        self.regions.remove(i);
        self.free_count = self.free_count + 1;
        proof {
            let new = *self;
            let oldr = old(self).regions@;
            let k = i as int;
            assert(new.regions@ == oldr.remove(k));
            assert forall|b: usize| #![trigger new.live_at(b)] #![trigger old(self).live_at(b)] new.live_at(
                b) implies b != base && old(self).live_at(b) by {
                let j = choose|j: int|
                    0 <= j < new.regions@.len() && (#[trigger] new.regions@[j]).base == b;
                if j < k {
                    assert(oldr[j].base == b);
                    if b == base {
                        old(self).lemma_base_unique(j, k);
                    }
                } else {
                    assert(oldr[j + 1].base == b);
                    if b == base {
                        old(self).lemma_base_unique(j + 1, k);
                    }
                }
            }
            assert forall|b: usize| #![trigger new.bytes_at(b)] #![trigger new.size_at(b)] #![trigger old(self).live_at(b)] b
                != base && old(self).live_at(b) implies new.live_at(b) && new.bytes_at(b) == old(
                self).bytes_at(b) && new.size_at(b) == old(self).size_at(b) by {
                let j = choose|j: int|
                    0 <= j < oldr.len() && (#[trigger] oldr[j]).base == b;
                assert(oldr[k].base == base);
                assert(j != k);
                if j < k {
                    assert(new.regions@[j].base == b);
                    new.lemma_at_index(j);
                } else {
                    assert(j > k);
                    assert(new.regions@[j - 1].base == b);
                    new.lemma_at_index(j - 1);
                }
                old(self).lemma_at_index(j);
            }
            assert(preserved_except(*old(self), new, base));
            assert(!new.live_at(base));
        }
    }

    /// Overwrites the contents of the live region at `base` with `data`,
    /// which must cover the region exactly.
    pub fn store(&mut self, base: usize, data: Vec<u8>)
        requires
            old(self).wf(),
            old(self).live_at(base),
            data@.len() == old(self).size_at(base),
        ensures
            final(self).wf(),
            final(self).live_at(base),
            final(self).bytes_at(base) == data@,
            final(self).size_at(base) == old(self).size_at(base),
            final(self).regions@.len() == old(self).regions@.len(),
            final(self).next_base == old(self).next_base,
            final(self).alloc_count == old(self).alloc_count,
            final(self).free_count == old(self).free_count,
            preserved_except(*old(self), *final(self), base),
    {
        let i = self.find_index(base);
        let mut region = self.regions.remove(i);
        region.bytes = data;
        self.regions.insert(i, region);
        proof {
            let new = *self;
            let oldr = old(self).regions@;
            let k = i as int;
            assert(new.regions@ =~= oldr.update(k, new.regions@[k]));
            assert(new.regions@[k].base == base);
            assert(new.regions@[k].bytes@ == data@);
            new.lemma_at_index(k);
            assert forall|b: usize| #![trigger new.live_at(b)] #![trigger old(self).live_at(b)] b
                != base implies (new.live_at(b) <==> old(self).live_at(b)) by {
                if new.live_at(b) {
                    let j = choose|j: int|
                        0 <= j < new.regions@.len() && (#[trigger] new.regions@[j]).base == b;
                    assert(oldr[j].base == b);
                }
                if old(self).live_at(b) {
                    let j = choose|j: int|
                        0 <= j < oldr.len() && (#[trigger] oldr[j]).base == b;
                    assert(new.regions@[j].base == b);
                }
            }
            assert forall|b: usize| #![trigger new.bytes_at(b)] #![trigger new.size_at(b)] #![trigger old(self).live_at(b)] b
                != base && old(self).live_at(b) implies new.bytes_at(b) == old(self).bytes_at(b)
                && new.size_at(b) == old(self).size_at(b) by {
                let j = choose|j: int|
                    0 <= j < oldr.len() && (#[trigger] oldr[j]).base == b;
                old(self).lemma_at_index(j);
                assert(oldr[k].base == base);
                assert(j != k);
                assert(new.regions@[j].base == b);
                new.lemma_at_index(j);
            }
            assert(preserved_except(*old(self), new, base));
        }
    }

    /// Allocates a fresh region holding exactly `data` and returns its base
    /// address; returns zero (and changes nothing) when the address space
    /// is exhausted.
    pub fn alloc_init(&mut self, data: Vec<u8>) -> (base: usize)
        requires
            old(self).wf(),
            data@.len() >= 1,
        ensures
            final(self).wf(),
            base != 0 <==> old(self).spec_can_alloc(data@.len() as int),
            base == 0 ==> *final(self) == *old(self),
            base != 0 ==> {
                &&& base == old(self).next_base
                &&& !old(self).live_at(base)
                &&& final(self).next_base == base + data@.len()
                &&& final(self).alloc_count == old(self).alloc_count + 1
                &&& final(self).free_count == old(self).free_count
                &&& final(self).live_at(base)
                &&& final(self).bytes_at(base) == data@
                &&& final(self).size_at(base) == data@.len()
            },
            preserved_except(*old(self), *final(self), base),
    {
        let size = data.len();
        let base = self.allocate(size);
        if base != 0 {
            let ghost mid = *self;
            self.store(base, data);
            proof {
                lemma_preserved_except_trans(*old(self), mid, *self, base);
            }
        }
        base
    }

    /// Number of currently live regions.
    pub fn live_region_count(&self) -> (n: usize)
        requires
            self.wf(),
        ensures
            n == self.regions@.len(),
            n == self.alloc_count - self.free_count,
    {
        self.regions.len()
    }
}

/// A zero-filled buffer of `n` bytes.
fn zero_bytes(n: usize) -> (v: Vec<u8>)
    ensures
        v@ == Seq::new(n as nat, |i: int| 0u8),
{
    let mut v: Vec<u8> = Vec::new();
    let mut i: usize = 0;
    while i < n
        invariant
            i <= n,
            v@ =~= Seq::new(i as nat, |j: int| 0u8),
        decreases n - i,
    {
        v.push(0);
        i = i + 1;
    }
    proof {
        assert(v@ =~= Seq::new(n as nat, |i: int| 0u8));
    }
    v
}

} // verus!
