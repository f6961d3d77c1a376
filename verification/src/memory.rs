//! Model of the reserved durable region that the persistence bridge writes the
//! upgrade image into. The region lives at address zero of the actor's stable
//! storage and grows in whole buckets of a fixed page granularity, so that a
//! restore from an older image finds the same layout.

use vstd::prelude::*;

verus! {

/// Identifier of the reserved upgrade region.
pub const UPGRADES: u8 = 0;

/// Fixed bucket granularity, in pages.
pub const BUCKET_SIZE_IN_PAGES: u64 = 4;

/// Size of one stable-storage page, in bytes.
pub const PAGE_SIZE_IN_BYTES: u64 = 65536;

/// One virtual region of the managed stable storage: a byte image whose length
/// is always a whole number of buckets.
pub struct VirtualMemory {
    bytes: Vec<u8>,
    bucket_size_in_pages: u64,
}

impl View for VirtualMemory {
    type V = Seq<u8>;

    closed spec fn view(&self) -> Seq<u8> {
        self.bytes@
    }
}

impl VirtualMemory {
    pub closed spec fn spec_bucket_size_in_pages(&self) -> u64 {
        self.bucket_size_in_pages
    }

    pub open spec fn bucket_size_in_bytes(&self) -> int {
        self.spec_bucket_size_in_pages() * PAGE_SIZE_IN_BYTES
    }

    pub open spec fn wf(&self) -> bool {
        self.spec_bucket_size_in_pages() > 0 && (self@.len() as int) % self.bucket_size_in_bytes()
            == 0
    }

    pub fn new(bucket_size_in_pages: u64) -> (r: Self)
        requires
            bucket_size_in_pages > 0,
            bucket_size_in_pages * PAGE_SIZE_IN_BYTES <= u64::MAX,
        ensures
            r@ =~= Seq::<u8>::empty(),
            r.spec_bucket_size_in_pages() == bucket_size_in_pages,
            r.wf(),
    {
        VirtualMemory { bytes: Vec::new(), bucket_size_in_pages }
    }

    pub fn size_in_bytes(&self) -> (n: usize)
        ensures
            n == self@.len(),
    {
        self.bytes.len()
    }

    /// Grows the region, one whole zeroed bucket at a time, until it holds at
    /// least `needed` bytes. Growth is quantized: the final length is the
    /// smallest bucket multiple at or above the demand.
    #[verifier::loop_isolation(false)]
    pub fn grow_to(&mut self, needed: usize)
        requires
            old(self).wf(),
            old(self).spec_bucket_size_in_pages() * PAGE_SIZE_IN_BYTES <= u64::MAX,
            needed + old(self).bucket_size_in_bytes() <= usize::MAX,
        ensures
            final(self).wf(),
            final(self).spec_bucket_size_in_pages() == old(self).spec_bucket_size_in_pages(),
            final(self)@.len() >= needed,
            final(self)@.len() >= old(self)@.len(),
            final(self)@.len() < needed + old(self).bucket_size_in_bytes() || final(self)@.len()
                == old(self)@.len(),
            old(self)@.is_prefix_of(final(self)@),
            forall|i: int| old(self)@.len() <= i < final(self)@.len() ==> final(self)@[i] == 0,
    {
        let bucket_bytes: usize = (self.bucket_size_in_pages * PAGE_SIZE_IN_BYTES) as usize;
        while self.bytes.len() < needed
            invariant
                self.wf(),
                self.spec_bucket_size_in_pages() == old(self).spec_bucket_size_in_pages(),
                bucket_bytes == self.bucket_size_in_bytes(),
                bucket_bytes > 0,
                self@.len() >= old(self)@.len(),
                self@.len() < needed + bucket_bytes || self@.len() == old(self)@.len(),
                old(self)@.is_prefix_of(self@),
                forall|i: int| old(self)@.len() <= i < self@.len() ==> self@[i] == 0,
            decreases needed + bucket_bytes - self@.len(),
        {
            let ghost before = self@;
            let mut k: usize = 0;
            while k < bucket_bytes
                invariant
                    0 <= k <= bucket_bytes,
                    self@.len() == before.len() + k,
                    before.is_prefix_of(self@),
                    forall|i: int| before.len() <= i < self@.len() ==> self@[i] == 0,
                    self.spec_bucket_size_in_pages() == old(self).spec_bucket_size_in_pages(),
                decreases bucket_bytes - k,
            {
                self.bytes.push(0);
                proof {
                    assert(self@.take(before.len() as int) =~= before);
                }
                k += 1;
            }
            proof {
                assert(old(self)@.is_prefix_of(self@)) by {
                    assert(self@.take(old(self)@.len() as int) =~= old(self)@);
                }
                assert((self@.len() as int) % (bucket_bytes as int) == 0) by (nonlinear_arith)
                    requires
                        (before.len() as int) % (bucket_bytes as int) == 0,
                        self@.len() == before.len() + bucket_bytes,
                        bucket_bytes > 0,
                ;
                assert forall|i: int|
                    old(self)@.len() <= i < self@.len() implies self@[i] == 0 by {
                    if i < before.len() {
                        assert(self@[i] == before[i]);
                    }
                }
            }
        }
    }

    /// Writes `data` at `offset`, growing the region by whole buckets first if
    /// the write reaches past the current end; every byte outside the written
    /// span keeps its value (new bytes are zero).
    #[verifier::loop_isolation(false)]
    pub fn write(&mut self, offset: usize, data: &[u8])
        requires
            old(self).wf(),
            old(self).spec_bucket_size_in_pages() * PAGE_SIZE_IN_BYTES <= u64::MAX,
            offset + data@.len() + old(self).bucket_size_in_bytes() <= usize::MAX,
        ensures
            final(self).wf(),
            final(self).spec_bucket_size_in_pages() == old(self).spec_bucket_size_in_pages(),
            final(self)@.len() >= offset + data@.len(),
            final(self)@.len() >= old(self)@.len(),
            forall|i: int|
                0 <= i < offset && i < old(self)@.len() ==> final(self)@[i] == old(self)@[i],
            forall|i: int| 0 <= i < offset && i >= old(self)@.len() ==> final(self)@[i] == 0,
            final(self)@.subrange(offset as int, offset + data@.len()) =~= data@,
            forall|i: int|
                offset + data@.len() <= i < final(self)@.len() ==> final(self)@[i] == (if i < old(
                    self,
                )@.len() {
                    old(self)@[i]
                } else {
                    0
                }),
    {
        self.grow_to(offset + data.len());
        let n = data.len();
        let ghost grown = self@;
        let mut k: usize = 0;
        while k < n
            invariant
                n == data@.len(),
                0 <= k <= n,
                self@.len() == grown.len(),
                offset + n <= grown.len(),
                self.spec_bucket_size_in_pages() == old(self).spec_bucket_size_in_pages(),
                self.wf(),
                forall|i: int| 0 <= i < offset ==> self@[i] == grown[i],
                forall|i: int| offset <= i < offset + k ==> self@[i] == data@[i - offset],
                forall|i: int| offset + k <= i < self@.len() ==> self@[i] == grown[i],
            decreases n - k,
        {
            let ghost before = self@;
            self.set_byte(offset + k, data[k]);
            k += 1;
        }
        proof {
            assert forall|i: int|
                0 <= i < offset && i >= old(self)@.len() implies self@[i] == 0 by {
                assert(self@[i] == grown[i]);
            }
            assert forall|i: int|
                0 <= i < offset && i < old(self)@.len() implies self@[i] == old(self)@[i] by {
                assert(self@[i] == grown[i]);
                assert(grown[i] == old(self)@[i]);
            }
            assert forall|i: int|
                offset + data@.len() <= i < self@.len() implies self@[i] == (if i < old(
                    self,
                )@.len() {
                    old(self)@[i]
                } else {
                    0
                }) by {
                assert(self@[i] == grown[i]);
                if i < old(self)@.len() {
                    assert(grown[i] == old(self)@[i]);
                }
            }
        }
    }

    fn set_byte(&mut self, i: usize, b: u8)
        requires
            i < old(self)@.len(),
        ensures
            final(self)@ =~= old(self)@.update(i as int, b),
            final(self).spec_bucket_size_in_pages() == old(self).spec_bucket_size_in_pages(),
    {
        let ghost s = self@;
        let _ = self.bytes.remove(i);
        self.bytes.insert(i, b);
        proof {
            assert(self@ =~= s.remove(i as int).insert(i as int, b));
            assert(self@ =~= s.update(i as int, b));
        }
    }

    /// Reads `len` bytes at `offset`; the span must lie inside the region.
    #[verifier::loop_isolation(false)]
    pub fn read(&self, offset: usize, len: usize) -> (r: Vec<u8>)
        requires
            offset + len <= self@.len(),
        ensures
            r@ =~= self@.subrange(offset as int, offset + len),
    {
        let mut r: Vec<u8> = Vec::new();
        let total = self.bytes.len();
        let mut k: usize = 0;
        while k < len
            invariant
                total == self@.len(),
                0 <= k <= len,
                offset + len <= self@.len(),
                r@ =~= self@.subrange(offset as int, offset + k),
            decreases len - k,
        {
            r.push(self.bytes[offset + k]);
            proof {
                assert(r@ =~= self@.subrange(offset as int, offset + k + 1));
            }
            k += 1;
        }
        r
    }
}

/// The manager of the actor's stable storage: the fixed bucket granularity and
/// the reserved upgrade region.
pub struct MemoryManager {
    pub bucket_size_in_pages: u64,
    pub upgrades: VirtualMemory,
}

impl MemoryManager {
    pub open spec fn wf(&self) -> bool {
        self.upgrades.wf() && self.upgrades.spec_bucket_size_in_pages()
            == self.bucket_size_in_pages && self.bucket_size_in_pages == BUCKET_SIZE_IN_PAGES
    }

    pub fn init_with_bucket_size(bucket_size_in_pages: u64) -> (r: Self)
        requires
            bucket_size_in_pages == BUCKET_SIZE_IN_PAGES,
        ensures
            r.wf(),
            r.upgrades@ =~= Seq::<u8>::empty(),
    {
        MemoryManager {
            bucket_size_in_pages,
            upgrades: VirtualMemory::new(bucket_size_in_pages),
        }
    }
}

/// The reserved region that the upgrade image is written to and restored from.
pub fn get_upgrades_memory(mgr: &MemoryManager) -> (r: &VirtualMemory)
    ensures
        r == &mgr.upgrades,
{
    get_memory(mgr, UPGRADES)
}

pub fn get_memory(mgr: &MemoryManager, id: u8) -> (r: &VirtualMemory)
    requires
        id == UPGRADES,
    ensures
        r == &mgr.upgrades,
{
    &mgr.upgrades
}

/// Discards the previous layout and reinstalls the manager at the fixed bucket
/// size: the allocator metadata at the start of the raw storage is zeroed, so
/// the next initialization lays the buckets out afresh instead of preserving
/// whatever granularity the previous image used. Run only immediately after a
/// successful restore.
pub fn reset_memory_manager(mgr: &mut MemoryManager)
    ensures
        final(mgr).wf(),
        final(mgr).bucket_size_in_pages == BUCKET_SIZE_IN_PAGES,
        final(mgr).upgrades@ =~= Seq::<u8>::empty(),
{
    *mgr = MemoryManager::init_with_bucket_size(BUCKET_SIZE_IN_PAGES);
}

} // verus!
