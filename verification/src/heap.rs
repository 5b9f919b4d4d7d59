//! A word-addressed heap with explicit allocation records.
//!
//! The layout strategies need precise control over where words sit relative
//! to one another, and their teardown obligations are about allocations:
//! every block is released exactly once, and a block is only read while it is
//! live. This module models that store: memory is a growing sequence of
//! machine words, allocation appends a block of words and records it, and
//! freeing marks the record dead without reusing the words. Addresses are
//! never recycled, so each address names at most one allocation for the whole
//! life of the heap.

use vstd::prelude::*;

verus! {

/// One allocation record: the block's first word address, its length in
/// words, and whether it is still live (allocated and not yet freed).
#[derive(Clone, Copy, PartialEq, Eq, Structural, Debug)]
pub struct Block {
    pub addr: usize,
    pub len: usize,
    pub live: bool,
}

/// The number of live records in an allocation history.
pub open spec fn count_live(s: Seq<Block>) -> int
    decreases s.len(),
{
    if s.len() == 0 {
        0
    } else {
        count_live(s.drop_last()) + if s.last().live {
            1int
        } else {
            0int
        }
    }
}

/// Appending one record changes the live count by one exactly when the new
/// record is live.
pub proof fn lemma_count_live_push(s: Seq<Block>, b: Block)
    ensures
        count_live(s.push(b)) == count_live(s) + if b.live {
            1int
        } else {
            0int
        },
{
    assert(s.push(b).drop_last() =~= s);
}

/// Marking one live record dead lowers the live count by exactly one.
pub proof fn lemma_count_live_update_to_dead(s: Seq<Block>, k: int, b: Block)
    requires
        0 <= k < s.len(),
        s[k].live,
        !b.live,
    ensures
        count_live(s.update(k, b)) == count_live(s) - 1,
    decreases s.len(),
{
    if k == s.len() - 1 {
        assert(s.update(k, b).drop_last() =~= s.drop_last());
    } else {
        assert(s.update(k, b).drop_last() =~= s.drop_last().update(k, b));
        lemma_count_live_update_to_dead(s.drop_last(), k, b);
    }
}

/// Distinct allocation records of a well-formed heap never share an
/// address, live or dead: addresses are handed out once and never reused.
pub proof fn lemma_records_distinct(h: Heap, k1: int, k2: int)
    requires
        h.wf(),
        0 <= k1 < h.records().len(),
        0 <= k2 < h.records().len(),
        k1 != k2,
    ensures
        h.records()[k1].addr != h.records()[k2].addr,
{
    if k1 < k2 {
        assert(h.records()[k1].addr + h.records()[k1].len <= h.records()[k2].addr);
    } else {
        assert(h.records()[k2].addr + h.records()[k2].len <= h.records()[k1].addr);
    }
}

/// The heap itself: the flat word memory and the allocation history.
pub struct Heap {
    mem: Vec<usize>,
    blocks: Vec<Block>,
}

impl Heap {
    /// The words of memory, in address order.
    pub closed spec fn words(self) -> Seq<usize> {
        self.mem@
    }

    /// Every allocation ever made, in allocation order.
    pub closed spec fn records(self) -> Seq<Block> {
        self.blocks@
    }

    /// Well-formedness: memory is addressable, every block is non-empty and
    /// lies inside memory, and blocks are disjoint and laid out in
    /// allocation order.
    pub open spec fn wf(self) -> bool {
        &&& self.words().len() <= usize::MAX
        &&& forall|i: int|
            0 <= i < self.records().len() ==> ((#[trigger] self.records()[i]).len > 0
                && self.records()[i].addr + self.records()[i].len <= self.words().len())
        &&& forall|i: int, j: int|
            0 <= i < j < self.records().len() ==> (#[trigger] self.records()[i]).addr
                + self.records()[i].len <= (#[trigger] self.records()[j]).addr
    }

    /// Address `a` lies inside record `k`, which is live.
    pub open spec fn in_live_block(self, k: int, a: usize) -> bool {
        &&& 0 <= k < self.records().len()
        &&& self.records()[k].live
        &&& self.records()[k].addr <= a < self.records()[k].addr + self.records()[k].len
    }

    /// Address `a` lies inside some live block: it may be read.
    pub open spec fn valid_addr(self, a: usize) -> bool {
        exists|k: int| self.in_live_block(k, a)
    }

    /// Record `k` is a live block beginning exactly at `a`.
    pub open spec fn live_block_at(self, k: int, a: usize) -> bool {
        &&& 0 <= k < self.records().len()
        &&& self.records()[k].live
        &&& self.records()[k].addr == a
    }

    /// Some live block begins at `a`: it may be freed.
    pub open spec fn freeable(self, a: usize) -> bool {
        exists|k: int| self.live_block_at(k, a)
    }

    /// How many allocations are currently live.
    pub open spec fn live_count(self) -> int {
        count_live(self.records())
    }

    /// The heap after freeing the block at `a`, relative to the heap before:
    /// memory is untouched, and exactly the record whose address is `a` is
    /// marked dead while every other record is unchanged.
    pub open spec fn freed_one(pre: Heap, post: Heap, a: usize) -> bool {
        &&& post.words() == pre.words()
        &&& post.records().len() == pre.records().len()
        &&& forall|k: int|
            0 <= k < pre.records().len() ==> #[trigger] post.records()[k] == (if pre.records()[k].addr == a {
                (Block { addr: pre.records()[k].addr, len: pre.records()[k].len, live: false })
            } else {
                pre.records()[k]
            })
    }

    /// A fresh heap with no memory and no allocations.
    pub fn new() -> (h: Heap)
        ensures
            h.wf(),
            h.words().len() == 0,
            h.records().len() == 0,
            h.live_count() == 0,
    {
        Heap { mem: Vec::new(), blocks: Vec::new() }
    }

    /// Allocate one block holding the given non-empty word sequence and
    /// return its address. Nothing already allocated moves or changes.
    pub fn allocate(&mut self, init: &Vec<usize>) -> (addr: usize)
        requires
            old(self).wf(),
            init@.len() > 0,
        ensures
            final(self).wf(),
            addr == old(self).words().len(),
            final(self).words() == old(self).words() + init@,
            final(self).records() == old(self).records().push(
                (Block { addr: addr, len: init@.len() as usize, live: true }),
            ),
            final(self).live_block_at(old(self).records().len() as int, addr),
            final(self).live_count() == old(self).live_count() + 1,
    {
        let addr = self.mem.len();
        let n = init.len();
        let ghost m0 = self.mem@;
        let ghost b0 = self.blocks@;
        let mut i: usize = 0;
        while i < n
            invariant
                i <= n,
                n == init@.len(),
                m0 == old(self).mem@,
                b0 == old(self).blocks@,
                addr == m0.len(),
                old(self).wf(),
                self.mem@ == m0 + init@.subrange(0, i as int),
                self.blocks@ == b0,
            decreases n - i,
        {
            self.mem.push(init[i]);
            assert(self.mem@ =~= m0 + init@.subrange(0, i + 1));
            i += 1;
        }
        assert(self.mem@ =~= m0 + init@);
        // the grown memory is a real vector, so it still fits the address
        // space
        let total = self.mem.len();
        assert(total == self.mem@.len());
        self.blocks.push(Block { addr: addr, len: n, live: true });
        proof {
            let bnew = Block { addr: addr, len: n, live: true };
            lemma_count_live_push(b0, bnew);
            assert forall|q: int|
                0 <= q < self.blocks@.len() implies ((#[trigger] self.blocks@[q]).len > 0
                && self.blocks@[q].addr + self.blocks@[q].len <= self.mem@.len()) by {
                if q < b0.len() {
                    assert(self.blocks@[q] == old(self).records()[q]);
                    assert(old(self).records()[q].len > 0 && old(self).records()[q].addr + old(
                        self,
                    ).records()[q].len <= old(self).words().len());
                } else {
                    assert(self.blocks@[q] == bnew);
                }
            }
            assert forall|q: int, r: int|
                0 <= q < r < self.blocks@.len() implies ((#[trigger] self.blocks@[q]).addr
                + self.blocks@[q].len <= (#[trigger] self.blocks@[r]).addr) by {
                if r < b0.len() {
                    assert(self.blocks@[q] == old(self).records()[q]);
                    assert(self.blocks@[r] == old(self).records()[r]);
                    assert(old(self).records()[q].addr + old(self).records()[q].len <= old(
                        self,
                    ).records()[r].addr);
                } else {
                    assert(self.blocks@[q] == old(self).records()[q]);
                    assert(old(self).records()[q].addr + old(self).records()[q].len <= old(
                        self,
                    ).words().len());
                }
            }
        }
        addr
    }

    /// Read the word at a live address.
    pub fn read(&self, a: usize) -> (w: usize)
        requires
            self.wf(),
            self.valid_addr(a),
        ensures
            w == self.words()[a as int],
    {
        proof {
            let k = choose|k: int| self.in_live_block(k, a);
            assert(a < self.words().len());
        }
        self.mem[a]
    }

    /// Free the live block beginning at `a`. Exactly that allocation is
    /// released: its record goes dead, every other record and all of memory
    /// stay as they were, and the live count drops by one. A second free of
    /// the same address is impossible, since the record is no longer live.
    pub fn free(&mut self, a: usize)
        requires
            old(self).wf(),
            old(self).freeable(a),
        ensures
            final(self).wf(),
            Heap::freed_one(*old(self), *final(self), a),
            final(self).live_count() == old(self).live_count() - 1,
    {
        let n = self.blocks.len();
        let mut k: usize = 0;
        while k < n
            invariant
                k <= n,
                n == self.blocks@.len(),
                *self == *old(self),
                old(self).wf(),
                old(self).freeable(a),
                forall|j: int| 0 <= j < k ==> (#[trigger] self.blocks@[j]).addr != a,
            decreases n - k,
        {
            let b = self.blocks[k];
            if b.addr == a {
                proof {
                    let j = choose|j: int| old(self).live_block_at(j, a);
                    if j != k {
                        // distinct records never share an address
                        if j < k {
                            assert(self.records()[j].addr + self.records()[j].len
                                <= self.records()[k as int].addr);
                        } else {
                            assert(self.records()[k as int].addr + self.records()[k as int].len
                                <= self.records()[j].addr);
                        }
                        assert(false);
                    }
                    lemma_count_live_update_to_dead(
                        self.blocks@,
                        k as int,
                        Block { addr: b.addr, len: b.len, live: false },
                    );
                }
                self.blocks[k] = Block { addr: b.addr, len: b.len, live: false };
                return ;
            }
            k += 1;
        }
        proof {
            let j = choose|j: int| old(self).live_block_at(j, a);
            assert(false);
        }
    }
}

} // verus!
