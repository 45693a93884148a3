//! Bookkeeping for the guest-owned memory regions the host asks for.
//!
//! Before the host writes data into guest memory it reserves a region
//! through the guest's exported allocation entry point, and releases it
//! later with the exact address and size it was given. The protocol keeps
//! no side table: the caller must remember the size, and releasing with a
//! mismatched size is a contract violation, not a checked error. This
//! module is that contract, written down: a region ledger with the
//! alignment and disjointness every reservation enjoys.

use vstd::prelude::*;

verus! {

broadcast use vstd::seq::group_seq_axioms;

/// Two regions, each an address and a byte length, do not overlap.
pub open spec fn disjoint(a: (u32, u32), b: (u32, u32)) -> bool {
    a.0 + a.1 <= b.0 || b.0 + b.1 <= a.0
}

/// The allocation ledger: which regions are reserved, and where the next
/// reservation will start.
pub struct Allocator {
    next: u32,
    live: Vec<(u32, u32)>,
}

impl Allocator {
    /// The reserved regions, in reservation order.
    pub closed spec fn regions(&self) -> Seq<(u32, u32)> {
        self.live@
    }

    /// The ledger's invariant: regions start at 8-byte-aligned, nonzero
    /// addresses, lie below the watermark, and are pairwise disjoint.
    pub closed spec fn inv(&self) -> bool {
        &&& 8 <= self.next
        &&& self.next % 8 == 0
        &&& forall|i: int|
            0 <= i < self.live@.len() ==> (#[trigger] self.live@[i]).0 % 8 == 0
                && self.live@[i].0 >= 8 && self.live@[i].0 + self.live@[i].1 <= self.next
                && self.live@[i].1 >= 1
        &&& forall|i: int, j: int|
            0 <= i < j < self.live@.len() ==> disjoint(
                #[trigger] self.live@[i],
                #[trigger] self.live@[j],
            )
    }

    /// A fresh ledger with nothing reserved.
    pub fn new() -> (a: Allocator)
        ensures
            a.inv(),
            a.regions() == Seq::<(u32, u32)>::empty(),
    {
        Allocator { next: 8, live: Vec::new() }
    }

    /// Reserves `size` bytes at an 8-byte-aligned address and returns the
    /// address. There is no recoverable out-of-memory path by design; the
    /// precondition keeps the reservation within the 32-bit space.
    pub fn allocate(&mut self, size: u32) -> (addr: u32)
        requires
            old(self).inv(),
            1 <= size,
            old(self).spec_next() + size + 7 <= u32::MAX,
        ensures
            final(self).inv(),
            addr % 8 == 0,
            addr >= 8,
            final(self).regions() == old(self).regions().push((addr, size)),
    {
        let addr = self.next;
        let rounded = (size + 7) / 8 * 8;
        proof {
            assert(rounded >= size && rounded % 8 == 0) by (nonlinear_arith)
                requires
                    rounded == (size + 7) / 8 * 8,
                    1 <= size <= 0xFFFF_FFF8,
            ;
            assert((self.next + rounded) % 8 == 0) by (nonlinear_arith)
                requires
                    self.next % 8 == 0,
                    rounded % 8 == 0,
                    self.next + rounded <= u32::MAX,
            ;
        }
        self.next = self.next + rounded;
        self.live.push((addr, size));
        proof {
            assert forall|i: int, j: int|
                0 <= i < j < self.live@.len() implies disjoint(
                #[trigger] self.live@[i],
                #[trigger] self.live@[j],
            ) by {
                if j == self.live@.len() - 1 {
                    assert(self.live@[i].0 + self.live@[i].1 <= addr);
                }
            }
        }
        addr
    }

    /// The watermark where the next reservation will start.
    pub closed spec fn spec_next(&self) -> u32 {
        self.next
    }

    /// Releases a region previously returned by [`Allocator::allocate`],
    /// named by that exact address and size. Passing a mismatched size
    /// violates the precondition; the ledger keeps no side table to catch
    /// it.
    pub fn deallocate(&mut self, addr: u32, size: u32)
        requires
            old(self).inv(),
            old(self).regions().contains((addr, size)),
        ensures
            final(self).inv(),
            exists|i: int|
                0 <= i < old(self).regions().len() && old(self).regions()[i] == (addr, size)
                    && final(self).regions() == old(self).regions().remove(i),
    {
        let n = self.live.len();
        let mut k: usize = 0;
        while k < n
            invariant
                n == self.live@.len(),
                k <= n,
                *self == *old(self),
                old(self).inv(),
                old(self).regions().contains((addr, size)),
                forall|t: int| 0 <= t < k ==> #[trigger] self.live@[t] != (addr, size),
            decreases n - k,
        {
            if self.live[k].0 == addr && self.live[k].1 == size {
                self.live.remove(k);
                proof {
                    let ghost i = k as int;
                    assert(self.regions() =~= old(self).regions().remove(i));
                    old(self).regions().remove_ensures(i);
                    assert forall|t: int|
                        0 <= t < self.live@.len() implies (#[trigger] self.live@[t]).0 % 8 == 0
                        && self.live@[t].0 >= 8 && self.live@[t].0 + self.live@[t].1 <= self.next
                        && self.live@[t].1 >= 1 by {
                        assert(self.live@[t] == old(self).regions().remove(i)[t]);
                        if t < i {
                            assert(old(self).regions().remove(i)[t] == old(self).regions()[t]);
                        } else {
                            assert(old(self).regions().remove(i)[t] == old(self).regions()[t
                                + 1]);
                        }
                    }
                    assert forall|a: int, b: int|
                        0 <= a < b < self.live@.len() implies disjoint(
                        #[trigger] self.live@[a],
                        #[trigger] self.live@[b],
                    ) by {
                        assert(self.live@[a] == old(self).regions().remove(i)[a]);
                        assert(self.live@[b] == old(self).regions().remove(i)[b]);
                        let oa: int = if a < i {
                            a
                        } else {
                            a + 1
                        };
                        let ob: int = if b < i {
                            b
                        } else {
                            b + 1
                        };
                        assert(old(self).regions().remove(i)[a] == old(self).regions()[oa]);
                        assert(old(self).regions().remove(i)[b] == old(self).regions()[ob]);
                        assert(disjoint(old(self).live@[oa], old(self).live@[ob]));
                    }
                }
                return ;
            }
            k += 1;
        }
        proof {
            let ghost w = choose|i: int|
                0 <= i < old(self).regions().len() && old(self).regions()[i] == (addr, size);
            assert(self.live@[w] != (addr, size));
            assert(false);
        }
    }
}

} // verus!
