//! The VCDIFF address cache: a ring of recent copy addresses (`near`)
//! and a table hashed by low address bits (`same`), reset at every
//! window boundary.

use vstd::prelude::*;

verus! {

/// The address cache with `near_size` ring slots and `same_size * 256`
/// hash slots.
pub struct AddressCache {
    near_size: usize,
    same_size: usize,
    near: Vec<u64>,
    same: Vec<u64>,
    next_near_slot: usize,
}

impl AddressCache {
    /// The tables have the sizes the cache was built with, and the ring
    /// cursor is in range.
    pub closed spec fn wf(&self) -> bool {
        &&& self.near_size <= 256
        &&& self.same_size <= 256
        &&& self.near@.len() == self.near_size
        &&& self.same@.len() == self.same_size * 256
        &&& (self.near_size > 0 ==> self.next_near_slot < self.near_size)
        &&& (self.near_size == 0 ==> self.next_near_slot == 0)
    }

    /// The ring of recent addresses.
    pub closed spec fn spec_near(&self) -> Seq<u64> {
        self.near@
    }

    /// The hash table of recent addresses.
    pub closed spec fn spec_same(&self) -> Seq<u64> {
        self.same@
    }

    /// The ring slot the next address will take.
    pub closed spec fn spec_next_slot(&self) -> int {
        self.next_near_slot as int
    }

    /// The configured ring size.
    pub closed spec fn spec_near_size(&self) -> int {
        self.near_size as int
    }

    /// The configured hash parameter.
    pub closed spec fn spec_same_size(&self) -> int {
        self.same_size as int
    }

    /// A cache with all slots zero and the ring cursor at the start.
    pub fn new(near_size: usize, same_size: usize) -> (r: AddressCache)
        requires
            near_size <= 256,
            same_size <= 256,
        ensures
            r.wf(),
            r.spec_near_size() == near_size,
            r.spec_same_size() == same_size,
            r.spec_next_slot() == 0,
            r.spec_near() == Seq::new(near_size as nat, |i: int| 0u64),
            r.spec_same() == Seq::new((same_size * 256) as nat, |i: int| 0u64),
    {
        let r = AddressCache {
            near_size,
            same_size,
            near: vec![0u64; near_size],
            same: vec![0u64; same_size * 256],
            next_near_slot: 0,
        };
        proof {
            assert(r.near@ =~= Seq::new(near_size as nat, |i: int| 0u64));
            assert(r.same@ =~= Seq::new((same_size * 256) as nat, |i: int| 0u64));
        }
        r
    }

    /// Clears every slot and returns the ring cursor to the start.
    pub fn reset(&mut self)
        requires
            old(self).wf(),
        ensures
            final(self).wf(),
            final(self).spec_near_size() == old(self).spec_near_size(),
            final(self).spec_same_size() == old(self).spec_same_size(),
            final(self).spec_next_slot() == 0,
            final(self).spec_near() == Seq::new(old(self).spec_near_size() as nat, |i: int| 0u64),
            final(self).spec_same() == Seq::new(
                (old(self).spec_same_size() * 256) as nat,
                |i: int| 0u64,
            ),
    {
        self.next_near_slot = 0;
        let mut k: usize = 0;
        let nlen = self.near.len();
        while k < nlen
            invariant
                k <= nlen,
                self.near_size == old(self).near_size,
                self.same_size == old(self).same_size,
                self.same@ == old(self).same@,
                self.next_near_slot == 0,
                self.near@.len() == nlen,
                nlen == old(self).near_size,
                forall|j: int| 0 <= j < k ==> self.near@[j] == 0u64,
            decreases nlen - k,
        {
            self.near[k] = 0;
            k = k + 1;
        }
        let mut k2: usize = 0;
        let slen = self.same.len();
        while k2 < slen
            invariant
                k2 <= slen,
                self.near_size == old(self).near_size,
                self.same_size == old(self).same_size,
                self.next_near_slot == 0,
                self.near@.len() == old(self).near_size,
                forall|j: int| 0 <= j < self.near@.len() ==> self.near@[j] == 0u64,
                self.same@.len() == slen,
                slen == old(self).same_size * 256,
                forall|j: int| 0 <= j < k2 ==> self.same@[j] == 0u64,
            decreases slen - k2,
        {
            self.same[k2] = 0;
            k2 = k2 + 1;
        }
        proof {
            assert(self.near@ =~= Seq::new(old(self).spec_near_size() as nat, |i: int| 0u64));
            assert(self.same@ =~= Seq::new(
                (old(self).spec_same_size() * 256) as nat,
                |i: int| 0u64,
            ));
        }
    }

    /// Publishes a resolved copy address: into the next ring slot, and
    /// into the hash slot its low bits select.
    pub fn update(&mut self, address: u64)
        requires
            old(self).wf(),
        ensures
            final(self).wf(),
            final(self).spec_near_size() == old(self).spec_near_size(),
            final(self).spec_same_size() == old(self).spec_same_size(),
            final(self).spec_near() == (if old(self).spec_near_size() > 0 {
                old(self).spec_near().update(old(self).spec_next_slot(), address)
            } else {
                old(self).spec_near()
            }),
            final(self).spec_next_slot() == (if old(self).spec_near_size() > 0 {
                (old(self).spec_next_slot() + 1) % old(self).spec_near_size()
            } else {
                0
            }),
            final(self).spec_same() == (if old(self).spec_same_size() > 0 {
                old(self).spec_same().update(
                    (address as int) % (old(self).spec_same_size() * 256),
                    address,
                )
            } else {
                old(self).spec_same()
            }),
    {
        if self.near_size > 0 {
            let slot = self.next_near_slot;
            self.near[slot] = address;
            self.next_near_slot = (slot + 1) % self.near_size;
        }
        if self.same_size > 0 {
            let m = self.same_size * 256;
            let idx = (address % (m as u64)) as usize;
            proof {
                assert((address as int) % (m as int) < m as int) by (nonlinear_arith)
                    requires
                        m > 0,
                ;
            }
            self.same[idx] = address;
        }
    }

    /// The address in ring slot `index`.
    pub fn get_near(&self, index: usize) -> (r: u64)
        requires
            self.wf(),
            index < self.spec_near_size(),
        ensures
            r == self.spec_near()[index as int],
    {
        self.near[index]
    }

    /// The address in hash slot `index`.
    pub fn get_same(&self, index: usize) -> (r: u64)
        requires
            self.wf(),
            index < self.spec_same_size() * 256,
        ensures
            r == self.spec_same()[index as int],
    {
        self.same[index]
    }

    /// The configured ring size.
    pub fn near_size(&self) -> (r: usize)
        ensures
            r == self.spec_near_size(),
    {
        self.near_size
    }
}

impl Default for AddressCache {
    /// The RFC 3284 default parameters: four ring slots, three hash
    /// pages.
    fn default() -> (r: AddressCache)
        ensures
            r.wf(),
            r.spec_near_size() == 4,
            r.spec_same_size() == 3,
            r.spec_next_slot() == 0,
            r.spec_near() == Seq::new(4, |i: int| 0u64),
            r.spec_same() == Seq::new(768, |i: int| 0u64),
    {
        AddressCache::new(4, 3)
    }
}

} // verus!
