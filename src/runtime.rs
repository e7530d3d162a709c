//! The runtime side the linker talks to: a closure heap that hands out
//! stable closure addresses, and the state published for the collector.

use crate::error::LinkError;
use crate::stackmap::StackMapTable;
use vstd::prelude::*;

verus! {

/// Size in bytes of a closure object without captured values.
pub const CLOSURE_BYTES: u64 = 16;

/// Address of the `i`-th closure of a heap starting at `heap_base`.
pub open spec fn closure_addr(heap_base: u64, i: int) -> u64 {
    (heap_base + CLOSURE_BYTES * i) as u64
}

/// A closure without captured values: the entry address that identifies
/// its function's InfoTable.
#[derive(Debug, Clone, Copy, PartialEq, Eq, Structural)]
pub struct Closure {
    pub info_entry: u64,
}

pub struct Runtime {
    heap_base: u64,
    capacity: usize,
    closures: Vec<Closure>,
    gc_smt: StackMapTable,
    gc_infos: Vec<u64>,
}

impl Runtime {
    pub closed spec fn heap_base(&self) -> u64 {
        self.heap_base
    }

    pub closed spec fn capacity(&self) -> nat {
        self.capacity as nat
    }

    /// Info entries of the allocated closures, in allocation order.
    pub closed spec fn closures(&self) -> Seq<Closure> {
        self.closures@
    }

    /// The stack map published for the collector.
    pub closed spec fn gc_smt(&self) -> Seq<(u64, Seq<crate::stackmap::RootLoc>)> {
        self.gc_smt@
    }

    /// The InfoTable entry addresses published for the collector.
    pub closed spec fn gc_infos(&self) -> Seq<u64> {
        self.gc_infos@
    }

    pub closed spec fn wf(&self) -> bool {
        &&& self.closures@.len() <= self.capacity
        &&& self.heap_base + CLOSURE_BYTES * self.capacity <= u64::MAX
    }

    /// An empty heap of `capacity` closures at `heap_base`.
    pub fn new(heap_base: u64, capacity: usize) -> (r: Self)
        requires
            heap_base + CLOSURE_BYTES * capacity <= u64::MAX,
        ensures
            r.wf(),
            r.heap_base() == heap_base,
            r.capacity() == capacity,
            r.closures().len() == 0,
            r.gc_smt().len() == 0,
            r.gc_infos().len() == 0,
    {
        Runtime {
            heap_base,
            capacity,
            closures: Vec::new(),
            gc_smt: StackMapTable::new(),
            gc_infos: Vec::new(),
        }
    }

    /// How many more closures the heap can hold.
    pub fn free(&self) -> (r: usize)
        requires
            self.wf(),
        ensures
            r == self.capacity() - self.closures().len(),
    {
        self.capacity - self.closures.len()
    }

    /// Allocates a closure for the InfoTable at `info_entry` and returns its
    /// address; fails when the heap is full.
    pub fn new_closure(&mut self, info_entry: u64) -> (r: Result<u64, LinkError>)
        requires
            old(self).wf(),
        ensures
            final(self).wf(),
            final(self).heap_base() == old(self).heap_base(),
            final(self).capacity() == old(self).capacity(),
            final(self).gc_smt() == old(self).gc_smt(),
            final(self).gc_infos() == old(self).gc_infos(),
            r is Err <==> old(self).closures().len() == old(self).capacity(),
            r matches Err(e) ==> e == LinkError::AllocationFailure && *final(self) == *old(self),
            r matches Ok(a) ==> a == closure_addr(old(self).heap_base(), old(self).closures().len() as int)
                && final(self).closures() == old(self).closures().push(Closure { info_entry }),
    {
        if self.closures.len() == self.capacity {
            return Err(LinkError::AllocationFailure);
        }
        let i = self.closures.len() as u64;
        proof {
            assert(CLOSURE_BYTES * i <= CLOSURE_BYTES * self.capacity) by (nonlinear_arith)
                requires i <= self.capacity;
        }
        let a = self.heap_base + CLOSURE_BYTES * i;
        self.closures.push(Closure { info_entry });
        Ok(a)
    }

    /// The closure at address `addr`, if this heap allocated one there.
    pub fn closure_at(&self, addr: u64) -> (r: Option<Closure>)
        requires
            self.wf(),
        ensures
            r matches Some(c) ==> exists|i: int|
                0 <= i < self.closures().len() && closure_addr(self.heap_base(), i) == addr
                    && #[trigger] self.closures()[i] == c,
            r is None ==> forall|i: int|
                0 <= i < self.closures().len() ==> closure_addr(self.heap_base(), i) != addr,
    {
        if addr < self.heap_base || (addr - self.heap_base) % CLOSURE_BYTES != 0 {
            proof {
                assert forall|i: int| 0 <= i < self.closures().len() implies closure_addr(
                    self.heap_base(),
                    i,
                ) != addr by {
                    assert(CLOSURE_BYTES * i <= CLOSURE_BYTES * self.capacity) by (nonlinear_arith)
                        requires 0 <= i <= self.capacity;
                    assert((CLOSURE_BYTES * i) % (CLOSURE_BYTES as int) == 0) by (nonlinear_arith);
                }
            }
            return None;
        }
        let i = (addr - self.heap_base) / CLOSURE_BYTES;
        if i >= self.closures.len() as u64 {
            proof {
                assert forall|k: int| 0 <= k < self.closures().len() implies closure_addr(
                    self.heap_base(),
                    k,
                ) != addr by {
                    assert(CLOSURE_BYTES * k <= CLOSURE_BYTES * self.capacity) by (nonlinear_arith)
                        requires 0 <= k <= self.capacity;
                    assert(k < i) by (nonlinear_arith)
                        requires
                            0 <= k < self.closures().len() <= i,
                    ;
                    assert(addr - self.heap_base == CLOSURE_BYTES * i) by (nonlinear_arith)
                        requires
                            (addr - self.heap_base) % (CLOSURE_BYTES as int) == 0,
                            i == (addr - self.heap_base) / (CLOSURE_BYTES as int),
                    ;
                    assert(CLOSURE_BYTES * k < CLOSURE_BYTES * i) by (nonlinear_arith)
                        requires k < i;
                }
            }
            return None;
        }
        proof {
            assert(addr - self.heap_base == CLOSURE_BYTES * i) by (nonlinear_arith)
                requires
                    (addr - self.heap_base) % (CLOSURE_BYTES as int) == 0,
                    i == (addr - self.heap_base) / (CLOSURE_BYTES as int),
            ;
            assert(closure_addr(self.heap_base(), i as int) == addr);
        }
        let c = self.closures[i as usize];
        assert(self.closures()[i as int] == c);
        Some(c)
    }

    /// Makes a stack map and InfoTable list visible to the collector.
    pub fn publish(&mut self, smt: &StackMapTable, infos: &Vec<u64>)
        ensures
            final(self).heap_base() == old(self).heap_base(),
            final(self).capacity() == old(self).capacity(),
            final(self).closures() == old(self).closures(),
            final(self).wf() == old(self).wf(),
            final(self).gc_smt() == smt@,
            final(self).gc_infos() == infos@,
    {
        self.gc_smt = smt.copy();
        let mut v: Vec<u64> = Vec::new();
        let mut i: usize = 0;
        while i < infos.len()
            invariant
                i <= infos@.len(),
                v@ == infos@.subrange(0, i as int),
            decreases infos@.len() - i,
        {
            v.push(infos[i]);
            i = i + 1;
            assert(v@ =~= infos@.subrange(0, i as int));
        }
        assert(infos@.subrange(0, infos@.len() as int) =~= infos@);
        self.gc_infos = v;
    }
}

} // verus!
