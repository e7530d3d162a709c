//! Safepoint stack maps: symbolic per-function entries and the
//! absolute-address-keyed table the collector queries during stack walks.

use crate::x64::R64;
use vstd::prelude::*;

verus! {

/// Where a live heap reference sits at a safepoint.
#[derive(Debug, Clone, Copy, PartialEq, Eq, Structural)]
pub enum RootLoc {
    Reg(R64),
    Frame(i32),
}

/// A safepoint at a function-relative code offset with its live roots.
pub struct SafePoint {
    pub offset: u64,
    pub roots: Vec<RootLoc>,
}

/// A safepoint keyed by its absolute return address.
pub struct StackMapEntry {
    pub addr: u64,
    pub roots: Vec<RootLoc>,
}

/// The stack map table of a linked module, in insertion order.
pub struct StackMapTable {
    entries: Vec<StackMapEntry>,
}

pub open spec fn entry_view(e: StackMapEntry) -> (u64, Seq<RootLoc>) {
    (e.addr, e.roots@)
}

/// The absolute entries contributed by `sps` for code starting at `start`.
pub open spec fn absolute(start: int, sps: Seq<SafePoint>) -> Seq<(u64, Seq<RootLoc>)> {
    Seq::new(sps.len(), |j: int| ((start + sps[j].offset) as u64, sps[j].roots@))
}

pub open spec fn view_of(es: Seq<StackMapEntry>) -> Seq<(u64, Seq<RootLoc>)> {
    Seq::new(es.len(), |i: int| entry_view(es[i]))
}

impl View for StackMapTable {
    type V = Seq<(u64, Seq<RootLoc>)>;

    closed spec fn view(&self) -> Seq<(u64, Seq<RootLoc>)> {
        view_of(self.entries@)
    }
}

pub fn copy_roots(roots: &Vec<RootLoc>) -> (r: Vec<RootLoc>)
    ensures
        r@ == roots@,
{
    let mut r: Vec<RootLoc> = Vec::new();
    let mut i: usize = 0;
    while i < roots.len()
        invariant
            i <= roots@.len(),
            r@ == roots@.subrange(0, i as int),
        decreases roots@.len() - i,
    {
        r.push(roots[i]);
        i = i + 1;
        assert(r@ =~= roots@.subrange(0, i as int));
    }
    assert(roots@.subrange(0, roots@.len() as int) =~= roots@);
    r
}

impl StackMapTable {
    pub fn new() -> (r: Self)
        ensures
            r@ == Seq::<(u64, Seq<RootLoc>)>::empty(),
    {
        let r = StackMapTable { entries: Vec::new() };
        assert(r@ =~= Seq::<(u64, Seq<RootLoc>)>::empty());
        r
    }

    pub fn len(&self) -> (r: usize)
        ensures
            r == self@.len(),
    {
        self.entries.len()
    }

    /// Appends the safepoints of a function whose code starts at `start`.
    pub fn extend_with(&mut self, start: u64, sps: &Vec<SafePoint>)
        requires
            forall|j: int| 0 <= j < sps@.len() ==> start + #[trigger] sps@[j].offset <= u64::MAX,
        ensures
            final(self)@ == old(self)@ + absolute(start as int, sps@),
    {
        let ghost before = self@;
        let mut j: usize = 0;
        while j < sps.len()
            invariant
                j <= sps@.len(),
                forall|j: int| 0 <= j < sps@.len() ==> start + #[trigger] sps@[j].offset <= u64::MAX,
                self.entries@.len() == before.len() + j,
                self@ == before + absolute(start as int, sps@).subrange(0, j as int),
            decreases sps@.len() - j,
        {
            let roots = copy_roots(&sps[j].roots);
            let ghost prev = self.entries@;
            let ghost prevv = self@;
            self.entries.push(StackMapEntry { addr: start + sps[j].offset, roots });
            assert(forall|k: int| 0 <= k < prev.len() ==> #[trigger] self.entries@[k] == prev[k]);
            assert(self@[prev.len() as int] == absolute(start as int, sps@)[j as int]);
            assert(forall|k: int| 0 <= k < prevv.len() ==> #[trigger] self@[k] == prevv[k]);
            j = j + 1;
            assert(self@ =~= before + absolute(start as int, sps@).subrange(0, j as int));
        }
        assert(absolute(start as int, sps@).subrange(0, j as int) =~= absolute(start as int, sps@));
    }

    /// The live roots recorded at exactly `addr`; `None` where no safepoint
    /// has that address (no nearest entry is ever substituted).
    pub fn roots_at(&self, addr: u64) -> (r: Option<Vec<RootLoc>>)
        ensures
            r is None ==> forall|i: int| 0 <= i < self@.len() ==> #[trigger] self@[i].0 != addr,
            r matches Some(roots) ==> exists|i: int|
                0 <= i < self@.len() && #[trigger] self@[i] == (addr, roots@),
    {
        let mut i: usize = 0;
        while i < self.entries.len()
            invariant
                i <= self@.len(),
                forall|k: int| 0 <= k < i ==> #[trigger] self@[k].0 != addr,
            decreases self@.len() - i,
        {
            if self.entries[i].addr == addr {
                let roots = copy_roots(&self.entries[i].roots);
                assert(self@.len() == self.entries@.len());
                assert(self@[i as int] == (addr, roots@));
                return Some(roots);
            }
            i = i + 1;
        }
        None
    }

    /// An entry-for-entry copy of the table.
    pub fn copy(&self) -> (r: Self)
        ensures
            r@ == self@,
    {
        let mut entries: Vec<StackMapEntry> = Vec::new();
        let mut i: usize = 0;
        while i < self.entries.len()
            invariant
                i <= self@.len(),
                entries@.len() == i,
                view_of(entries@) == self@.subrange(0, i as int),
            decreases self@.len() - i,
        {
            let roots = copy_roots(&self.entries[i].roots);
            entries.push(StackMapEntry { addr: self.entries[i].addr, roots });
            i = i + 1;
            assert(view_of(entries@) =~= self@.subrange(0, i as int));
        }
        let r = StackMapTable { entries };
        assert(r@ =~= self@);
        r
    }
}

} // verus!
