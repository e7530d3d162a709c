//! The relocatable compiled module handed over by the code generator.

use crate::stackmap::SafePoint;
use vstd::prelude::*;

verus! {

/// Bytes of the shared entry trampoline appended at link time.
pub const TRAMPOLINE_LEN: usize = 12;

/// What a relocation slot refers to, by function index within the module.
#[derive(Debug, Clone, Copy, PartialEq, Eq, Structural)]
pub enum GcRef {
    /// The closure allocated for that function during this link.
    Closure(usize),
    /// That function's InfoTable.
    Info(usize),
}

/// A placeholder slot at a function-relative offset.
#[derive(Debug, Clone, Copy, PartialEq, Eq, Structural)]
pub struct Reloc {
    pub offset: u64,
    pub target: GcRef,
}

/// Code offsets and symbolic metadata of one function.
pub struct FunctionRecord {
    pub name: String,
    pub entry_offset: u64,
    pub end_offset: u64,
    pub relocs: Vec<Reloc>,
    pub safepoints: Vec<SafePoint>,
}

/// Machine code of several functions plus their records.
pub struct CompiledModule {
    pub code: Vec<u8>,
    pub functions: Vec<FunctionRecord>,
}

pub open spec fn target_index(g: GcRef) -> usize {
    match g {
        GcRef::Closure(j) => j,
        GcRef::Info(j) => j,
    }
}

/// Offsets of `f` lie inside code of length `code_len`: the function is
/// non-empty, its safepoints fall inside it and each slot fits inside it.
pub open spec fn record_wf(f: FunctionRecord, code_len: int) -> bool {
    &&& f.entry_offset < f.end_offset <= code_len
    &&& forall|j: int|
        0 <= j < f.safepoints@.len() ==> #[trigger] f.safepoints@[j].offset < f.end_offset
            - f.entry_offset
    &&& forall|j: int|
        0 <= j < f.relocs@.len() ==> #[trigger] f.relocs@[j].offset + 8 <= f.end_offset
            - f.entry_offset
}

impl CompiledModule {
    pub open spec fn wf(&self) -> bool {
        &&& self.code@.len() + TRAMPOLINE_LEN <= usize::MAX
        &&& forall|i: int|
            0 <= i < self.functions@.len() ==> record_wf(
                #[trigger] self.functions@[i],
                self.code@.len() as int,
            )
    }

    /// Whether every record's offsets lie inside the code.
    pub fn is_well_formed(&self) -> (r: bool)
        ensures
            r == self.wf(),
    {
        let n = self.code.len();
        if n > usize::MAX - TRAMPOLINE_LEN {
            return false;
        }
        let mut i: usize = 0;
        while i < self.functions.len()
            invariant
                i <= self.functions@.len(),
                n == self.code@.len(),
                n + TRAMPOLINE_LEN <= usize::MAX,
                forall|k: int| 0 <= k < i ==> record_wf(#[trigger] self.functions@[k], n as int),
            decreases self.functions@.len() - i,
        {
            let f = &self.functions[i];
            if !(f.entry_offset < f.end_offset && f.end_offset <= n as u64) {
                return false;
            }
            let len = f.end_offset - f.entry_offset;
            let mut j: usize = 0;
            while j < f.safepoints.len()
                invariant
                    j <= f.safepoints@.len(),
                    i < self.functions@.len(),
                    f == self.functions@[i as int],
                    n == self.code@.len(),
                    len == f.end_offset - f.entry_offset,
                    forall|k: int| 0 <= k < j ==> #[trigger] f.safepoints@[k].offset < len,
                decreases f.safepoints@.len() - j,
            {
                if f.safepoints[j].offset >= len {
                    assert(!record_wf(self.functions@[i as int], n as int));
                    return false;
                }
                j = j + 1;
            }
            let mut j: usize = 0;
            while j < f.relocs.len()
                invariant
                    j <= f.relocs@.len(),
                    i < self.functions@.len(),
                    f == self.functions@[i as int],
                    n == self.code@.len(),
                    len == f.end_offset - f.entry_offset,
                    forall|k: int| 0 <= k < j ==> #[trigger] f.relocs@[k].offset + 8 <= len,
                decreases f.relocs@.len() - j,
            {
                if f.relocs[j].offset > len || len - f.relocs[j].offset < 8 {
                    assert(!record_wf(self.functions@[i as int], n as int));
                    return false;
                }
                j = j + 1;
            }
            i = i + 1;
        }
        true
    }
}

} // verus!
