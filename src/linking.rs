//! Linking a compiled module into a callable one, and the one-shot
//! call protocol.

use crate::encode::{patched, write_slot};
use crate::error::{CallError, LinkError};
use crate::module::{target_index, CompiledModule, FunctionRecord, GcRef, TRAMPOLINE_LEN};
use crate::runtime::{closure_addr, Closure, Runtime};
use crate::stackmap::{absolute, RootLoc, StackMapTable};
use vstd::prelude::*;

verus! {

/// The shared entry routine appended after the module's code:
/// `push rbp; mov rbp, rsp; mov rax, [rdi]; call rax; pop rbp; ret; nop`.
/// It receives the closure in `rdi` and the runtime context in `rsi`, loads
/// the entry address the closure's first word holds and calls it.
pub open spec fn trampoline_spec() -> Seq<u8> {
    seq![0x55u8, 0x48, 0x89, 0xe5, 0x48, 0x8b, 0x07, 0xff, 0xd0, 0x5d, 0xc3, 0x90]
}

pub fn trampoline() -> (r: Vec<u8>)
    ensures
        r@ == trampoline_spec(),
        r@.len() == TRAMPOLINE_LEN,
{
    let r = vec![0x55u8, 0x48, 0x89, 0xe5, 0x48, 0x8b, 0x07, 0xff, 0xd0, 0x5d, 0xc3, 0x90];
    assert(r@ =~= trampoline_spec());
    r
}

/// Per-function runtime descriptor: absolute entry address and the slice
/// of the module's stack map that belongs to the function.
#[derive(Debug, Clone, Copy, PartialEq, Eq, Structural)]
pub struct InfoTable {
    pub entry: u64,
    pub smt_start: usize,
    pub smt_len: usize,
}

struct RegEntry {
    name: String,
    closure: u64,
    taken: bool,
}

/// What the caller must do to run a taken closure: enter the trampoline
/// at `trampoline` with `closure`; the trampoline transfers to `entry`.
#[derive(Debug, Clone, Copy, PartialEq, Eq, Structural)]
pub struct Invocation {
    pub trampoline: u64,
    pub closure: u64,
    pub entry: u64,
}

pub struct LinkedModule {
    base: u64,
    code: Vec<u8>,
    trampoline_offset: usize,
    registry: Vec<RegEntry>,
    smt: StackMapTable,
    infotables: Vec<InfoTable>,
}

// ---- the model of a link ----

pub open spec fn names_unique(fns: Seq<FunctionRecord>) -> bool {
    forall|i: int, j: int|
        0 <= j < i < fns.len() ==> #[trigger] fns[i].name@ != #[trigger] fns[j].name@
}

pub open spec fn relocs_resolvable(fns: Seq<FunctionRecord>) -> bool {
    forall|i: int, k: int|
        0 <= i < fns.len() && 0 <= k < fns[i].relocs@.len() ==> target_index(
            #[trigger] fns[i].relocs@[k].target,
        ) < fns.len()
}

/// The region `[base, base + code + trampoline)` fits the address space.
pub open spec fn region_fits(code_len: int, base: u64) -> bool {
    base + code_len + TRAMPOLINE_LEN <= u64::MAX
}

/// Which way a link goes, checked in protocol order.
pub open spec fn link_outcome(m: CompiledModule, free: int, base: u64) -> Result<(), LinkError> {
    if !region_fits(m.code@.len() as int, base) {
        Err(LinkError::AllocationFailure)
    } else if !names_unique(m.functions@) {
        Err(LinkError::DuplicateDefinition)
    } else if free < m.functions@.len() {
        Err(LinkError::AllocationFailure)
    } else if !relocs_resolvable(m.functions@) {
        Err(LinkError::UnresolvedRelocation)
    } else {
        Ok(())
    }
}

pub open spec fn entry_addr(fns: Seq<FunctionRecord>, base: u64, i: int) -> u64 {
    (base + fns[i].entry_offset) as u64
}

/// The address a slot referring to `g` receives: the closure allocated for
/// the target (the heap held `heap_len` closures before the link), or the
/// target's InfoTable entry address.
pub open spec fn target_value(
    fns: Seq<FunctionRecord>,
    base: u64,
    heap_base: u64,
    heap_len: int,
    g: GcRef,
) -> u64 {
    match g {
        GcRef::Closure(j) => closure_addr(heap_base, heap_len + j),
        GcRef::Info(j) => entry_addr(fns, base, j as int),
    }
}

/// The (slot position, value) writes of function `i`, in relocation order.
pub open spec fn fn_writes(
    fns: Seq<FunctionRecord>,
    base: u64,
    heap_base: u64,
    heap_len: int,
    i: int,
) -> Seq<(int, u64)> {
    Seq::new(
        fns[i].relocs@.len(),
        |k: int|
            (
                fns[i].entry_offset + fns[i].relocs@[k].offset,
                target_value(fns, base, heap_base, heap_len, fns[i].relocs@[k].target),
            ),
    )
}

/// All writes of the first `n` functions.
pub open spec fn writes_upto(
    fns: Seq<FunctionRecord>,
    base: u64,
    heap_base: u64,
    heap_len: int,
    n: int,
) -> Seq<(int, u64)>
    decreases n,
{
    if n <= 0 {
        Seq::empty()
    } else {
        writes_upto(fns, base, heap_base, heap_len, n - 1) + fn_writes(
            fns,
            base,
            heap_base,
            heap_len,
            n - 1,
        )
    }
}

/// `code` after performing `ws` in order.
pub open spec fn apply_writes(code: Seq<u8>, ws: Seq<(int, u64)>) -> Seq<u8>
    decreases ws.len(),
{
    if ws.len() == 0 {
        code
    } else {
        patched(apply_writes(code, ws.drop_last()), ws.last().0, ws.last().1)
    }
}

/// The stack map entries of the first `n` functions.
pub open spec fn smt_upto(fns: Seq<FunctionRecord>, base: u64, n: int) -> Seq<
    (u64, Seq<RootLoc>),
>
    decreases n,
{
    if n <= 0 {
        Seq::empty()
    } else {
        smt_upto(fns, base, n - 1) + absolute(
            entry_addr(fns, base, n - 1) as int,
            fns[n - 1].safepoints@,
        )
    }
}

impl LinkedModule {
    pub closed spec fn base(&self) -> u64 {
        self.base
    }

    /// The final bytes of the code region.
    pub closed spec fn code(&self) -> Seq<u8> {
        self.code@
    }

    pub closed spec fn trampoline_offset(&self) -> int {
        self.trampoline_offset as int
    }

    /// Registry entries in function order: name, closure address, taken.
    pub closed spec fn registry(&self) -> Seq<(Seq<char>, u64, bool)> {
        Seq::new(
            self.registry@.len(),
            |i: int| (self.registry@[i].name@, self.registry@[i].closure, self.registry@[i].taken),
        )
    }

    pub closed spec fn infos(&self) -> Seq<InfoTable> {
        self.infotables@
    }

    pub closed spec fn smt_view(&self) -> Seq<(u64, Seq<RootLoc>)> {
        self.smt@
    }

    /// Registry names are pairwise distinct, one entry per InfoTable, and
    /// the trampoline lies inside the region.
    pub open spec fn wf(&self) -> bool {
        &&& self.registry().len() == self.infos().len()
        &&& forall|i: int, j: int|
            0 <= i < self.registry().len() && 0 <= j < self.registry().len() && i != j
                ==> #[trigger] self.registry()[i].0 != #[trigger] self.registry()[j].0
        &&& self.trampoline_offset() + TRAMPOLINE_LEN <= self.code().len()
        &&& self.base() + self.code().len() <= u64::MAX
    }

    /// `self` is the result of linking `m` at `base` against a heap at
    /// `heap_base` that held `heap_len` closures.
    pub open spec fn linked_from(
        &self,
        m: CompiledModule,
        base: u64,
        heap_base: u64,
        heap_len: int,
    ) -> bool {
        let fns = m.functions@;
        let n = fns.len() as int;
        &&& self.wf()
        &&& self.base() == base
        &&& self.trampoline_offset() == m.code@.len()
        &&& self.code().len() == m.code@.len() + TRAMPOLINE_LEN
        &&& self.code() == apply_writes(
            m.code@ + trampoline_spec(),
            writes_upto(fns, base, heap_base, heap_len, n),
        )
        &&& self.infos().len() == n
        &&& self.registry().len() == n
        &&& forall|i: int|
            0 <= i < n ==> #[trigger] self.infos()[i] == (InfoTable {
                entry: entry_addr(fns, base, i),
                smt_start: smt_upto(fns, base, i).len() as usize,
                smt_len: fns[i].safepoints@.len() as usize,
            })
        &&& forall|i: int|
            0 <= i < n ==> #[trigger] self.registry()[i] == (
                fns[i].name@,
                closure_addr(heap_base, heap_len + i),
                false,
            )
        &&& self.smt_view() == smt_upto(fns, base, n)
        &&& relocs_resolvable(fns)
    }

    /// Links `cm` into a region placed at `base`: appends the trampoline,
    /// builds one InfoTable, one set of stack map entries and one closure
    /// per function (pass 1), then patches every relocation slot (pass 2).
    /// Either every step succeeds or nothing is built and `rt` is untouched.
    pub fn new(cm: CompiledModule, rt: &mut Runtime, base: u64) -> (r: Result<Self, LinkError>)
        requires
            cm.wf(),
            old(rt).wf(),
        ensures
            final(rt).wf(),
            r matches Err(e) ==> link_outcome(
                cm,
                old(rt).capacity() - old(rt).closures().len(),
                base,
            ) == Err::<(), LinkError>(e),
            r is Err ==> *final(rt) == *old(rt),
            link_outcome(cm, old(rt).capacity() - old(rt).closures().len(), base) is Err
                ==> r is Err,
            r matches Ok(lm) ==> {
                &&& lm.linked_from(cm, base, old(rt).heap_base(), old(rt).closures().len() as int)
                &&& final(rt).heap_base() == old(rt).heap_base()
                &&& final(rt).capacity() == old(rt).capacity()
                &&& final(rt).gc_smt() == old(rt).gc_smt()
                &&& final(rt).gc_infos() == old(rt).gc_infos()
                &&& final(rt).closures() == old(rt).closures() + Seq::new(
                    cm.functions@.len(),
                    |i: int| Closure { info_entry: entry_addr(cm.functions@, base, i) },
                )
            },
    {
        let ghost m = cm;
        let ghost hb = rt.heap_base();
        let ghost hl = rt.closures().len() as int;
        let ghost rt0 = *rt;
        let functions = &cm.functions;
        let mut code = copy_bytes(&cm.code);
        let ghost fns = functions@;
        let n = functions.len();
        let code_len = code.len();
        // The region must fit the address space.
        if u64::MAX - base < code_len as u64 || u64::MAX - base - (code_len as u64) < 12 {
            return Err(LinkError::AllocationFailure);
        }
        // Names are unique.
        let mut i: usize = 0;
        while i < n
            invariant
                i <= n == fns.len(),
                functions@ == fns,
                *rt == rt0,
                rt0 == *old(rt),
                m == cm,
                rt0.wf(),
                fns == m.functions@,
                code_len == m.code@.len(),
                region_fits(code_len as int, base),
                forall|a: int, b: int| 0 <= b < a < i ==> #[trigger] fns[a].name@ != #[trigger] fns[b].name@,
            decreases n - i,
        {
            let mut j: usize = 0;
            while j < i
                invariant
                    j <= i < n == fns.len(),
                    functions@ == fns,
                    *rt == rt0,
                rt0 == *old(rt),
                m == cm,
                    rt0.wf(),
                    fns == m.functions@,
                    code_len == m.code@.len(),
                    region_fits(code_len as int, base),
                    forall|a: int, b: int| 0 <= b < a < i ==> #[trigger] fns[a].name@ != #[trigger] fns[b].name@,
                    forall|b: int| 0 <= b < j ==> fns[i as int].name@ != #[trigger] fns[b].name@,
                decreases i - j,
            {
                if functions[i].name == functions[j].name {
                    assert(!names_unique(fns));
                    return Err(LinkError::DuplicateDefinition);
                }
                j = j + 1;
            }
            i = i + 1;
        }
        // The heap has room for one closure per function.
        if rt.free() < n {
            return Err(LinkError::AllocationFailure);
        }
        // Every relocation names a function of the module.
        let mut i: usize = 0;
        while i < n
            invariant
                i <= n == fns.len(),
                functions@ == fns,
                *rt == rt0,
                rt0 == *old(rt),
                m == cm,
                rt0.wf(),
                fns == m.functions@,
                code_len == m.code@.len(),
                region_fits(code_len as int, base),
                names_unique(fns),
                rt0.capacity() - rt0.closures().len() >= n,
                forall|a: int, k: int|
                    0 <= a < i && 0 <= k < fns[a].relocs@.len() ==> target_index(
                        #[trigger] fns[a].relocs@[k].target,
                    ) < n,
            decreases n - i,
        {
            let mut k: usize = 0;
            while k < functions[i].relocs.len()
                invariant
                    i < n == fns.len(),
                    functions@ == fns,
                    *rt == rt0,
                rt0 == *old(rt),
                m == cm,
                    rt0.wf(),
                    fns == m.functions@,
                    code_len == m.code@.len(),
                    region_fits(code_len as int, base),
                    names_unique(fns),
                    rt0.capacity() - rt0.closures().len() >= n,
                    k <= fns[i as int].relocs@.len(),
                    forall|a: int, k: int|
                        0 <= a < i && 0 <= k < fns[a].relocs@.len() ==> target_index(
                            #[trigger] fns[a].relocs@[k].target,
                        ) < n,
                    forall|q: int| 0 <= q < k ==> target_index(
                        #[trigger] fns[i as int].relocs@[q].target,
                    ) < n,
                decreases fns[i as int].relocs@.len() - k,
            {
                let t = match functions[i].relocs[k].target {
                    GcRef::Closure(j) => j,
                    GcRef::Info(j) => j,
                };
                if t >= n {
                    assert(!relocs_resolvable(fns));
                    return Err(LinkError::UnresolvedRelocation);
                }
                k = k + 1;
            }
            i = i + 1;
        }
        assert(link_outcome(m, rt0.capacity() - rt0.closures().len(), base) is Ok);
        // Pass 1: InfoTables, stack map entries, closures, registry.
        let mut smt = StackMapTable::new();
        let mut infotables: Vec<InfoTable> = Vec::new();
        let mut registry: Vec<RegEntry> = Vec::new();
        let mut i: usize = 0;
        while i < n
            invariant
                i <= n == fns.len(),
                functions@ == fns,
                m.wf(),
                fns == m.functions@,
                code_len == m.code@.len(),
                base + code_len + TRAMPOLINE_LEN <= u64::MAX,
                rt.wf(),
                rt.heap_base() == hb,
                rt.capacity() == rt0.capacity(),
                rt.gc_smt() == rt0.gc_smt(),
                rt.gc_infos() == rt0.gc_infos(),
                hl == rt0.closures().len(),
                rt.closures() == rt0.closures() + Seq::new(
                    i as nat,
                    |k: int| Closure { info_entry: entry_addr(fns, base, k) },
                ),
                rt.capacity() - rt.closures().len() >= n - i,
                infotables@.len() == i,
                infos_match(infotables@, fns, base, i as int),
                registry@.len() == i,
                reg_matches(registry@, fns, hb, hl, i as int),
                smt@ == smt_upto(fns, base, i as int),
            decreases n - i,
        {
            assert(record_wf_at(m, i as int));
            let entry = base + functions[i].entry_offset;
            let smt_start = smt.len();
            smt.extend_with(entry, &functions[i].safepoints);
            assert(smt@ =~= smt_upto(fns, base, i + 1));
            let ghost prev_infos = infotables@;
            infotables.push(
                InfoTable { entry, smt_start, smt_len: functions[i].safepoints.len() },
            );
            assert(forall|k: int| 0 <= k < i ==> #[trigger] infotables@[k] == prev_infos[k]);
            assert(rt.closures().len() == hl + i);
            let closure = match rt.new_closure(entry) {
                Ok(a) => a,
                Err(e) => {
                    return Err(e);
                },
            };
            let name = functions[i].name.clone();
            assert(name@ == fns[i as int].name@);
            let ghost prev_reg = registry@;
            registry.push(RegEntry { name, closure, taken: false });
            assert(forall|k: int| 0 <= k < i ==> #[trigger] registry@[k] == prev_reg[k]);
            assert(registry@[i as int].closure == closure_addr(hb, hl + i));
            assert(reg_matches(registry@, fns, hb, hl, i + 1));
            i = i + 1;
            assert(rt.closures() =~= rt0.closures() + Seq::new(
                i as nat,
                |k: int| Closure { info_entry: entry_addr(fns, base, k) },
            ));
        }
        // Pass 2: every closure and InfoTable exists; patch the slots.
        let tramp = trampoline();
        let mut t: usize = 0;
        while t < TRAMPOLINE_LEN
            invariant
                t <= TRAMPOLINE_LEN,
                tramp@ == trampoline_spec(),
                code@ == m.code@ + trampoline_spec().subrange(0, t as int),
            decreases TRAMPOLINE_LEN - t,
        {
            code.push(tramp[t]);
            t = t + 1;
            assert(code@ =~= m.code@ + trampoline_spec().subrange(0, t as int));
        }
        assert(trampoline_spec().subrange(0, 12) =~= trampoline_spec());
        let ghost init = code@;
        let mut i: usize = 0;
        while i < n
            invariant
                i <= n == fns.len(),
                functions@ == fns,
                m.wf(),
                fns == m.functions@,
                code_len == m.code@.len(),
                init == m.code@ + trampoline_spec(),
                code@.len() == init.len(),
                infotables@.len() == n,
                registry@.len() == n,
                relocs_resolvable(fns),
                infos_match(infotables@, fns, base, n as int),
                reg_matches(registry@, fns, hb, hl, n as int),
                code@ == apply_writes(init, writes_upto(fns, base, hb, hl, i as int)),
            decreases n - i,
        {
            assert(record_wf_at(m, i as int));
            let ghost w0 = writes_upto(fns, base, hb, hl, i as int);
            let ghost fw = fn_writes(fns, base, hb, hl, i as int);
            let entry_offset = functions[i].entry_offset;
            let mut k: usize = 0;
            assert(w0 + fw.take(0) =~= w0);
            while k < functions[i].relocs.len()
                invariant
                    i < n == fns.len(),
                    functions@ == fns,
                    m.wf(),
                    fns == m.functions@,
                    code_len == m.code@.len(),
                    record_wf_at(m, i as int),
                    entry_offset == fns[i as int].entry_offset,
                    init == m.code@ + trampoline_spec(),
                    code@.len() == init.len(),
                    infotables@.len() == n,
                    registry@.len() == n,
                    relocs_resolvable(fns),
                    infos_match(infotables@, fns, base, n as int),
                    reg_matches(registry@, fns, hb, hl, n as int),
                    k <= fw.len(),
                    fw == fn_writes(fns, base, hb, hl, i as int),
                    code@ == apply_writes(init, w0 + fw.take(k as int)),
                decreases fw.len() - k,
            {
                let rel = functions[i].relocs[k];
                assert(target_index(fns[i as int].relocs@[k as int].target) < n);
                let val = match rel.target {
                    GcRef::Closure(j) => registry[j].closure,
                    GcRef::Info(j) => infotables[j].entry,
                };
                let pos = (entry_offset + rel.offset) as usize;
                let ghost before = w0 + fw.take(k as int);
                write_slot(&mut code, pos, val);
                assert(fw[k as int] == (pos as int, val));
                assert((w0 + fw.take(k + 1)).drop_last() =~= before);
                k = k + 1;
            }
            assert(fw.take(fw.len() as int) =~= fw);
            i = i + 1;
        }
        let lm = LinkedModule {
            base,
            code,
            trampoline_offset: code_len,
            registry,
            smt,
            infotables,
        };
        proof {
            assert forall|a: int, b: int|
                0 <= a < lm.registry().len() && 0 <= b < lm.registry().len() && a != b
                    implies #[trigger] lm.registry()[a].0 != #[trigger] lm.registry()[b].0 by {
                if a < b {
                    assert(fns[b].name@ != fns[a].name@);
                } else {
                    assert(fns[a].name@ != fns[b].name@);
                }
            }
            assert forall|k: int| 0 <= k < n implies #[trigger] lm.registry()[k] == (
                fns[k].name@,
                closure_addr(hb, hl + k),
                false,
            ) by {}
        }
        Ok(lm)
    }
}

/// Some entry of `reg` is named `name` and not yet taken.
pub open spec fn callable(reg: Seq<(Seq<char>, u64, bool)>, name: Seq<char>) -> bool {
    exists|i: int| 0 <= i < reg.len() && #[trigger] reg[i].0 == name && !reg[i].2
}

/// `after` is `before` with the callable entry `i` named `name` taken.
pub open spec fn taken_at(
    before: Seq<(Seq<char>, u64, bool)>,
    after: Seq<(Seq<char>, u64, bool)>,
    name: Seq<char>,
    i: int,
) -> bool {
    &&& 0 <= i < before.len()
    &&& before[i].0 == name
    &&& !before[i].2
    &&& after == before.update(i, (before[i].0, before[i].1, true))
}

/// The InfoTable entry addresses, in function order.
pub open spec fn info_entries(infos: Seq<InfoTable>) -> Seq<u64> {
    Seq::new(infos.len(), |i: int| infos[i].entry)
}

spec fn reg_matches(
    reg: Seq<RegEntry>,
    fns: Seq<FunctionRecord>,
    hb: u64,
    hl: int,
    n: int,
) -> bool {
    forall|k: int|
        #![trigger reg[k]]
        0 <= k < n ==> reg[k].name@ == fns[k].name@ && reg[k].closure == closure_addr(
            hb,
            hl + k,
        ) && !reg[k].taken
}

spec fn infos_match(infos: Seq<InfoTable>, fns: Seq<FunctionRecord>, base: u64, n: int) -> bool {
    forall|k: int|
        0 <= k < n ==> #[trigger] infos[k] == (InfoTable {
            entry: entry_addr(fns, base, k),
            smt_start: smt_upto(fns, base, k).len() as usize,
            smt_len: fns[k].safepoints@.len() as usize,
        })
}

fn copy_bytes(v: &Vec<u8>) -> (r: Vec<u8>)
    ensures
        r@ == v@,
{
    let mut r: Vec<u8> = Vec::new();
    let mut i: usize = 0;
    while i < v.len()
        invariant
            i <= v@.len(),
            r@ == v@.subrange(0, i as int),
        decreases v@.len() - i,
    {
        r.push(v[i]);
        i = i + 1;
        assert(r@ =~= v@.subrange(0, i as int));
    }
    assert(v@.subrange(0, v@.len() as int) =~= v@);
    r
}

impl LinkedModule {
    /// Index of the callable entry named `name`.
    fn find_callable(&self, name: &str) -> (r: Option<usize>)
        requires
            self.wf(),
        ensures
            r is None <==> !callable(self.registry(), name@),
            r matches Some(i) ==> i < self.registry().len() && self.registry()[i as int].0
                == name@ && !self.registry()[i as int].2,
    {
        let key = name.to_owned();
        let mut i: usize = 0;
        while i < self.registry.len()
            invariant
                i <= self.registry@.len(),
                key@ == name@,
                forall|k: int|
                    0 <= k < i ==> !(#[trigger] self.registry()[k].0 == name@ && !self.registry()[k].2),
            decreases self.registry@.len() - i,
        {
            if self.registry[i].name == key && !self.registry[i].taken {
                assert(self.registry()[i as int].0 == name@);
                return Some(i);
            }
            i = i + 1;
        }
        None
    }

    fn take_at(&mut self, i: usize)
        requires
            old(self).wf(),
            i < old(self).registry().len(),
        ensures
            final(self).wf(),
            final(self).registry() == old(self).registry().update(
                i as int,
                (old(self).registry()[i as int].0, old(self).registry()[i as int].1, true),
            ),
            final(self).base() == old(self).base(),
            final(self).code() == old(self).code(),
            final(self).trampoline_offset() == old(self).trampoline_offset(),
            final(self).infos() == old(self).infos(),
            final(self).smt_view() == old(self).smt_view(),
    {
        let name = self.registry[i].name.clone();
        let closure = self.registry[i].closure;
        self.registry.set(i, RegEntry { name, closure, taken: true });
        assert(self.registry() =~= old(self).registry().update(
            i as int,
            (old(self).registry()[i as int].0, old(self).registry()[i as int].1, true),
        ));
        assert forall|a: int, b: int|
            0 <= a < self.registry().len() && 0 <= b < self.registry().len() && a != b
                implies #[trigger] self.registry()[a].0 != #[trigger] self.registry()[b].0 by {
            assert(old(self).registry()[a].0 != old(self).registry()[b].0);
        }
    }

    /// Hands out the closure registered under `name` and removes it from the
    /// registry: a name can be taken once.
    pub fn take_closure(&mut self, name: &str) -> (r: Result<u64, CallError>)
        requires
            old(self).wf(),
        ensures
            final(self).wf(),
            r is Ok <==> callable(old(self).registry(), name@),
            r matches Ok(c) ==> exists|i: int|
                taken_at(old(self).registry(), final(self).registry(), name@, i)
                    && #[trigger] old(self).registry()[i].1 == c,
            r matches Err(e) ==> e == CallError::UndefinedEntryPoint && *final(self) == *old(self),
            final(self).base() == old(self).base(),
            final(self).code() == old(self).code(),
            final(self).trampoline_offset() == old(self).trampoline_offset(),
            final(self).infos() == old(self).infos(),
            final(self).smt_view() == old(self).smt_view(),
    {
        match self.find_callable(name) {
            None => Err(CallError::UndefinedEntryPoint),
            Some(i) => {
                let c = self.registry[i].closure;
                self.take_at(i);
                assert(taken_at(old(self).registry(), self.registry(), name@, i as int));
                Ok(c)
            },
        }
    }

    /// Prepares a call of the function `name`: publishes the stack map and
    /// the InfoTable list to `rt`, takes the closure, and returns where
    /// control goes. On an unknown or taken name nothing changes.
    pub fn call_nullary(&mut self, rt: &mut Runtime, name: &str) -> (r: Result<Invocation, CallError>)
        requires
            old(self).wf(),
        ensures
            final(self).wf(),
            r is Ok <==> callable(old(self).registry(), name@),
            r matches Ok(inv) ==> exists|i: int|
                taken_at(old(self).registry(), final(self).registry(), name@, i)
                    && #[trigger] old(self).registry()[i].1 == inv.closure
                    && inv.entry == old(self).infos()[i].entry
                    && inv.trampoline == old(self).base() + old(self).trampoline_offset(),
            r is Ok ==> final(rt).gc_smt() == old(self).smt_view() && final(rt).gc_infos()
                == info_entries(old(self).infos()),
            r matches Err(e) ==> e == CallError::UndefinedEntryPoint && *final(self) == *old(self)
                && *final(rt) == *old(rt),
            final(rt).wf() == old(rt).wf(),
            final(rt).heap_base() == old(rt).heap_base(),
            final(rt).capacity() == old(rt).capacity(),
            final(rt).closures() == old(rt).closures(),
            final(self).base() == old(self).base(),
            final(self).code() == old(self).code(),
            final(self).trampoline_offset() == old(self).trampoline_offset(),
            final(self).infos() == old(self).infos(),
            final(self).smt_view() == old(self).smt_view(),
    {
        let i = match self.find_callable(name) {
            None => {
                return Err(CallError::UndefinedEntryPoint);
            },
            Some(i) => i,
        };
        let mut entries: Vec<u64> = Vec::new();
        let mut k: usize = 0;
        while k < self.infotables.len()
            invariant
                k <= self.infos().len(),
                entries@ == info_entries(self.infos()).subrange(0, k as int),
            decreases self.infos().len() - k,
        {
            entries.push(self.infotables[k].entry);
            k = k + 1;
            assert(entries@ =~= info_entries(self.infos()).subrange(0, k as int));
        }
        assert(entries@ =~= info_entries(self.infos()));
        rt.publish(&self.smt, &entries);
        let closure = self.registry[i].closure;
        let entry = self.infotables[i].entry;
        let trampoline = self.base + self.trampoline_offset as u64;
        self.take_at(i);
        assert(taken_at(old(self).registry(), self.registry(), name@, i as int));
        Ok(Invocation { trampoline, closure, entry })
    }

    /// The InfoTables, one per function in module order.
    pub fn infotables(&self) -> (r: &[InfoTable])
        ensures
            r@ == self.infos(),
    {
        self.infotables.as_slice()
    }

    /// The module's stack map table.
    pub fn smt(&self) -> (r: &StackMapTable)
        ensures
            r@ == self.smt_view(),
    {
        &self.smt
    }

    /// The final bytes of the code region, trampoline included.
    pub fn code_bytes(&self) -> (r: &[u8])
        ensures
            r@ == self.code(),
    {
        self.code.as_slice()
    }

    /// The address the code region is placed at.
    pub fn region_base(&self) -> (r: u64)
        ensures
            r == self.base(),
    {
        self.base
    }
}

/// The `i`-th record of `m` is well formed.
pub open spec fn record_wf_at(m: CompiledModule, i: int) -> bool {
    crate::module::record_wf(m.functions@[i], m.code@.len() as int)
}

} // verus!
