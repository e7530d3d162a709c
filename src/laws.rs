//! Properties of linking and calling that relate several operations.

use crate::encode::{le_bytes, patched};
use crate::error::LinkError;
use crate::linking::{
    apply_writes, callable, fn_writes, link_outcome, region_fits, smt_upto, taken_at,
    target_value, trampoline_spec, writes_upto, Invocation, LinkedModule,
};
use crate::module::{target_index, record_wf, CompiledModule, FunctionRecord, GcRef, TRAMPOLINE_LEN};
use crate::runtime::closure_addr;
use vstd::prelude::*;

verus! {

/// Linking a module of `n` uniquely named functions registers exactly `n`
/// closures, and every InfoTable entry address lies inside the code the
/// module brought, `[base, base + code length)`.
pub proof fn lemma_link_registers_all(
    lm: LinkedModule,
    m: CompiledModule,
    base: u64,
    heap_base: u64,
    heap_len: int,
)
    requires
        m.wf(),
        lm.linked_from(m, base, heap_base, heap_len),
    ensures
        lm.registry().len() == m.functions@.len(),
        forall|i: int|
            0 <= i < lm.infos().len() ==> base <= #[trigger] lm.infos()[i].entry < base
                + m.code@.len(),
{
    assert forall|i: int| 0 <= i < lm.infos().len() implies base <= #[trigger] lm.infos()[i].entry
        < base + m.code@.len() by {
        assert(record_wf(m.functions@[i], m.code@.len() as int));
    }
}

/// `a` is `base + entry_offset + offset` of a safepoint of one of the
/// first `n` functions.
pub open spec fn at_safepoint(fns: Seq<FunctionRecord>, base: u64, n: int, a: int) -> bool {
    exists|i: int, j: int|
        0 <= i < n && 0 <= j < fns[i].safepoints@.len() && a == base + fns[i].entry_offset
            + #[trigger] fns[i].safepoints@[j].offset
}

/// Every entry of the first `n` functions' stack map sits at
/// `base + entry_offset + relative offset` of one of their safepoints.
pub proof fn lemma_smt_upto_addresses(fns: Seq<FunctionRecord>, base: u64, code_len: int, n: int)
    requires
        0 <= n <= fns.len(),
        base + code_len <= u64::MAX,
        forall|i: int| 0 <= i < fns.len() ==> record_wf(#[trigger] fns[i], code_len),
    ensures
        forall|k: int|
            0 <= k < smt_upto(fns, base, n).len() ==> at_safepoint(
                fns,
                base,
                n,
                #[trigger] smt_upto(fns, base, n)[k].0 as int,
            ),
    decreases n,
{
    if n > 0 {
        lemma_smt_upto_addresses(fns, base, code_len, n - 1);
        let prev = smt_upto(fns, base, n - 1);
        let cur = smt_upto(fns, base, n);
        assert(record_wf(fns[n - 1], code_len));
        assert forall|k: int| 0 <= k < cur.len() implies at_safepoint(
            fns,
            base,
            n,
            #[trigger] cur[k].0 as int,
        ) by {
            if k < prev.len() {
                assert(cur[k] == prev[k]);
                assert(at_safepoint(fns, base, n - 1, prev[k].0 as int));
                let (i, j) = choose|i: int, j: int|
                    0 <= i < n - 1 && 0 <= j < fns[i].safepoints@.len() && prev[k].0 == base
                        + fns[i].entry_offset + #[trigger] fns[i].safepoints@[j].offset;
                assert(cur[k].0 == base + fns[i].entry_offset + fns[i].safepoints@[j].offset);
            } else {
                let j = k - prev.len();
                let sp = fns[n - 1].safepoints@[j];
                assert(sp.offset < fns[n - 1].end_offset - fns[n - 1].entry_offset);
                assert(cur[k].0 == base + fns[n - 1].entry_offset + fns[n - 1].safepoints@[j].offset);
            }
        }
    }
}

/// Every stack map entry of a linked module is recorded at exactly
/// `region_base + entry_offset + relative_offset` of a safepoint of one of
/// the module's functions.
pub proof fn lemma_stack_map_addresses(
    lm: LinkedModule,
    m: CompiledModule,
    base: u64,
    heap_base: u64,
    heap_len: int,
)
    requires
        m.wf(),
        lm.linked_from(m, base, heap_base, heap_len),
    ensures
        forall|k: int|
            0 <= k < lm.smt_view().len() ==> at_safepoint(
                m.functions@,
                base,
                m.functions@.len() as int,
                #[trigger] lm.smt_view()[k].0 as int,
            ),
{
    lemma_smt_upto_addresses(m.functions@, base, m.code@.len() as int, m.functions@.len() as int);
}

/// Two functions that share a name make the link fail with
/// `DuplicateDefinition` (once the region itself fits), so no module is
/// returned.
pub proof fn lemma_duplicate_rejected(m: CompiledModule, free: int, base: u64, i: int, j: int)
    requires
        region_fits(m.code@.len() as int, base),
        0 <= i < j < m.functions@.len(),
        m.functions@[i].name@ == m.functions@[j].name@,
    ensures
        link_outcome(m, free, base) == Err::<(), LinkError>(LinkError::DuplicateDefinition),
{
}

/// After a name has been taken it is no longer callable: a second call of
/// the same name fails.
pub proof fn lemma_take_once(lm: LinkedModule, after: LinkedModule, name: Seq<char>, i: int)
    requires
        lm.wf(),
        taken_at(lm.registry(), after.registry(), name, i),
    ensures
        !callable(after.registry(), name),
{
    assert forall|k: int| 0 <= k < after.registry().len() && #[trigger] after.registry()[k].0 == name
        implies after.registry()[k].2 by {
        if k != i {
            assert(lm.registry()[k].0 != lm.registry()[i].0);
        }
    }
}

/// For a module of one function without relocations, the code is left as
/// the module brought it (plus the trampoline) and a call enters exactly
/// at `region_base + entry_offset`.
pub proof fn lemma_single_function_call(
    lm: LinkedModule,
    m: CompiledModule,
    base: u64,
    heap_base: u64,
    heap_len: int,
    inv: Invocation,
    i: int,
)
    requires
        m.wf(),
        lm.linked_from(m, base, heap_base, heap_len),
        m.functions@.len() == 1,
        m.functions@[0].relocs@.len() == 0,
        0 <= i < lm.infos().len(),
        inv.entry == lm.infos()[i].entry,
    ensures
        inv.entry == base + m.functions@[0].entry_offset,
        lm.code() == m.code@ + trampoline_spec(),
{
    let fns = m.functions@;
    assert(fn_writes(fns, base, heap_base, heap_len, 0) =~= Seq::empty());
    assert(writes_upto(fns, base, heap_base, heap_len, 0) =~= Seq::empty());
    assert(writes_upto(fns, base, heap_base, heap_len, 1) =~= Seq::empty());
    assert(apply_writes(m.code@ + trampoline_spec(), Seq::empty()) == m.code@ + trampoline_spec());
    assert(i == 0);
    assert(record_wf(fns[0], m.code@.len() as int));
}

/// Patching keeps the length of the code.
pub proof fn lemma_apply_len(code: Seq<u8>, ws: Seq<(int, u64)>)
    requires
        forall|l: int| 0 <= l < ws.len() ==> 0 <= #[trigger] ws[l].0 && ws[l].0 + 8 <= code.len(),
    ensures
        apply_writes(code, ws).len() == code.len(),
    decreases ws.len(),
{
    if ws.len() > 0 {
        lemma_apply_len(code, ws.drop_last());
    }
}

/// A slot write that no later write overlaps is what the slot holds at the
/// end: the eight little-endian bytes of the written value.
pub proof fn lemma_patch_visible(code: Seq<u8>, ws: Seq<(int, u64)>, k: int)
    requires
        0 <= k < ws.len(),
        forall|l: int| 0 <= l < ws.len() ==> 0 <= #[trigger] ws[l].0 && ws[l].0 + 8 <= code.len(),
        forall|l: int|
            k < l < ws.len() ==> #[trigger] ws[l].0 + 8 <= ws[k].0 || ws[k].0 + 8 <= ws[l].0,
    ensures
        apply_writes(code, ws).subrange(ws[k].0, ws[k].0 + 8) == le_bytes(ws[k].1),
    decreases ws.len(),
{
    let prev = ws.drop_last();
    lemma_apply_len(code, prev);
    let x = apply_writes(code, prev);
    let (p, v) = ws.last();
    if k == ws.len() - 1 {
        assert(patched(x, p, v).subrange(p, p + 8) =~= le_bytes(v));
    } else {
        lemma_patch_visible(code, prev, k);
        assert(prev[k] == ws[k]);
        assert(patched(x, p, v).subrange(ws[k].0, ws[k].0 + 8) =~= x.subrange(
            ws[k].0,
            ws[k].0 + 8,
        ));
    }
}

/// The writes of the first `i` functions are a prefix of those of the
/// first `n`.
pub proof fn lemma_writes_prefix(
    fns: Seq<FunctionRecord>,
    base: u64,
    heap_base: u64,
    heap_len: int,
    i: int,
    n: int,
)
    requires
        0 <= i <= n,
    ensures
        writes_upto(fns, base, heap_base, heap_len, i).len() <= writes_upto(
            fns,
            base,
            heap_base,
            heap_len,
            n,
        ).len(),
        forall|l: int|
            0 <= l < writes_upto(fns, base, heap_base, heap_len, i).len() ==> #[trigger] writes_upto(
                fns,
                base,
                heap_base,
                heap_len,
                n,
            )[l] == writes_upto(fns, base, heap_base, heap_len, i)[l],
    decreases n - i,
{
    if i < n {
        lemma_writes_prefix(fns, base, heap_base, heap_len, i, n - 1);
    }
}

/// Every write of the first `n` functions targets a slot inside the code.
pub proof fn lemma_writes_in_bounds(
    fns: Seq<FunctionRecord>,
    base: u64,
    heap_base: u64,
    heap_len: int,
    code_len: int,
    n: int,
)
    requires
        0 <= n <= fns.len(),
        forall|i: int| 0 <= i < fns.len() ==> record_wf(#[trigger] fns[i], code_len),
    ensures
        forall|l: int|
            0 <= l < writes_upto(fns, base, heap_base, heap_len, n).len() ==> 0 <= #[trigger] writes_upto(
                fns,
                base,
                heap_base,
                heap_len,
                n,
            )[l].0 && writes_upto(fns, base, heap_base, heap_len, n)[l].0 + 8 <= code_len,
    decreases n,
{
    if n > 0 {
        lemma_writes_in_bounds(fns, base, heap_base, heap_len, code_len, n - 1);
        assert(record_wf(fns[n - 1], code_len));
        let prev = writes_upto(fns, base, heap_base, heap_len, n - 1);
        let cur = writes_upto(fns, base, heap_base, heap_len, n);
        assert forall|l: int| 0 <= l < cur.len() implies 0 <= #[trigger] cur[l].0 && cur[l].0 + 8
            <= code_len by {
            if l < prev.len() {
                assert(cur[l] == prev[l]);
            } else {
                let k = l - prev.len();
                assert(fns[n - 1].relocs@[k].offset + 8 <= fns[n - 1].end_offset
                    - fns[n - 1].entry_offset);
            }
        }
    }
}

/// If relocation `k` of function `i` refers to the closure of function `j`,
/// and no later relocation of the module overwrites its slot, the linked
/// code holds at that slot exactly the little-endian bytes of the address of
/// the closure registered for `j`.
pub proof fn lemma_closure_reloc_patched(
    lm: LinkedModule,
    m: CompiledModule,
    base: u64,
    heap_base: u64,
    heap_len: int,
    i: int,
    k: int,
    j: usize,
)
    requires
        m.wf(),
        lm.linked_from(m, base, heap_base, heap_len),
        0 <= i < m.functions@.len(),
        0 <= k < m.functions@[i].relocs@.len(),
        m.functions@[i].relocs@[k].target == GcRef::Closure(j),
        ({
            let ws = writes_upto(
                m.functions@,
                base,
                heap_base,
                heap_len,
                m.functions@.len() as int,
            );
            let idx = writes_upto(m.functions@, base, heap_base, heap_len, i).len() + k;
            forall|l: int|
                idx < l < ws.len() ==> #[trigger] ws[l].0 + 8 <= ws[idx].0 || ws[idx].0 + 8
                    <= ws[l].0
        }),
    ensures
        ({
            let pos = m.functions@[i].entry_offset + m.functions@[i].relocs@[k].offset;
            lm.code().subrange(pos, pos + 8) == le_bytes(lm.registry()[j as int].1)
        }),
{
    let fns = m.functions@;
    let n = fns.len() as int;
    let ws = writes_upto(fns, base, heap_base, heap_len, n);
    let idx = writes_upto(fns, base, heap_base, heap_len, i).len() + k;
    let init = m.code@ + trampoline_spec();
    lemma_writes_prefix(fns, base, heap_base, heap_len, i + 1, n);
    let w1 = writes_upto(fns, base, heap_base, heap_len, i + 1);
    assert(w1[idx] == fn_writes(fns, base, heap_base, heap_len, i)[k]);
    assert(ws[idx] == w1[idx]);
    lemma_writes_in_bounds(fns, base, heap_base, heap_len, init.len() as int, n);
    assert(target_index(fns[i].relocs@[k].target) < n);
    assert(lm.registry()[j as int].1 == closure_addr(heap_base, heap_len + j));
    lemma_patch_visible(init, ws, idx);
}

/// A slot that refers to the closure of function `j` receives exactly the
/// address of the closure the link registered for `j`.
pub proof fn lemma_closure_slot_value(
    lm: LinkedModule,
    m: CompiledModule,
    base: u64,
    heap_base: u64,
    heap_len: int,
    j: usize,
)
    requires
        lm.linked_from(m, base, heap_base, heap_len),
        j < m.functions@.len(),
    ensures
        target_value(m.functions@, base, heap_base, heap_len, GcRef::Closure(j))
            == lm.registry()[j as int].1,
{
}

} // verus!
