//! The executable memory region a linked module runs from.
//!
//! The region is mapped writable, the linked and patched code is copied in,
//! and only then is it turned read+execute-only; nothing writes to it after.

use crate::error::LinkError;
use crate::linking::{link_outcome, LinkedModule};
use crate::module::{CompiledModule, TRAMPOLINE_LEN};
use crate::runtime::Runtime;
use dynasmrt::mmap::{ExecutableBuffer, MutableBuffer};
use vstd::prelude::*;

verus! {

#[verifier::external_type_specification]
#[verifier::external_body]
pub struct ExMutableBuffer(MutableBuffer);

#[verifier::external_type_specification]
#[verifier::external_body]
pub struct ExExecutableBuffer(ExecutableBuffer);

#[verifier::external_type_specification]
#[verifier::external_body]
pub struct ExIoError(std::io::Error);

/// The usable bytes of a writable buffer.
pub uninterp spec fn writable_bytes(b: MutableBuffer) -> Seq<u8>;

/// The bytes a writable buffer has mapped.
pub uninterp spec fn mapped_size(b: MutableBuffer) -> nat;

/// The bytes of an executable buffer.
pub uninterp spec fn executable_bytes(b: ExecutableBuffer) -> Seq<u8>;

/// Relies on dynasmrt's `MutableBuffer::new`: maps `size` bytes, of which
/// none is usable yet.
#[verifier::external_body]
fn map_writable(size: usize) -> (r: Result<MutableBuffer, std::io::Error>)
    ensures
        r matches Ok(b) ==> mapped_size(b) == size && writable_bytes(b).len() == 0,
{
    MutableBuffer::new(size)
}

/// Relies on dynasmrt's `MutableBuffer::set_len`: makes the first `len`
/// mapped bytes usable.
#[verifier::external_body]
fn set_usable(b: &mut MutableBuffer, len: usize)
    requires
        len <= mapped_size(*old(b)),
    ensures
        mapped_size(*final(b)) == mapped_size(*old(b)),
        writable_bytes(*final(b)).len() == len,
{
    b.set_len(len)
}

/// Relies on the slice's `copy_from_slice` through dynasmrt's `DerefMut`
/// for `MutableBuffer`: the usable bytes become `data`.
#[verifier::external_body]
fn fill(b: &mut MutableBuffer, data: &[u8])
    requires
        writable_bytes(*old(b)).len() == data@.len(),
    ensures
        mapped_size(*final(b)) == mapped_size(*old(b)),
        writable_bytes(*final(b)) == data@,
{
    b.copy_from_slice(data)
}

/// Relies on dynasmrt's `MutableBuffer::make_exec`: the same bytes, now
/// read+execute-only.
#[verifier::external_body]
fn make_exec(b: MutableBuffer) -> (r: Result<ExecutableBuffer, std::io::Error>)
    ensures
        r matches Ok(e) ==> executable_bytes(e) == writable_bytes(b),
{
    b.make_exec()
}

/// The address of the first byte of a mapped buffer (which address the
/// system hands out is not known in advance).
#[verifier::external_body]
fn address_of(b: &MutableBuffer) -> (r: u64) {
    b.as_ptr() as usize as u64
}

/// A linked module and the finalized region holding its code.
pub struct LoadedModule {
    pub module: LinkedModule,
    pub mem: ExecutableBuffer,
}

/// Maps a region for `cm`, links `cm` at the region's address, copies the
/// patched code in and then makes the region executable. On success the
/// region holds exactly the linked code; a mapping failure is an
/// allocation failure, and every failure leaves `rt` untouched.
pub fn load(cm: CompiledModule, rt: &mut Runtime) -> (r: Result<LoadedModule, LinkError>)
    requires
        cm.wf(),
        old(rt).wf(),
    ensures
        final(rt).wf(),
        r matches Ok(l) ==> l.module.linked_from(
            cm,
            l.module.base(),
            old(rt).heap_base(),
            old(rt).closures().len() as int,
        ) && executable_bytes(l.mem) == l.module.code(),
        final(rt).heap_base() == old(rt).heap_base(),
        final(rt).capacity() == old(rt).capacity(),
        final(rt).gc_smt() == old(rt).gc_smt(),
        final(rt).gc_infos() == old(rt).gc_infos(),
        r matches Err(e) ==> e == LinkError::AllocationFailure || (*final(rt) == *old(rt)
            && exists|base: u64|
            #[trigger] link_outcome(cm, old(rt).capacity() - old(rt).closures().len(), base)
                == Err::<(), LinkError>(e)),
{
    let size = cm.code.len() + TRAMPOLINE_LEN;
    let mut buf = match map_writable(size) {
        Ok(b) => b,
        Err(_) => {
            return Err(LinkError::AllocationFailure);
        },
    };
    set_usable(&mut buf, size);
    let base = address_of(&buf);
    let module = match LinkedModule::new(cm, rt, base) {
        Ok(m) => m,
        Err(e) => {
            assert(link_outcome(cm, old(rt).capacity() - old(rt).closures().len(), base) == Err::<
                (),
                LinkError,
            >(e));
            return Err(e);
        },
    };
    fill(&mut buf, module.code_bytes());
    match make_exec(buf) {
        Ok(mem) => Ok(LoadedModule { module, mem }),
        Err(_) => Err(LinkError::AllocationFailure),
    }
}

} // verus!
