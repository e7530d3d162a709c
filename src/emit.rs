//! Instruction emitter interface used by the code generator.
//!
//! Encoding is done by an assembler collaborator; this emitter records no
//! instruction bytes itself, so every instruction method leaves the buffer
//! as it was.

use crate::x64::{
    Addr, Cond, EmitArith, EmitBranch, EmitMov, EmitNop, EmitPop, EmitPush, EmitRet, R64,
};
use vstd::prelude::*;

verus! {

/// A code position.
#[derive(Debug)]
pub struct Label(pub usize);

impl Label {
    pub fn new() -> (r: Self)
        ensures
            r.0 == 0,
    {
        Label(0)
    }

    pub fn from_offset(offset: usize) -> (r: Self)
        ensures
            r.0 == offset,
    {
        Label(offset)
    }

    pub fn offset(&mut self) -> (r: Option<usize>)
        ensures
            r == Some(old(self).0),
            *final(self) == *old(self),
    {
        Some(self.0)
    }
}

pub struct Emit {
    data: Vec<u8>,
    position: usize,
}

impl View for Emit {
    type V = Seq<u8>;

    closed spec fn view(&self) -> Seq<u8> {
        self.data@
    }
}

impl Emit {
    /// The current emission position.
    pub closed spec fn pos(&self) -> int {
        self.position as int
    }

    pub fn new() -> (r: Self)
        ensures
            r@ == Seq::<u8>::empty(),
            r.pos() == 0,
    {
        Emit { data: Vec::new(), position: 0 }
    }

    pub fn as_ref(&self) -> (r: &[u8])
        ensures
            r@ == self@,
    {
        self.data.as_slice()
    }

    pub fn as_slice(&self) -> (r: &[u8])
        ensures
            r@ == self@,
    {
        self.data.as_slice()
    }

    pub fn here(&self) -> (r: usize)
        ensures
            r == self.pos(),
    {
        self.position
    }

    pub fn create_label(&mut self) -> (r: Label)
        ensures
            r.0 == old(self).pos(),
            final(self)@ == old(self)@,
            final(self).pos() == old(self).pos(),
    {
        Label(self.position)
    }

    pub fn add(&mut self, _dst: R64, _offset: i32)
        ensures
            final(self)@ == old(self)@,
            final(self).pos() == old(self).pos(),
    {
    }

    pub fn mov<D, S>(&mut self, _dst: D, _src: S)
        ensures
            final(self)@ == old(self)@,
            final(self).pos() == old(self).pos(),
    {
    }

    pub fn call(&mut self, _target: &Addr)
        ensures
            final(self)@ == old(self)@,
            final(self).pos() == old(self).pos(),
    {
    }

    pub fn call_r64(&mut self, _target: R64)
        ensures
            final(self)@ == old(self)@,
            final(self).pos() == old(self).pos(),
    {
    }

    pub fn bind_label(&mut self, _label: Label)
        ensures
            final(self)@ == old(self)@,
            final(self).pos() == old(self).pos(),
    {
    }

    pub fn bind(&mut self, _label: &mut Label)
        ensures
            final(self)@ == old(self)@,
            final(self).pos() == old(self).pos(),
    {
    }

    pub fn alloc_info<T>(&mut self, _info: T)
        ensures
            final(self)@ == old(self)@,
            final(self).pos() == old(self).pos(),
    {
    }

    pub fn lea(&mut self, _dst: R64, _src: &mut Label)
        ensures
            final(self)@ == old(self)@,
            final(self).pos() == old(self).pos(),
    {
    }

    pub fn lea_addr(&mut self, _dst: R64, _src: &Addr)
        ensures
            final(self)@ == old(self)@,
            final(self).pos() == old(self).pos(),
    {
    }

    pub fn jcc(&mut self, _cond: Cond, _label: &mut Label)
        ensures
            final(self)@ == old(self)@,
            final(self).pos() == old(self).pos(),
    {
    }

    pub fn jne(&mut self, _label: &mut Label)
        ensures
            final(self)@ == old(self)@,
            final(self).pos() == old(self).pos(),
    {
    }

    pub fn je(&mut self, _label: &mut Label)
        ensures
            final(self)@ == old(self)@,
            final(self).pos() == old(self).pos(),
    {
    }

    pub fn jmp(&mut self, _label: &mut Label)
        ensures
            final(self)@ == old(self)@,
            final(self).pos() == old(self).pos(),
    {
    }

    pub fn jmp_addr(&mut self, _addr: &Addr)
        ensures
            final(self)@ == old(self)@,
            final(self).pos() == old(self).pos(),
    {
    }

    pub fn jle(&mut self, _label: &mut Label)
        ensures
            final(self)@ == old(self)@,
            final(self).pos() == old(self).pos(),
    {
    }

    pub fn sub(&mut self, _dst: R64, _offset: i32)
        ensures
            final(self)@ == old(self)@,
            final(self).pos() == old(self).pos(),
    {
    }

    pub fn add_addr(&mut self, _dst: R64, _src: &Addr)
        ensures
            final(self)@ == old(self)@,
            final(self).pos() == old(self).pos(),
    {
    }

    pub fn sub_addr(&mut self, _dst: R64, _src: &Addr)
        ensures
            final(self)@ == old(self)@,
            final(self).pos() == old(self).pos(),
    {
    }

    pub fn cmove(&mut self, _dst: R64, _src: R64)
        ensures
            final(self)@ == old(self)@,
            final(self).pos() == old(self).pos(),
    {
    }

    pub fn cmovcc(&mut self, _cond: Cond, _dst: R64, _src: R64)
        ensures
            final(self)@ == old(self)@,
            final(self).pos() == old(self).pos(),
    {
    }
}

impl EmitPush<R64> for Emit {
    fn push(&mut self, _op: R64) {
    }
}

impl EmitPop<R64> for Emit {
    fn pop(&mut self, _op: R64) {
    }
}

impl EmitMov<R64, R64> for Emit {
    fn mov(&mut self, _dst: R64, _src: R64) {
    }
}

impl EmitMov<R64, i64> for Emit {
    fn mov(&mut self, _dst: R64, _src: i64) {
    }
}

impl EmitArith<R64, R64> for Emit {
    fn add(&mut self, _dst: R64, _src: R64) {
    }

    fn sub(&mut self, _dst: R64, _src: R64) {
    }

    fn cmp(&mut self, _dst: R64, _src: R64) {
    }
}

impl EmitArith<R64, i32> for Emit {
    fn add(&mut self, _dst: R64, _src: i32) {
    }

    fn sub(&mut self, _dst: R64, _src: i32) {
    }

    fn cmp(&mut self, _dst: R64, _src: i32) {
    }
}

impl EmitArith<R64, i64> for Emit {
    fn add(&mut self, _dst: R64, _src: i64) {
    }

    fn sub(&mut self, _dst: R64, _src: i64) {
    }

    fn cmp(&mut self, _dst: R64, _src: i64) {
    }
}

impl EmitBranch<R64> for Emit {
    fn call(&mut self, _op: R64) {
    }

    fn jmp(&mut self, _op: R64) {
    }
}

impl EmitRet for Emit {
    fn ret(&mut self) {
    }
}

impl EmitNop for Emit {
    fn nop(&mut self) {
    }
}

/// Pads with no-ops until the position is a multiple of `alignment`; the
/// emitter records no instruction bytes, so the buffer is unchanged.
pub fn emit_nop_until_aligned(_emit: &mut Emit, _alignment: usize)
    ensures
        final(_emit)@ == old(_emit)@,
        final(_emit).pos() == old(_emit).pos(),
{
}

} // verus!
