//! x86-64 operand vocabulary shared by the code emitter and code generator.

use vstd::prelude::*;

verus! {

/// General purpose 64-bit registers.
#[allow(non_camel_case_types)]
#[derive(Debug, Clone, Copy, PartialEq, Eq, Structural)]
pub enum R64 {
    rax,
    rbx,
    rcx,
    rdx,
    rsi,
    rdi,
    rsp,
    rbp,
    r8,
    r9,
    r10,
    r11,
    r12,
    r13,
    r14,
    r15,
}

/// Branch and conditional-move conditions.
#[derive(Debug, Clone, Copy, PartialEq, Eq, Structural)]
pub enum Cond {
    E,
    L,
    G,
    NE,
    LE,
    GE,
}

/// The condition that holds exactly when `c` does not.
pub open spec fn inverse_of(c: Cond) -> Cond {
    match c {
        Cond::E => Cond::NE,
        Cond::NE => Cond::E,
        Cond::L => Cond::GE,
        Cond::GE => Cond::L,
        Cond::G => Cond::LE,
        Cond::LE => Cond::G,
    }
}

impl Cond {
    pub fn inverse(self) -> (r: Self)
        ensures
            r == inverse_of(self),
    {
        match self {
            Cond::E => Cond::NE,
            Cond::NE => Cond::E,
            Cond::L => Cond::GE,
            Cond::GE => Cond::L,
            Cond::G => Cond::LE,
            Cond::LE => Cond::G,
        }
    }
}

/// Inverting a condition twice gives the condition back.
pub proof fn lemma_inverse_involutive(c: Cond)
    ensures
        inverse_of(inverse_of(c)) == c,
{
}

/// A memory operand: a base register, optionally with a displacement.
#[derive(Debug, Clone, Copy, PartialEq, Eq, Structural)]
pub enum Addr {
    B(R64),
    BD(R64, i32),
}

/// The displacement of a memory operand.
pub open spec fn disp_of(a: Addr) -> int {
    match a {
        Addr::B(_) => 0,
        Addr::BD(_, d) => d as int,
    }
}

pub open spec fn base_of(a: Addr) -> R64 {
    match a {
        Addr::B(r) => r,
        Addr::BD(r, _) => r,
    }
}

impl Addr {
    /// The operand displaced by `rhs` bytes more, on the same base register.
    pub fn add(self, rhs: i32) -> (r: Addr)
        requires
            i32::MIN <= disp_of(self) + rhs <= i32::MAX,
        ensures
            r == Addr::BD(base_of(self), (disp_of(self) + rhs) as i32),
    {
        match self {
            Addr::B(reg) => Addr::BD(reg, rhs),
            Addr::BD(reg, offset) => Addr::BD(reg, offset + rhs),
        }
    }
}

/// Operand-size-independent emitter interfaces. The instruction encoder
/// behind them is a collaborator; implementations state what they record.
pub trait EmitPush<T> {
    fn push(&mut self, op: T);
}

pub trait EmitPop<T> {
    fn pop(&mut self, op: T);
}

pub trait EmitMov<D, S> {
    fn mov(&mut self, dst: D, src: S);
}

pub trait EmitArith<D, S> {
    fn add(&mut self, dst: D, src: S);

    fn sub(&mut self, dst: D, src: S);

    fn cmp(&mut self, dst: D, src: S);
}

pub trait EmitBranch<T> {
    fn call(&mut self, op: T);

    fn jmp(&mut self, op: T);
}

pub trait EmitLea<D, S> {
    fn lea(&mut self, dst: D, src: S);
}

pub trait EmitRet {
    fn ret(&mut self);
}

pub trait EmitNop {
    fn nop(&mut self);
}

} // verus!
