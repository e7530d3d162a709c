use jitlink::cgutil::{op_to_cond, PrimOpFF};
use jitlink::emit::{emit_nop_until_aligned, Emit, Label};
use jitlink::x64::{Addr, Cond, EmitNop, EmitPush, R64};

#[test]
fn cond_inverse_pairs() {
    assert!(matches!(Cond::E.inverse(), Cond::NE));
    assert!(matches!(Cond::NE.inverse(), Cond::E));
    assert!(matches!(Cond::L.inverse(), Cond::GE));
    assert!(matches!(Cond::GE.inverse(), Cond::L));
    assert!(matches!(Cond::G.inverse(), Cond::LE));
    assert!(matches!(Cond::LE.inverse(), Cond::G));
}

#[test]
fn comparison_conditions() {
    assert_eq!(op_to_cond(PrimOpFF::Lt), Cond::L);
    assert_eq!(op_to_cond(PrimOpFF::Eq), Cond::E);
}

#[test]
fn labels_keep_offsets() {
    assert_eq!(Label::new().0, 0);
    let mut l = Label::from_offset(42);
    assert_eq!(l.offset(), Some(42));
}

#[test]
fn emitter_records_nothing() {
    let mut e = Emit::new();
    let mut l = e.create_label();
    e.add(R64::rax, 8);
    e.mov(R64::rax, R64::rbx);
    e.call(&Addr::BD(R64::rsp, 8));
    e.jcc(Cond::L, &mut l);
    e.bind(&mut l);
    e.push(R64::rbp);
    e.nop();
    emit_nop_until_aligned(&mut e, 16);
    assert_eq!(e.here(), 0);
    assert!(e.as_slice().is_empty());
    assert!(e.as_ref().is_empty());
}

#[test]
fn addr_displacement_accumulates() {
    assert_eq!(Addr::B(R64::rbp).add(8), Addr::BD(R64::rbp, 8));
    assert_eq!(Addr::BD(R64::rsp, -16).add(24), Addr::BD(R64::rsp, 8));
}
