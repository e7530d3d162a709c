use jitlink::error::{CallError, LinkError};
use jitlink::linking::{trampoline, LinkedModule};
use jitlink::module::{CompiledModule, FunctionRecord, GcRef, Reloc, TRAMPOLINE_LEN};
use jitlink::runtime::{Closure, Runtime, CLOSURE_BYTES};
use jitlink::stackmap::{RootLoc, SafePoint};
use jitlink::x64::R64;

const BASE: u64 = 0x7000_0000;
const HEAP: u64 = 0x1000_0000;

fn func(name: &str, entry: u64, end: u64, relocs: Vec<Reloc>, sps: Vec<SafePoint>) -> FunctionRecord {
    FunctionRecord {
        name: name.to_string(),
        entry_offset: entry,
        end_offset: end,
        relocs,
        safepoints: sps,
    }
}

fn two_functions() -> CompiledModule {
    CompiledModule {
        code: vec![0xcc; 64],
        functions: vec![
            func(
                "main",
                0,
                32,
                vec![Reloc { offset: 8, target: GcRef::Closure(1) }],
                vec![
                    SafePoint { offset: 4, roots: vec![RootLoc::Reg(R64::rbx)] },
                    SafePoint { offset: 20, roots: vec![RootLoc::Frame(-8), RootLoc::Frame(-16)] },
                ],
            ),
            func(
                "helper",
                32,
                64,
                vec![Reloc { offset: 0, target: GcRef::Info(0) }],
                vec![SafePoint { offset: 12, roots: vec![] }],
            ),
        ],
    }
}

#[test]
fn link_registers_every_function() {
    let mut rt = Runtime::new(HEAP, 8);
    let lm = LinkedModule::new(two_functions(), &mut rt, BASE).unwrap();
    let infos = lm.infotables();
    assert_eq!(infos.len(), 2);
    assert_eq!(infos[0].entry, BASE);
    assert_eq!(infos[1].entry, BASE + 32);
    for info in infos {
        assert!(info.entry >= BASE && info.entry < BASE + 64);
    }
    assert_eq!(lm.code_bytes().len(), 64 + TRAMPOLINE_LEN);
    assert_eq!(&lm.code_bytes()[64..], trampoline().as_slice());
    assert_eq!(rt.closure_at(HEAP), Some(Closure { info_entry: BASE }));
    assert_eq!(rt.closure_at(HEAP + CLOSURE_BYTES), Some(Closure { info_entry: BASE + 32 }));
    assert_eq!(rt.closure_at(HEAP + 2 * CLOSURE_BYTES), None);
    assert_eq!(rt.closure_at(HEAP + 3), None);
    assert_eq!(rt.free(), 6);
}

#[test]
fn stack_map_addresses_are_absolute() {
    let mut rt = Runtime::new(HEAP, 8);
    let lm = LinkedModule::new(two_functions(), &mut rt, BASE).unwrap();
    let smt = lm.smt();
    assert_eq!(smt.len(), 3);
    assert_eq!(smt.roots_at(BASE + 4), Some(vec![RootLoc::Reg(R64::rbx)]));
    assert_eq!(smt.roots_at(BASE + 20), Some(vec![RootLoc::Frame(-8), RootLoc::Frame(-16)]));
    assert_eq!(smt.roots_at(BASE + 32 + 12), Some(vec![]));
    assert_eq!(smt.roots_at(BASE + 5), None);
    let infos = lm.infotables();
    assert_eq!((infos[0].smt_start, infos[0].smt_len), (0, 2));
    assert_eq!((infos[1].smt_start, infos[1].smt_len), (2, 1));
}

#[test]
fn relocations_receive_little_endian_addresses() {
    let mut rt = Runtime::new(HEAP, 8);
    let lm = LinkedModule::new(two_functions(), &mut rt, BASE).unwrap();
    let code = lm.code_bytes();
    let helper_closure = HEAP + CLOSURE_BYTES;
    assert_eq!(&code[8..16], &helper_closure.to_le_bytes());
    assert_eq!(&code[32..40], &BASE.to_le_bytes());
    assert_eq!(&code[0..8], &[0xcc; 8]);
    assert_eq!(&code[16..32], &[0xcc; 16]);
}

#[test]
fn duplicate_names_are_rejected() {
    let mut m = two_functions();
    m.functions[1].name = "main".to_string();
    let mut rt = Runtime::new(HEAP, 8);
    let r = LinkedModule::new(m, &mut rt, BASE);
    assert_eq!(r.err(), Some(LinkError::DuplicateDefinition));
    assert_eq!(rt.free(), 8);
}

#[test]
fn unresolved_relocation_aborts_link() {
    let mut m = two_functions();
    m.functions[0].relocs[0].target = GcRef::Closure(5);
    let mut rt = Runtime::new(HEAP, 8);
    let r = LinkedModule::new(m, &mut rt, BASE);
    assert_eq!(r.err(), Some(LinkError::UnresolvedRelocation));
    assert_eq!(rt.free(), 8);
}

#[test]
fn full_heap_is_an_allocation_failure() {
    let mut rt = Runtime::new(HEAP, 1);
    let r = LinkedModule::new(two_functions(), &mut rt, BASE);
    assert_eq!(r.err(), Some(LinkError::AllocationFailure));
    assert_eq!(rt.free(), 1);
}

#[test]
fn region_past_address_space_is_an_allocation_failure() {
    let mut rt = Runtime::new(HEAP, 8);
    let r = LinkedModule::new(two_functions(), &mut rt, u64::MAX - 70);
    assert_eq!(r.err(), Some(LinkError::AllocationFailure));
}

#[test]
fn call_undefined_name_changes_nothing() {
    let mut rt = Runtime::new(HEAP, 8);
    let mut lm = LinkedModule::new(two_functions(), &mut rt, BASE).unwrap();
    let before = lm.code_bytes().to_vec();
    assert_eq!(lm.call_nullary(&mut rt, "nope").err(), Some(CallError::UndefinedEntryPoint));
    assert_eq!(lm.code_bytes(), before.as_slice());
    assert_eq!(lm.take_closure("main"), Ok(HEAP));
}

#[test]
fn call_same_name_twice() {
    let mut rt = Runtime::new(HEAP, 8);
    let mut lm = LinkedModule::new(two_functions(), &mut rt, BASE).unwrap();
    let inv = lm.call_nullary(&mut rt, "helper").unwrap();
    assert_eq!(inv.closure, HEAP + CLOSURE_BYTES);
    assert_eq!(inv.entry, BASE + 32);
    assert_eq!(inv.trampoline, BASE + 64);
    assert_eq!(lm.call_nullary(&mut rt, "helper").err(), Some(CallError::UndefinedEntryPoint));
    assert_eq!(lm.take_closure("helper").err(), Some(CallError::UndefinedEntryPoint));
}

#[test]
fn single_function_call_enters_at_its_offset() {
    let m = CompiledModule {
        code: vec![0x90; 16],
        functions: vec![func("F", 4, 16, vec![], vec![])],
    };
    let mut rt = Runtime::new(HEAP, 4);
    let mut lm = LinkedModule::new(m, &mut rt, BASE).unwrap();
    let before = lm.code_bytes().to_vec();
    assert_eq!(&before[..16], &[0x90; 16]);
    let inv = lm.call_nullary(&mut rt, "F").unwrap();
    assert_eq!(inv.entry, BASE + 4);
    assert_eq!(lm.code_bytes(), before.as_slice());
    assert_eq!(lm.region_base(), BASE);
}

#[test]
fn empty_module_links() {
    let m = CompiledModule { code: vec![], functions: vec![] };
    let mut rt = Runtime::new(HEAP, 0);
    let lm = LinkedModule::new(m, &mut rt, BASE).unwrap();
    assert_eq!(lm.infotables().len(), 0);
    assert_eq!(lm.smt().len(), 0);
    assert_eq!(lm.code_bytes().len(), TRAMPOLINE_LEN);
}

#[test]
fn well_formedness_check() {
    assert!(two_functions().is_well_formed());
    let mut m = two_functions();
    m.functions[1].end_offset = 65;
    assert!(!m.is_well_formed());
    let mut m = two_functions();
    m.functions[0].relocs[0].offset = 25;
    assert!(!m.is_well_formed());
    let mut m = two_functions();
    m.functions[1].safepoints[0].offset = 32;
    assert!(!m.is_well_formed());
}

#[test]
fn load_maps_the_linked_code() {
    let mut rt = Runtime::new(HEAP, 8);
    let loaded = jitlink::region::load(two_functions(), &mut rt).unwrap();
    let mem: &[u8] = &loaded.mem;
    assert_eq!(mem, loaded.module.code_bytes());
    assert_eq!(mem.len(), 64 + TRAMPOLINE_LEN);
    let base = loaded.module.region_base();
    assert_eq!(base, mem.as_ptr() as u64);
    assert_eq!(loaded.module.infotables()[1].entry, base + 32);
    assert_eq!(&mem[32..40], &base.to_le_bytes());
}
