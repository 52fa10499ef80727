use std::collections::HashMap;
use wasm_link::allocation::libcall_addresses;
use wasm_link::link::{
    check_patch, check_relocation, link_body, link_pass, locate_relocation, patch_site,
    resolve_target,
};
use wasm_link::{
    apply_relocation, link_module, link_module_with, FunctionExtent, FunctionMap, LinkError,
    Memory, Patch, Relocation, RelocationKind, RelocationTarget, SectionMap,
};
use wasmer_types::ModuleInfo;

const SUPPORTED: [RelocationKind; 26] = [
    RelocationKind::Abs8,
    RelocationKind::X86PCRel4,
    RelocationKind::X86PCRel8,
    RelocationKind::X86CallPCRel4,
    RelocationKind::Arm64Call,
    RelocationKind::Arm64Movw0,
    RelocationKind::Arm64Movw1,
    RelocationKind::Arm64Movw2,
    RelocationKind::Arm64Movw3,
    RelocationKind::RiscvPCRelHi20,
    RelocationKind::RiscvPCRelLo12I,
    RelocationKind::RiscvCall,
    RelocationKind::LArchAbsHi20,
    RelocationKind::LArchAbsLo12,
    RelocationKind::LArchAbs64Hi12,
    RelocationKind::LArchAbs64Lo20,
    RelocationKind::LArchCall36,
    RelocationKind::LArchPCAlaHi20,
    RelocationKind::LArchPCAlaLo12,
    RelocationKind::LArchPCAla64Hi12,
    RelocationKind::LArchPCAla64Lo20,
    RelocationKind::Aarch64AdrPrelPgHi21,
    RelocationKind::Aarch64AdrPrelLo21,
    RelocationKind::Aarch64AddAbsLo12Nc,
    RelocationKind::Aarch64Ldst64AbsLo12Nc,
    RelocationKind::Aarch64Ldst128AbsLo12Nc,
];

fn image(regions: &[(usize, Vec<u8>)]) -> Memory {
    let mut memory = Memory::new();
    for (base, bytes) in regions {
        assert!(memory.map(*base, bytes.clone()));
    }
    memory
}

fn functions(extents: &[(usize, usize)]) -> FunctionMap {
    FunctionMap::new(extents.iter().map(|(ptr, length)| FunctionExtent { ptr: *ptr, length: *length }).collect())
}

fn record(kind: RelocationKind, reloc_target: RelocationTarget, offset: usize, addend: i64) -> Relocation {
    Relocation { kind, reloc_target, offset, addend }
}

/// Two functions of 0x40 bytes at 0x1000 and 0x2000, two sections at 0x4000
/// and 0xc000, the second one holding the trampolines, 16 bytes each.
struct Fixture {
    functions: FunctionMap,
    sections: SectionMap,
    libcalls: Vec<usize>,
    memory: Memory,
}

fn fixture() -> Fixture {
    Fixture {
        functions: functions(&[(0x1000, 0x40), (0x2000, 0x40)]),
        sections: SectionMap::new(vec![0x4000, 0xc000]),
        libcalls: vec![0x7fff_0000_1000, 0x7fff_0000_2000, 0x7fff_0000_3000],
        memory: image(&[(0x1000, vec![0xa5; 0x40]), (0x2000, vec![0xa5; 0x40]), (0x4000, vec![0xa5; 0x20])]),
    }
}

fn link(fixture: &mut Fixture, function_stream: Vec<(u32, Vec<Relocation>)>, section_stream: Vec<(u32, Vec<Relocation>)>) -> Result<(), LinkError> {
    link_module_with(
        &fixture.libcalls,
        &fixture.functions,
        &function_stream,
        &fixture.sections,
        &section_stream,
        1,
        16,
        &mut fixture.memory,
    )
}

fn untouched(fixture: &Fixture) -> bool {
    fixture.memory.bytes(0x1000, 0x40) == Some(vec![0xa5; 0x40])
        && fixture.memory.bytes(0x2000, 0x40) == Some(vec![0xa5; 0x40])
        && fixture.memory.bytes(0x4000, 0x20) == Some(vec![0xa5; 0x20])
}

#[test]
fn empty_streams_change_nothing() {
    let mut f = fixture();
    assert_eq!(link(&mut f, vec![], vec![]), Ok(()));
    assert!(untouched(&f));
    assert_eq!(link(&mut f, vec![(0, vec![]), (1, vec![])], vec![(0, vec![])]), Ok(()));
    assert!(untouched(&f));
}

#[test]
fn unknown_function_as_target() {
    let mut f = fixture();
    let r = record(RelocationKind::Abs8, RelocationTarget::LocalFunction(2), 0, 0);
    assert_eq!(link(&mut f, vec![(0, vec![r])], vec![]), Err(LinkError::UnknownFunction(2)));
    let r = record(RelocationKind::Abs8, RelocationTarget::LocalFunction(u32::MAX), 0, 0);
    assert_eq!(link(&mut f, vec![(0, vec![r])], vec![]), Err(LinkError::UnknownFunction(u32::MAX)));
    assert!(untouched(&f));
}

#[test]
fn unknown_function_as_body() {
    let mut f = fixture();
    let r = record(RelocationKind::Abs8, RelocationTarget::LocalFunction(0), 0, 0);
    assert_eq!(link(&mut f, vec![(7, vec![r])], vec![]), Err(LinkError::UnknownFunction(7)));
    assert_eq!(link(&mut f, vec![(7, vec![])], vec![]), Err(LinkError::UnknownFunction(7)));
    assert!(untouched(&f));
}

#[test]
fn unknown_section_as_target() {
    let mut f = fixture();
    let r = record(RelocationKind::Abs8, RelocationTarget::CustomSection(2), 0, 0);
    assert_eq!(link(&mut f, vec![(0, vec![r])], vec![]), Err(LinkError::UnknownSection(2)));
    assert!(untouched(&f));
}

#[test]
fn unknown_section_as_body() {
    let mut f = fixture();
    let r = record(RelocationKind::Abs8, RelocationTarget::LocalFunction(0), 0, 0);
    assert_eq!(link(&mut f, vec![], vec![(5, vec![r])]), Err(LinkError::UnknownSection(5)));
    assert!(untouched(&f));
}

#[test]
fn unknown_trampoline_section() {
    let mut f = fixture();
    let r = record(RelocationKind::Arm64Call, RelocationTarget::LibCall(0), 0, 0);
    let done = link_module_with(&f.libcalls, &f.functions, &vec![(0, vec![r])], &f.sections, &vec![], 9, 16, &mut f.memory);
    assert_eq!(done, Err(LinkError::UnknownSection(9)));
    assert!(untouched(&f));
}

#[test]
fn unknown_runtime_routine() {
    let mut f = fixture();
    let r = record(RelocationKind::Abs8, RelocationTarget::LibCall(3), 0, 0);
    assert_eq!(link(&mut f, vec![(0, vec![r])], vec![]), Err(LinkError::UnknownLibCall(3)));
    let r = record(RelocationKind::X86PCRel8, RelocationTarget::LibCall(u32::MAX), 0, 0);
    assert_eq!(link(&mut f, vec![(0, vec![r])], vec![]), Err(LinkError::UnknownLibCall(u32::MAX)));
    assert!(untouched(&f));
}

#[test]
fn unsupported_kinds() {
    for kind in [
        RelocationKind::X86CallPLTRel4,
        RelocationKind::X86GOTPCRel4,
        RelocationKind::Arm32Call,
        RelocationKind::ElfX86_64TlsGd,
    ] {
        let mut f = fixture();
        let r = record(kind, RelocationTarget::LocalFunction(1), 0, 0);
        assert_eq!(link(&mut f, vec![(0, vec![r])], vec![]), Err(LinkError::UnsupportedKind(kind)));
        assert!(untouched(&f));
    }
}

#[test]
fn address_overflow() {
    let mut f = fixture();
    // an absolute value below zero
    let r = record(RelocationKind::Abs8, RelocationTarget::LocalFunction(0), 0, -0x1001);
    assert_eq!(link(&mut f, vec![(0, vec![r])], vec![]), Err(LinkError::AddressOverflow));
    // a patch site beyond the address space
    let r = record(RelocationKind::X86PCRel4, RelocationTarget::LocalFunction(0), usize::MAX, 0);
    assert_eq!(link(&mut f, vec![(0, vec![r])], vec![]), Err(LinkError::AddressOverflow));
    // a trampoline beyond the address space
    let r = record(RelocationKind::Arm64Call, RelocationTarget::LibCall(2), 0, 0);
    let done = link_module_with(&f.libcalls, &f.functions, &vec![(0, vec![r])], &f.sections, &vec![], 1, usize::MAX, &mut f.memory);
    assert_eq!(done, Err(LinkError::AddressOverflow));
    assert!(untouched(&f));
}

#[test]
fn out_of_range_distances() {
    let far = functions(&[(0x1000, 0x40), (0x1000 + 0x1000_0000, 0x40), (0x1000 + 0x1_0000_0000, 0x40), (0x1000 + 0x10_0000, 0x40)]);
    let sections = SectionMap::new(vec![]);
    for (kind, target) in [
        (RelocationKind::Arm64Call, 1),
        (RelocationKind::Aarch64AdrPrelPgHi21, 2),
        (RelocationKind::Aarch64AdrPrelLo21, 3),
    ] {
        let mut memory = image(&[(0x1000, vec![0xa5; 0x40])]);
        let r = record(kind, RelocationTarget::LocalFunction(target), 0, 0);
        let done = link_module_with(&vec![], &far, &vec![(0, vec![r])], &sections, &vec![], 0, 16, &mut memory);
        assert_eq!(done, Err(LinkError::OutOfRange(kind)));
        assert_eq!(memory.bytes(0x1000, 0x40), Some(vec![0xa5; 0x40]));
        // one byte nearer is in range
        let r = record(kind, RelocationTarget::LocalFunction(target), 0, -1);
        let done = link_module_with(&vec![], &far, &vec![(0, vec![r])], &sections, &vec![], 0, 16, &mut memory);
        assert_eq!(done, Ok(()));
    }
}

#[test]
fn out_of_range_distances_backwards() {
    let far = functions(&[(0x2_0000_0000, 0x40), (0x2_0000_0000 - 0x1000_0000, 0x40), (0x2_0000_0000 - 0x1_0000_0000, 0x40), (0x2_0000_0000 - 0x10_0000, 0x40)]);
    let sections = SectionMap::new(vec![]);
    let mut memory = image(&[(0x2_0000_0000, vec![0xa5; 0x40])]);
    let r = record(RelocationKind::Arm64Call, RelocationTarget::LocalFunction(1), 0, 0);
    let done = link_module_with(&vec![], &far, &vec![(0, vec![r])], &sections, &vec![], 0, 16, &mut memory);
    assert_eq!(done, Err(LinkError::OutOfRange(RelocationKind::Arm64Call)));
    // the page distance and the byte distance reach one step further back than forth
    for (kind, target) in [(RelocationKind::Aarch64AdrPrelPgHi21, 2), (RelocationKind::Aarch64AdrPrelLo21, 3)] {
        let r = record(kind, RelocationTarget::LocalFunction(target), 0, 0);
        let done = link_module_with(&vec![], &far, &vec![(0, vec![r])], &sections, &vec![], 0, 16, &mut memory);
        assert_eq!(done, Ok(()));
        let r = record(kind, RelocationTarget::LocalFunction(target), 0, -1);
        let done = link_module_with(&vec![], &far, &vec![(0, vec![r])], &sections, &vec![], 0, 16, &mut memory);
        assert_eq!(done, Err(LinkError::OutOfRange(kind)));
    }
}

#[test]
fn unpaired_lo12() {
    let mut f = fixture();
    let r = record(RelocationKind::RiscvPCRelLo12I, RelocationTarget::LocalFunction(1), 4, 8);
    assert_eq!(link(&mut f, vec![(0, vec![r])], vec![]), Err(LinkError::UnpairedLo12(0x2008)));
    assert!(untouched(&f));
}

#[test]
fn patch_outside_the_function() {
    let mut f = fixture();
    let r = record(RelocationKind::X86PCRel4, RelocationTarget::LocalFunction(1), 0x3d, 0);
    assert_eq!(link(&mut f, vec![(0, vec![r])], vec![]), Err(LinkError::OutsideBody));
    let r = record(RelocationKind::Abs8, RelocationTarget::LocalFunction(1), 0x39, 0);
    assert_eq!(link(&mut f, vec![(0, vec![r])], vec![]), Err(LinkError::OutsideBody));
    let r = record(RelocationKind::Abs8, RelocationTarget::LocalFunction(1), 0x1000, 0);
    assert_eq!(link(&mut f, vec![(0, vec![r])], vec![]), Err(LinkError::OutsideBody));
    assert!(untouched(&f));
    // the last window of the function
    let r = record(RelocationKind::X86PCRel4, RelocationTarget::LocalFunction(1), 0x3c, 0);
    assert_eq!(link(&mut f, vec![(0, vec![r])], vec![]), Ok(()));
    let r = record(RelocationKind::Abs8, RelocationTarget::LocalFunction(1), 0x38, 0);
    assert_eq!(link(&mut f, vec![(0, vec![r])], vec![]), Ok(()));
}

#[test]
fn patch_outside_the_image() {
    let mut f = fixture();
    // a section has no recorded length: what bounds its records is the image
    let r = record(RelocationKind::Abs8, RelocationTarget::LocalFunction(1), 0x1c, 0);
    assert_eq!(link(&mut f, vec![], vec![(0, vec![r])]), Err(LinkError::Unmapped(0x401c)));
    let r = record(RelocationKind::X86PCRel4, RelocationTarget::LocalFunction(1), 0, 0);
    assert_eq!(link(&mut f, vec![], vec![(1, vec![r])]), Err(LinkError::Unmapped(0xc000)));
    assert!(untouched(&f));
    let r = record(RelocationKind::Abs8, RelocationTarget::LocalFunction(1), 0x18, 0);
    assert_eq!(link(&mut f, vec![], vec![(0, vec![r])]), Ok(()));
    assert_eq!(f.memory.bytes(0x4018, 8), Some(vec![0, 0x20, 0, 0, 0, 0, 0, 0]));
}

#[test]
fn records_before_the_refused_one_are_applied() {
    let mut f = fixture();
    let good = record(RelocationKind::Abs8, RelocationTarget::LocalFunction(1), 0, 0);
    let bad = record(RelocationKind::Arm32Call, RelocationTarget::LocalFunction(1), 8, 0);
    let late = record(RelocationKind::Abs8, RelocationTarget::LocalFunction(1), 16, 0);
    let done = link(&mut f, vec![(1, vec![late]), (0, vec![good, bad, late])], vec![(0, vec![good])]);
    assert_eq!(done, Err(LinkError::UnsupportedKind(RelocationKind::Arm32Call)));
    // the section and the whole of function 1 came first, then the first record of function 0
    assert_eq!(f.memory.bytes(0x4000, 8), Some(vec![0, 0x20, 0, 0, 0, 0, 0, 0]));
    assert_eq!(f.memory.bytes(0x2010, 8), Some(vec![0, 0x20, 0, 0, 0, 0, 0, 0]));
    assert_eq!(f.memory.bytes(0x1000, 8), Some(vec![0, 0x20, 0, 0, 0, 0, 0, 0]));
    assert_eq!(f.memory.bytes(0x1008, 0x38), Some(vec![0xa5; 0x38]));
}

#[test]
fn a_refused_section_record_stops_before_the_functions() {
    let mut f = fixture();
    let good = record(RelocationKind::Abs8, RelocationTarget::LocalFunction(1), 0, 0);
    let bad = record(RelocationKind::Abs8, RelocationTarget::LocalFunction(9), 0, 0);
    let done = link(&mut f, vec![(0, vec![good])], vec![(0, vec![bad])]);
    assert_eq!(done, Err(LinkError::UnknownFunction(9)));
    assert!(untouched(&f));
}

#[test]
fn a_patch_changes_its_window_only() {
    for kind in SUPPORTED {
        let mut f = fixture();
        let width = kind.width();
        let mut function_stream = vec![];
        if kind == RelocationKind::RiscvPCRelLo12I {
            function_stream.push((1, vec![record(RelocationKind::RiscvPCRelHi20, RelocationTarget::LocalFunction(0), 0, 0)]));
        }
        // for the lower half of a pair, the target is the instruction of the upper half
        function_stream.push((0, vec![record(kind, RelocationTarget::LocalFunction(1), 8, 0)]));
        assert_eq!(link(&mut f, function_stream, vec![]), Ok(()), "{:?}", kind);
        assert_eq!(f.memory.bytes(0x1000, 8), Some(vec![0xa5; 8]), "{:?}", kind);
        assert_eq!(f.memory.bytes(0x1008 + width, 0x38 - width), Some(vec![0xa5; 0x38 - width]), "{:?}", kind);
        assert_eq!(f.memory.bytes(0x4000, 0x20), Some(vec![0xa5; 0x20]), "{:?}", kind);
        if kind != RelocationKind::RiscvPCRelLo12I {
            assert_eq!(f.memory.bytes(0x2000, 0x40), Some(vec![0xa5; 0x40]), "{:?}", kind);
        }
        // outside the field, the window is as it was
        let new = f.memory.load(0x1008, width);
        let old = if width == 8 { 0xa5a5_a5a5_a5a5_a5a5 } else { 0xa5a5_a5a5 };
        assert_eq!(new & !kind.mask(), old & !kind.mask(), "{:?}", kind);
    }
}

#[test]
fn runtime_routines_are_reached_directly_or_by_trampoline() {
    for kind in SUPPORTED {
        let f = fixture();
        let resolved = resolve_target(kind, RelocationTarget::LibCall(2), &f.functions, &f.sections, &f.libcalls, 1, 16);
        if kind == RelocationKind::Abs8 || kind == RelocationKind::X86PCRel8 {
            assert_eq!(resolved, Ok(0x7fff_0000_3000), "{:?}", kind);
        } else {
            assert_eq!(resolved, Ok(0xc000 + 2 * 16), "{:?}", kind);
        }
    }
}

#[test]
fn abs8_holds_the_address_of_the_routine() {
    let mut f = fixture();
    let r = record(RelocationKind::Abs8, RelocationTarget::LibCall(1), 0x10, 0);
    assert_eq!(link(&mut f, vec![(0, vec![r])], vec![]), Ok(()));
    assert_eq!(f.memory.load(0x1010, 8), 0x7fff_0000_2000);
    let r = record(RelocationKind::X86PCRel8, RelocationTarget::LibCall(1), 0x20, 0);
    assert_eq!(link(&mut f, vec![(0, vec![r])], vec![]), Ok(()));
    assert_eq!(f.memory.load(0x1020, 8), 0x7fff_0000_2000 - 0x1020);
}

#[test]
fn other_kinds_hold_the_address_of_the_trampoline() {
    let mut f = fixture();
    let r = record(RelocationKind::X86CallPCRel4, RelocationTarget::LibCall(1), 0x10, -4);
    assert_eq!(link(&mut f, vec![(0, vec![r])], vec![]), Ok(()));
    assert_eq!(f.memory.load(0x1010, 4), 0xc010 - 4 - 0x1010);
    let movw = [RelocationKind::Arm64Movw0, RelocationKind::Arm64Movw1, RelocationKind::Arm64Movw2, RelocationKind::Arm64Movw3];
    let mut f = fixture();
    f.memory.store(0x2000, 8, 0xf2a0_0000_d280_0000);
    f.memory.store(0x2008, 8, 0xf2e0_0000_f2c0_0000);
    let records = (0..4).map(|k| record(movw[k], RelocationTarget::LibCall(2), 4 * k, 0)).collect();
    assert_eq!(link(&mut f, vec![(1, records)], vec![]), Ok(()));
    let mut rebuilt = 0;
    for k in 0..4 {
        rebuilt |= ((f.memory.load(0x2000 + 4 * k, 4) >> 5) & 0xffff) << (16 * k);
    }
    assert_eq!(rebuilt, 0xc020);
}

fn mixed_records() -> Vec<Relocation> {
    vec![
        record(RelocationKind::Abs8, RelocationTarget::LibCall(0), 0, 0),
        record(RelocationKind::X86CallPCRel4, RelocationTarget::LocalFunction(1), 9, -4),
        record(RelocationKind::Arm64Call, RelocationTarget::LibCall(2), 0x10, 0),
        record(RelocationKind::RiscvPCRelHi20, RelocationTarget::CustomSection(0), 0x14, 0),
        record(RelocationKind::RiscvCall, RelocationTarget::LocalFunction(1), 0x18, 0),
        record(RelocationKind::Arm64Movw1, RelocationTarget::LocalFunction(1), 0x20, 0x12_0000),
        record(RelocationKind::LArchCall36, RelocationTarget::CustomSection(1), 0x28, 0),
        record(RelocationKind::Aarch64AdrPrelPgHi21, RelocationTarget::CustomSection(0), 0x30, 0),
    ]
}

#[test]
fn order_within_a_body_does_not_matter() {
    let records = mixed_records();
    let mut f = fixture();
    assert_eq!(link(&mut f, vec![(0, records.clone())], vec![]), Ok(()));
    let expected = f.memory.bytes(0x1000, 0x40).unwrap();
    assert_ne!(expected, vec![0xa5; 0x40]);
    let orders: [[usize; 8]; 5] = [
        [7, 6, 5, 4, 3, 2, 1, 0],
        [1, 0, 3, 2, 5, 4, 7, 6],
        [4, 5, 6, 7, 0, 1, 2, 3],
        [3, 7, 0, 5, 2, 6, 1, 4],
        [0, 2, 4, 6, 1, 3, 5, 7],
    ];
    for order in orders {
        let reordered: Vec<Relocation> = order.iter().map(|i| records[*i]).collect();
        let mut f = fixture();
        assert_eq!(link(&mut f, vec![(0, reordered)], vec![]), Ok(()));
        assert_eq!(f.memory.bytes(0x1000, 0x40).unwrap(), expected, "{:?}", order);
    }
}

#[test]
fn order_of_a_pair_within_a_body_matters() {
    let hi20 = record(RelocationKind::RiscvPCRelHi20, RelocationTarget::LocalFunction(1), 0, 0x123);
    let lo12 = record(RelocationKind::RiscvPCRelLo12I, RelocationTarget::LocalFunction(0), 4, 0);
    let mut f = fixture();
    f.memory.store(0x1000, 8, 0x0005_0513_0000_0517);
    assert_eq!(link(&mut f, vec![(0, vec![hi20, lo12])], vec![]), Ok(()));
    assert_eq!(f.memory.load(0x1000, 4), 0x0000_1517);
    assert_eq!(f.memory.load(0x1004, 4), 0x1235_0513);
    let mut f = fixture();
    assert_eq!(link(&mut f, vec![(0, vec![lo12, hi20])], vec![]), Err(LinkError::UnpairedLo12(0x1000)));
}

#[test]
fn each_invocation_starts_without_pairs() {
    let hi20 = record(RelocationKind::RiscvPCRelHi20, RelocationTarget::LocalFunction(1), 0, 0x123);
    let lo12 = record(RelocationKind::RiscvPCRelLo12I, RelocationTarget::LocalFunction(0), 4, 0);
    let mut f = fixture();
    assert_eq!(link(&mut f, vec![(0, vec![hi20])], vec![]), Ok(()));
    // what the first invocation recorded is gone
    assert_eq!(link(&mut f, vec![(0, vec![lo12])], vec![]), Err(LinkError::UnpairedLo12(0x1000)));
}

#[test]
fn two_invocations_on_fresh_memory_agree() {
    let records = mixed_records();
    let mut one = fixture();
    let mut other = fixture();
    assert_eq!(link(&mut one, vec![(0, records.clone()), (1, records.clone())], vec![(0, records[..3].to_vec())]), Ok(()));
    assert_eq!(link(&mut other, vec![(0, records.clone()), (1, records.clone())], vec![(0, records[..3].to_vec())]), Ok(()));
    for (base, len) in [(0x1000, 0x40), (0x2000, 0x40), (0x4000, 0x20)] {
        assert_eq!(one.memory.bytes(base, len), other.memory.bytes(base, len));
        assert_ne!(one.memory.bytes(base, len), Some(vec![0xa5; len]));
    }
}

#[test]
fn code_placed_elsewhere_differs_in_absolute_addresses_only() {
    let by = 0x7000_0000;
    let relative = vec![
        record(RelocationKind::X86CallPCRel4, RelocationTarget::LocalFunction(1), 9, -4),
        record(RelocationKind::Arm64Call, RelocationTarget::LibCall(2), 0x10, 0),
        record(RelocationKind::RiscvPCRelHi20, RelocationTarget::CustomSection(0), 0x14, 0),
        record(RelocationKind::RiscvPCRelLo12I, RelocationTarget::LocalFunction(0), 0x18, 0x14),
        record(RelocationKind::RiscvCall, RelocationTarget::LocalFunction(1), 0x20, 0),
        record(RelocationKind::X86PCRel8, RelocationTarget::CustomSection(1), 0x28, 0),
    ];
    let absolute = record(RelocationKind::Abs8, RelocationTarget::LocalFunction(1), 0x30, 0);
    let mut records = relative.clone();
    records.push(absolute);
    let mut here = fixture();
    assert_eq!(link(&mut here, vec![(0, records.clone())], vec![]), Ok(()));
    let mut there = Fixture {
        functions: functions(&[(0x1000 + by, 0x40), (0x2000 + by, 0x40)]),
        sections: SectionMap::new(vec![0x4000 + by, 0xc000 + by]),
        libcalls: vec![0x7fff_0000_1000, 0x7fff_0000_2000, 0x7fff_0000_3000],
        memory: image(&[(0x1000 + by, vec![0xa5; 0x40]), (0x2000 + by, vec![0xa5; 0x40]), (0x4000 + by, vec![0xa5; 0x20])]),
    };
    assert_eq!(link(&mut there, vec![(0, records)], vec![]), Ok(()));
    assert_eq!(here.memory.bytes(0x1000, 0x30), there.memory.bytes(0x1000 + by, 0x30));
    assert_ne!(here.memory.bytes(0x1000, 0x30), Some(vec![0xa5; 0x30]));
    assert_eq!(here.memory.load(0x1030, 8), 0x2000);
    assert_eq!(there.memory.load(0x1030 + by, 8), 0x2000 + by as u64);
    assert_eq!(here.memory.bytes(0x1038, 8), there.memory.bytes(0x1038 + by, 8));
}

#[test]
fn linking_against_the_routines_of_this_process() {
    let addresses = libcall_addresses();
    let mut f = fixture();
    let direct = record(RelocationKind::Abs8, RelocationTarget::LibCall(0), 0, 0);
    let last = record(RelocationKind::Abs8, RelocationTarget::LibCall(addresses.len() as u32 - 1), 8, 0);
    let through = record(RelocationKind::X86CallPCRel4, RelocationTarget::LibCall(1), 0x11, -4);
    let done = link_module(
        &ModuleInfo::new(),
        &f.functions,
        &vec![(0, vec![direct, last, through])],
        &f.sections,
        &vec![],
        1,
        16,
        &mut f.memory,
    );
    assert_eq!(done, Ok(()));
    assert_eq!(f.memory.load(0x1000, 8), addresses[0] as u64);
    assert_eq!(f.memory.load(0x1008, 8), addresses[addresses.len() - 1] as u64);
    assert_eq!(f.memory.load(0x1011, 4), 0xc010 - 4 - 0x1011);
    let beyond = record(RelocationKind::Abs8, RelocationTarget::LibCall(addresses.len() as u32), 0, 0);
    let done = link_module(&ModuleInfo::new(), &f.functions, &vec![(0, vec![beyond])], &f.sections, &vec![], 1, 16, &mut f.memory);
    assert_eq!(done, Err(LinkError::UnknownLibCall(addresses.len() as u32)));
}

#[test]
fn locating_a_record() {
    let f = fixture();
    let r = record(RelocationKind::X86CallPCRel4, RelocationTarget::LocalFunction(1), 1, -4);
    let patch = locate_relocation(0x1000, Some(0x40), &r, &f.functions, &f.sections, &f.libcalls, 1, 16);
    assert_eq!(patch, Ok(Patch { kind: RelocationKind::X86CallPCRel4, site: 0x1001, value: 0xffb }));
    // in a section, no length bounds the offset
    let r = record(RelocationKind::Abs8, RelocationTarget::CustomSection(1), 0x1000, 1);
    let patch = locate_relocation(0x4000, None, &r, &f.functions, &f.sections, &f.libcalls, 1, 16);
    assert_eq!(patch, Ok(Patch { kind: RelocationKind::Abs8, site: 0x5000, value: 0xc001 }));
    let patch = locate_relocation(0x4000, Some(0x1007), &r, &f.functions, &f.sections, &f.libcalls, 1, 16);
    assert_eq!(patch, Err(LinkError::OutsideBody));
    let patch = locate_relocation(0x4000, Some(0x1008), &r, &f.functions, &f.sections, &f.libcalls, 1, 16);
    assert_eq!(patch, Ok(Patch { kind: RelocationKind::Abs8, site: 0x5000, value: 0xc001 }));
}

#[test]
fn refusals_come_in_a_fixed_order() {
    let f = fixture();
    // unknown target before unsupported kind
    let r = record(RelocationKind::Arm32Call, RelocationTarget::LocalFunction(9), usize::MAX, 0);
    assert_eq!(locate_relocation(0x1000, Some(0), &r, &f.functions, &f.sections, &f.libcalls, 1, 16), Err(LinkError::UnknownFunction(9)));
    // unsupported kind before address overflow
    let r = record(RelocationKind::Arm32Call, RelocationTarget::LocalFunction(1), usize::MAX, 0);
    assert_eq!(locate_relocation(0x1000, Some(0), &r, &f.functions, &f.sections, &f.libcalls, 1, 16), Err(LinkError::UnsupportedKind(RelocationKind::Arm32Call)));
    // address overflow before range
    let r = record(RelocationKind::Arm64Call, RelocationTarget::LocalFunction(1), usize::MAX, 0);
    assert_eq!(locate_relocation(0x1000, Some(0), &r, &f.functions, &f.sections, &f.libcalls, 1, 16), Err(LinkError::AddressOverflow));
    // range before the bounds of the body
    let r = record(RelocationKind::Arm64Call, RelocationTarget::LocalFunction(1), 0x50, 0x1000_0000);
    assert_eq!(locate_relocation(0x1000, Some(0x40), &r, &f.functions, &f.sections, &f.libcalls, 1, 16), Err(LinkError::OutOfRange(RelocationKind::Arm64Call)));
    // the bounds of the body before the pair and the image
    let r = record(RelocationKind::RiscvPCRelLo12I, RelocationTarget::LocalFunction(1), 0x50, 0);
    let mut table = HashMap::new();
    assert_eq!(check_relocation(0x1000, Some(0x40), &r, &f.functions, &f.sections, &f.libcalls, 1, 16, &table, &f.memory), Err(LinkError::OutsideBody));
    // the pair before the image
    assert_eq!(check_relocation(0x1000, None, &r, &f.functions, &f.sections, &f.libcalls, 1, 16, &table, &f.memory), Err(LinkError::UnpairedLo12(0x2000)));
    table.insert(0x2000, 0x1234);
    assert_eq!(check_relocation(0x1000, None, &r, &f.functions, &f.sections, &f.libcalls, 1, 16, &table, &f.memory), Err(LinkError::Unmapped(0x1050)));
    let r = record(RelocationKind::RiscvPCRelLo12I, RelocationTarget::LocalFunction(1), 0x3c, 0);
    assert_eq!(check_relocation(0x1000, Some(0x40), &r, &f.functions, &f.sections, &f.libcalls, 1, 16, &table, &f.memory), Ok(()));
}

#[test]
fn checking_changes_nothing() {
    let f = fixture();
    let table = HashMap::new();
    let r = record(RelocationKind::RiscvPCRelHi20, RelocationTarget::LocalFunction(1), 0, 0);
    assert_eq!(check_relocation(0x1000, Some(0x40), &r, &f.functions, &f.sections, &f.libcalls, 1, 16, &table, &f.memory), Ok(()));
    assert!(table.is_empty());
    assert!(untouched(&f));
    let patch = Patch { kind: RelocationKind::Abs8, site: 0x1038, value: 7 };
    assert_eq!(check_patch(&patch, &table, &f.memory), Ok(()));
    let patch = Patch { kind: RelocationKind::Abs8, site: 0x1039, value: 7 };
    assert_eq!(check_patch(&patch, &table, &f.memory), Err(LinkError::Unmapped(0x1039)));
    let patch = Patch { kind: RelocationKind::RiscvPCRelLo12I, site: 0x1039, value: 7 };
    assert_eq!(check_patch(&patch, &table, &f.memory), Err(LinkError::UnpairedLo12(7)));
    assert!(untouched(&f));
}

#[test]
fn applying_one_record() {
    let mut f = fixture();
    let mut table = HashMap::new();
    f.memory.store(0x1000, 8, 0x0005_0513_0000_0517);
    let hi20 = record(RelocationKind::RiscvPCRelHi20, RelocationTarget::CustomSection(0), 0, 0xabc);
    apply_relocation(0x1000, Some(0x40), &hi20, &f.functions, &f.sections, &f.libcalls, 1, 16, &mut table, &mut f.memory);
    // 0x4000 + 0xabc - 0x1000 = 0x3abc
    assert_eq!(table.get(&0x1000), Some(&0x3abc));
    assert_eq!(table.len(), 1);
    assert_eq!(f.memory.load(0x1000, 4), 0x0000_4517);
    let lo12 = record(RelocationKind::RiscvPCRelLo12I, RelocationTarget::LocalFunction(0), 4, 0);
    apply_relocation(0x1000, Some(0x40), &lo12, &f.functions, &f.sections, &f.libcalls, 1, 16, &mut table, &mut f.memory);
    assert_eq!(table.len(), 1);
    assert_eq!(f.memory.load(0x1004, 4), 0xabc5_0513);
    assert_eq!(f.memory.bytes(0x1008, 0x38), Some(vec![0xa5; 0x38]));
}

#[test]
fn encoding_one_patch() {
    let mut f = fixture();
    let mut table = HashMap::new();
    table.insert(0x9999, 0xffff_f123);
    patch_site(Patch { kind: RelocationKind::RiscvPCRelLo12I, site: 0x2004, value: 0x9999 }, &mut table, &mut f.memory);
    assert_eq!(f.memory.load(0x2004, 4), 0xa5a5_a5a5 | (0x123 << 20));
    patch_site(Patch { kind: RelocationKind::RiscvPCRelHi20, site: 0x2008, value: 0x1_2345_6789 }, &mut table, &mut f.memory);
    assert_eq!(table.get(&0x2008), Some(&0x2345_6789));
    assert_eq!(table.get(&0x9999), Some(&0xffff_f123));
    assert_eq!(f.memory.load(0x2008, 4), 0xa5a5_a5a5 | 0x2345_6000);
    // a second one at the same instruction takes its place
    patch_site(Patch { kind: RelocationKind::RiscvPCRelHi20, site: 0x2008, value: 0x10 }, &mut table, &mut f.memory);
    assert_eq!(table.get(&0x2008), Some(&0x10));
    assert_eq!(table.len(), 2);
    patch_site(Patch { kind: RelocationKind::LArchCall36, site: 0x4000, value: 0x1234_5678 }, &mut table, &mut f.memory);
    assert_eq!(f.memory.load(0x4000, 4), 0xa5a5_a5a5 | 0x91a0);
    assert_eq!(f.memory.load(0x4004, 4), 0xa5a5_a5a5 | 0x56_7800);
}

#[test]
fn linking_one_body_and_one_pass() {
    let mut f = fixture();
    let mut table = HashMap::new();
    let records = mixed_records();
    assert_eq!(link_body(0x1000, Some(0x40), &records, &f.functions, &f.sections, &f.libcalls, 1, 16, &mut table, &mut f.memory), Ok(()));
    // 0x4000 - 0x1014
    assert_eq!(table.get(&0x1014), Some(&0x2fec));
    let expected = f.memory.bytes(0x1000, 0x40).unwrap();
    let mut g = fixture();
    let mut table = HashMap::new();
    assert_eq!(link_pass(false, &vec![(0, records.clone())], &g.functions, &g.sections, &g.libcalls, 1, 16, &mut table, &mut g.memory), Ok(()));
    assert_eq!(g.memory.bytes(0x1000, 0x40).unwrap(), expected);
    assert_eq!(table.get(&0x1014), Some(&0x2fec));
    // as a pass over the sections, index 0 is the section at 0x4000
    let mut h = fixture();
    let mut table = HashMap::new();
    assert_eq!(link_pass(true, &vec![(0, records[..2].to_vec())], &h.functions, &h.sections, &h.libcalls, 1, 16, &mut table, &mut h.memory), Ok(()));
    assert_eq!(h.memory.load(0x4000, 8), 0x7fff_0000_1000);
    assert_eq!(h.memory.load(0x4009, 4), (0x2000i64 - 4 - 0x4009) as u32 as u64);
    assert_eq!(h.memory.bytes(0x1000, 0x40), Some(vec![0xa5; 0x40]));
    let refused = link_body(0x1000, Some(0x10), &records, &f.functions, &f.sections, &f.libcalls, 1, 16, &mut table, &mut f.memory);
    assert_eq!(refused, Err(LinkError::OutsideBody));
}

#[test]
fn windows_of_records() {
    let r = record(RelocationKind::Abs8, RelocationTarget::LocalFunction(0), 0x10, 0);
    assert_eq!(r.window(0x1000, None), Some((0x1010, 8)));
    assert_eq!(r.window(0x1000, Some(0x18)), Some((0x1010, 8)));
    assert_eq!(r.window(0x1000, Some(0x17)), None);
    assert_eq!(r.window(0x1000, Some(0)), None);
    let r = record(RelocationKind::Arm64Call, RelocationTarget::LocalFunction(0), 0, 0);
    assert_eq!(r.window(0x1000, Some(4)), Some((0x1000, 4)));
    assert_eq!(r.window(0x1000, Some(3)), None);
    assert_eq!(r.window(usize::MAX - 4, None), Some((usize::MAX - 4, 4)));
    assert_eq!(r.window(usize::MAX - 3, None), None);
    let r = record(RelocationKind::Arm32Call, RelocationTarget::LocalFunction(0), 0, 0);
    assert_eq!(r.window(0x1000, None), None);
    let r = record(RelocationKind::Abs8, RelocationTarget::LocalFunction(0), usize::MAX, 0);
    assert_eq!(r.window(1, None), None);
    assert_eq!(r.window(1, Some(usize::MAX)), None);
}
