use std::collections::HashMap;
use wasm_link::allocation::{FunctionExtent, FunctionMap, SectionMap};
use wasm_link::link::{link_module_with, patch_site, resolve_target, LinkError, Patch};
use wasm_link::memory::Memory;
use wasm_link::relocation::{Relocation, RelocationKind, RelocationTarget};

fn image(regions: &[(usize, Vec<u8>)]) -> Memory {
    let mut memory = Memory::new();
    for (base, bytes) in regions {
        assert!(memory.map(*base, bytes.clone()));
    }
    memory
}

fn word(memory: &Memory, addr: usize) -> u32 {
    let bytes = memory.bytes(addr, 4).unwrap();
    u32::from_le_bytes([bytes[0], bytes[1], bytes[2], bytes[3]])
}

fn functions(extents: &[(usize, usize)]) -> FunctionMap {
    FunctionMap::new(extents.iter().map(|(ptr, length)| FunctionExtent { ptr: *ptr, length: *length }).collect())
}

fn record(kind: RelocationKind, reloc_target: RelocationTarget, offset: usize, addend: i64) -> Relocation {
    Relocation { kind, reloc_target, offset, addend }
}

#[test]
fn x86_near_call() {
    // The record hands the linker the patch site 0x1001 and the distance
    // 0x2000 - 0x1004.
    let mut memory = image(&[(0x1000, vec![0xe8, 0, 0, 0, 0, 0x90, 0x90, 0x90])]);
    let mut hi20s = HashMap::new();
    patch_site(Patch { kind: RelocationKind::X86CallPCRel4, site: 0x1001, value: 0x2000 - 0x1004 }, &mut hi20s, &mut memory);
    assert_eq!(word(&memory, 0x1001), 0x0000_0ffc);
    assert_eq!(memory.bytes(0x1000, 8).unwrap(), vec![0xe8, 0xfc, 0x0f, 0, 0, 0x90, 0x90, 0x90]);
    assert!(hi20s.is_empty());
}

#[test]
fn x86_near_call_through_the_record() {
    // Measured from the patch site itself: 0x2000 - 4 - 0x1001.
    let mut memory = image(&[(0x1000, vec![0xe8, 0, 0, 0, 0, 0x90, 0x90, 0x90]), (0x2000, vec![0xc3])]);
    let allocated_functions = functions(&[(0x1000, 8), (0x2000, 1)]);
    let allocated_sections = SectionMap::new(vec![]);
    let call = record(RelocationKind::X86CallPCRel4, RelocationTarget::LocalFunction(1), 1, -4);
    let done = link_module_with(
        &vec![],
        &allocated_functions,
        &vec![(0, vec![call])],
        &allocated_sections,
        &vec![],
        0,
        16,
        &mut memory,
    );
    assert_eq!(done, Ok(()));
    assert_eq!(word(&memory, 0x1001), 0x0000_0ffb);
    assert_eq!(memory.bytes(0x1000, 8).unwrap(), vec![0xe8, 0xfb, 0x0f, 0, 0, 0x90, 0x90, 0x90]);
    assert_eq!(memory.bytes(0x2000, 1).unwrap(), vec![0xc3]);
}

#[test]
fn arm64_bl_in_range() {
    let mut memory = image(&[(0x10000, 0x9400_0000u32.to_le_bytes().to_vec()), (0x10100, vec![0; 4])]);
    let allocated_functions = functions(&[(0x10000, 4), (0x10100, 4)]);
    let allocated_sections = SectionMap::new(vec![]);
    let call = record(RelocationKind::Arm64Call, RelocationTarget::LocalFunction(1), 0, 0);
    let done = link_module_with(
        &vec![],
        &allocated_functions,
        &vec![(0, vec![call])],
        &allocated_sections,
        &vec![],
        0,
        16,
        &mut memory,
    );
    assert_eq!(done, Ok(()));
    assert_eq!(word(&memory, 0x10000), 0x9400_0040);
}

#[test]
fn arm64_bl_out_of_range() {
    let mut memory = image(&[(0x10000, 0x9400_0000u32.to_le_bytes().to_vec())]);
    let allocated_functions = functions(&[(0x10000, 4), (0x2000_0000, 4)]);
    let allocated_sections = SectionMap::new(vec![]);
    let call = record(RelocationKind::Arm64Call, RelocationTarget::LocalFunction(1), 0, 0);
    let done = link_module_with(
        &vec![],
        &allocated_functions,
        &vec![(0, vec![call])],
        &allocated_sections,
        &vec![],
        0,
        16,
        &mut memory,
    );
    assert_eq!(done, Err(LinkError::OutOfRange(RelocationKind::Arm64Call)));
    assert_eq!(word(&memory, 0x10000), 0x9400_0000);
}

#[test]
fn riscv_pair() {
    // auipc at 0x1000, addi at 0x1004, both with empty immediates.
    let mut memory = image(&[(0x1000, vec![0x17, 0x05, 0, 0, 0x13, 0x05, 0x05, 0])]);
    let mut hi20s = HashMap::new();
    patch_site(Patch { kind: RelocationKind::RiscvPCRelHi20, site: 0x1000, value: 0x8765_4321 }, &mut hi20s, &mut memory);
    assert_eq!(hi20s.get(&0x1000), Some(&0x8765_4321));
    patch_site(Patch { kind: RelocationKind::RiscvPCRelLo12I, site: 0x1004, value: 0x1000 }, &mut hi20s, &mut memory);
    let auipc = word(&memory, 0x1000);
    let addi = word(&memory, 0x1004);
    assert_eq!(auipc, 0x8765_4000 | 0x0517);
    assert_eq!(addi, (0x321 << 20) | 0x0005_0513);
    assert_eq!(auipc & 0xffff_f000, 0x8765_4000);
    assert_eq!(addi >> 20, 0x321);
    assert_eq!((auipc & 0xffff_f000).wrapping_add(addi >> 20), 0x8765_4321);
}

#[test]
fn riscv_pair_through_the_records() {
    // The upper half lies at 0x1000 and refers to a section 0x8765_4321
    // bytes further on; the lower half refers to the upper half.
    let allocated_functions = functions(&[(0x1000, 8)]);
    let allocated_sections = SectionMap::new(vec![0x1000 + 0x8765_4321]);
    let hi20 = record(RelocationKind::RiscvPCRelHi20, RelocationTarget::CustomSection(0), 0, 0);
    let lo12 = record(RelocationKind::RiscvPCRelLo12I, RelocationTarget::LocalFunction(0), 4, 0);
    let mut memory = image(&[(0x1000, vec![0x17, 0x05, 0, 0, 0x13, 0x05, 0x05, 0])]);
    let done = link_module_with(
        &vec![],
        &allocated_functions,
        &vec![(0, vec![hi20, lo12])],
        &allocated_sections,
        &vec![],
        0,
        16,
        &mut memory,
    );
    assert_eq!(done, Ok(()));
    assert_eq!(word(&memory, 0x1000), 0x8765_4000 | 0x0517);
    assert_eq!(word(&memory, 0x1004), (0x321 << 20) | 0x0005_0513);
}

#[test]
fn libcall_via_trampoline() {
    let allocated_functions = functions(&[(0xb000, 4)]);
    let allocated_sections = SectionMap::new(vec![0x9000, 0xc000]);
    let libcalls = vec![0x7000_0000usize; 8];
    assert_eq!(
        resolve_target(
            RelocationKind::Arm64Call,
            RelocationTarget::LibCall(7),
            &allocated_functions,
            &allocated_sections,
            &libcalls,
            1,
            16,
        ),
        Ok(0xc070)
    );
    let mut memory = image(&[(0xb000, 0x9400_0000u32.to_le_bytes().to_vec())]);
    let call = record(RelocationKind::Arm64Call, RelocationTarget::LibCall(7), 0, 0);
    let done = link_module_with(
        &libcalls,
        &allocated_functions,
        &vec![(0, vec![call])],
        &allocated_sections,
        &vec![],
        1,
        16,
        &mut memory,
    );
    assert_eq!(done, Ok(()));
    // The branch reaches 0xb000 + 4 * 0x41c = 0xc070.
    assert_eq!(word(&memory, 0xb000), 0x9400_041c);
}

#[test]
fn section_before_function_ordering() {
    let allocated_functions = functions(&[(0x5000, 4), (0x6abc, 4)]);
    let allocated_sections = SectionMap::new(vec![0x4000]);
    let hi20 = record(RelocationKind::RiscvPCRelHi20, RelocationTarget::LocalFunction(1), 0, 0);
    let lo12 = record(RelocationKind::RiscvPCRelLo12I, RelocationTarget::CustomSection(0), 0, 0);
    let mut memory = image(&[(0x4000, vec![0x17, 0x05, 0, 0]), (0x5000, vec![0x13, 0x05, 0x05, 0])]);
    let done = link_module_with(
        &vec![],
        &allocated_functions,
        &vec![(0, vec![lo12])],
        &allocated_sections,
        &vec![(0, vec![hi20])],
        0,
        16,
        &mut memory,
    );
    assert_eq!(done, Ok(()));
    // The distance is 0x6abc - 0x4000 = 0x2abc: upper part 0x3000, lower part 0xabc.
    assert_eq!(word(&memory, 0x4000), 0x0000_3000 | 0x0517);
    assert_eq!(word(&memory, 0x5000), (0xabc << 20) | 0x0005_0513);
}

#[test]
fn function_before_section_leaves_the_pair_unmatched() {
    // The same pair with the halves swapped between the passes: the lower
    // half, now in the section, is met before the upper half.
    let allocated_functions = functions(&[(0x5000, 4), (0x6abc, 4)]);
    let allocated_sections = SectionMap::new(vec![0x4000]);
    let hi20 = record(RelocationKind::RiscvPCRelHi20, RelocationTarget::LocalFunction(1), 0, 0);
    let lo12 = record(RelocationKind::RiscvPCRelLo12I, RelocationTarget::LocalFunction(0), 0, 0);
    let mut memory = image(&[(0x4000, vec![0x13, 0x05, 0x05, 0]), (0x5000, vec![0x17, 0x05, 0, 0])]);
    let done = link_module_with(
        &vec![],
        &allocated_functions,
        &vec![(0, vec![hi20])],
        &allocated_sections,
        &vec![(0, vec![lo12])],
        0,
        16,
        &mut memory,
    );
    assert_eq!(done, Err(LinkError::UnpairedLo12(0x5000)));
    assert_eq!(word(&memory, 0x4000), 0x0005_0513);
    assert_eq!(word(&memory, 0x5000), 0x0517);
}
