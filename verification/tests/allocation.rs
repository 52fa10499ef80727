use enum_iterator::IntoEnumIterator;
use wasm_link::allocation::{libcall_addresses, LIBCALL_COUNT};
use wasm_link::{get_libcall_trampoline, FunctionExtent, FunctionMap, SectionMap};
use wasmer_types::LibCall;

#[test]
fn function_map_gives_each_extent_under_its_index() {
    let first = FunctionExtent { ptr: 0x1000, length: 0x40 };
    let second = FunctionExtent { ptr: 0x2000, length: 0x8 };
    let third = FunctionExtent { ptr: 0x1800, length: 0 };
    let map = FunctionMap::new(vec![first, second, third]);
    assert_eq!(map.get(0), Some(first));
    assert_eq!(map.get(1), Some(second));
    assert_eq!(map.get(2), Some(third));
    assert_eq!(map.get(3), None);
    assert_eq!(map.get(u32::MAX - 1), None);
    assert_eq!(map.get(u32::MAX), None);
}

#[test]
fn empty_function_map_has_no_extent() {
    let map = FunctionMap::new(vec![]);
    assert_eq!(map.get(0), None);
    assert_eq!(map.get(u32::MAX), None);
}

#[test]
fn section_map_gives_each_address_under_its_index() {
    let map = SectionMap::new(vec![0x4000, 0xc000, 0x4100]);
    assert_eq!(map.get(0), Some(0x4000));
    assert_eq!(map.get(1), Some(0xc000));
    assert_eq!(map.get(2), Some(0x4100));
    assert_eq!(map.get(3), None);
    assert_eq!(map.get(u32::MAX), None);
    assert_eq!(SectionMap::new(vec![]).get(0), None);
}

#[test]
fn trampoline_of_a_routine() {
    assert_eq!(get_libcall_trampoline(7, 0xc000, 16), Some(0xc070));
    assert_eq!(get_libcall_trampoline(0, 0xc000, 16), Some(0xc000));
    assert_eq!(get_libcall_trampoline(3, 0xc000, 0), Some(0xc000));
    assert_eq!(get_libcall_trampoline(1, 0, 12), Some(12));
}

#[test]
fn trampoline_beyond_the_address_space() {
    assert_eq!(get_libcall_trampoline(1, usize::MAX, 1), None);
    assert_eq!(get_libcall_trampoline(1, usize::MAX - 1, 1), Some(usize::MAX));
    assert_eq!(get_libcall_trampoline(2, 0, usize::MAX), None);
    assert_eq!(get_libcall_trampoline(u32::MAX, usize::MAX, usize::MAX), None);
    assert_eq!(get_libcall_trampoline(0, usize::MAX, usize::MAX), Some(usize::MAX));
}

#[test]
fn runtime_routines_by_identifier() {
    let addresses = libcall_addresses();
    assert_eq!(LIBCALL_COUNT as usize, LibCall::VARIANT_COUNT);
    assert_eq!(addresses.len(), LIBCALL_COUNT as usize);
    assert_eq!(LibCall::into_enum_iter().count(), LIBCALL_COUNT as usize);
    for (id, libcall) in LibCall::into_enum_iter().enumerate() {
        assert_eq!(libcall as usize, id);
        assert_eq!(addresses[id], wasmer_vm::libcalls::function_pointer(libcall));
        assert_ne!(addresses[id], 0);
    }
}
