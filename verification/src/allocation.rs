//! The allocation map: where the allocator placed each function body and
//! each section, and where the runtime library routines live.

use vstd::prelude::*;
use enum_iterator::IntoEnumIterator;
use wasmer_types::entity::PrimaryMap;
use wasmer_types::{CustomSectionIndex, LibCall, LocalFunctionIndex, ModuleInfo};

verus! {

/// `wasmer_types::LibCall`: the name of a runtime library routine.
#[verifier::external_type_specification]
#[verifier::external_body]
pub struct ExLibCall(LibCall);

/// `wasmer_types::ModuleInfo`: the description of the module being linked.
#[verifier::external_type_specification]
#[verifier::external_body]
pub struct ExModuleInfo(ModuleInfo);

/// Where a function body lies in executable memory.
#[derive(Clone, Copy, Debug, PartialEq, Eq, Structural)]
pub struct FunctionExtent {
    /// Address of the first byte of the body.
    pub ptr: usize,
    /// Number of bytes of the body.
    pub length: usize,
}

/// The map from local function index to extent: a
/// `wasmer_types::entity::PrimaryMap` keyed by
/// `wasmer_types::LocalFunctionIndex`. Its content is known to the verifier
/// only as `function_extents`.
#[verifier::external_body]
pub struct FunctionMap {
    map: PrimaryMap<LocalFunctionIndex, FunctionExtent>,
}

/// The map from section index to the address of the section's first byte: a
/// `wasmer_types::entity::PrimaryMap` keyed by
/// `wasmer_types::CustomSectionIndex`. Its content is known to the verifier
/// only as `section_bases`.
#[verifier::external_body]
pub struct SectionMap {
    map: PrimaryMap<CustomSectionIndex, usize>,
}

/// The values of a function map, in key order.
pub uninterp spec fn function_extents(map: FunctionMap) -> Seq<FunctionExtent>;

/// The values of a section map, in key order.
pub uninterp spec fn section_bases(map: SectionMap) -> Seq<usize>;

/// The entry of a dense map under a key. The key `u32::MAX` is reserved and
/// names no entry.
pub open spec fn entry<T>(values: Seq<T>, index: u32) -> Option<T> {
    if index < u32::MAX && index < values.len() {
        Some(values[index as int])
    } else {
        None
    }
}

/// `PrimaryMap::from_iter`: the map whose values are the items of the
/// iterator, in the order they come.
#[verifier::external_body]
fn collect_function_map(extents: Vec<FunctionExtent>) -> (map: FunctionMap)
    ensures
        function_extents(map) == extents@,
{
    FunctionMap { map: PrimaryMap::from_iter(extents) }
}

/// `PrimaryMap::from_iter`: the map whose values are the items of the
/// iterator, in the order they come.
#[verifier::external_body]
fn collect_section_map(bases: Vec<usize>) -> (map: SectionMap)
    ensures
        section_bases(map) == bases@,
{
    SectionMap { map: PrimaryMap::from_iter(bases) }
}

/// `PrimaryMap::get` under the key that `LocalFunctionIndex::from_u32` makes
/// of `index`: the value at that position where the map is that long,
/// nothing otherwise. `from_u32` refuses `u32::MAX`.
#[verifier::external_body]
fn get_function_extent(map: &FunctionMap, index: u32) -> (extent: Option<FunctionExtent>)
    requires
        index < u32::MAX,
    ensures
        extent == entry(function_extents(*map), index),
{
    map.map.get(LocalFunctionIndex::from_u32(index)).copied()
}

/// `PrimaryMap::get` under the key that `CustomSectionIndex::from_u32` makes
/// of `index`: the value at that position where the map is that long,
/// nothing otherwise. `from_u32` refuses `u32::MAX`.
#[verifier::external_body]
fn get_section_base(map: &SectionMap, index: u32) -> (base: Option<usize>)
    requires
        index < u32::MAX,
    ensures
        base == entry(section_bases(*map), index),
{
    map.map.get(CustomSectionIndex::from_u32(index)).copied()
}

/// The number of runtime library routines: of the variants that
/// `wasmer_types::LibCall` declares.
pub const LIBCALL_COUNT: u32 = 46;

/// `LibCall::into_enum_iter` of `enum_iterator::IntoEnumIterator`, advanced
/// to position `id`: the routine declared at that position. The iterator
/// yields the variants in the order of their declaration and then ends, so
/// there is a routine at each position below their number and none from
/// there on. Nothing is claimed of which routine it is.
#[verifier::external_body]
fn libcall_at(id: u32) -> (libcall: Option<LibCall>)
    ensures
        libcall is Some <==> id < LIBCALL_COUNT,
{
    LibCall::into_enum_iter().nth(id as usize)
}

/// `wasmer_vm::libcalls::function_pointer`: the address of a runtime library
/// routine in this process. Nothing is claimed of the address.
pub assume_specification[ wasmer_vm::libcalls::function_pointer ](libcall: LibCall) -> (address:
    usize);

impl FunctionMap {
    /// The map that gives the function with local index `i` the extent
    /// `extents[i]`.
    pub fn new(extents: Vec<FunctionExtent>) -> (map: FunctionMap)
        ensures
            function_extents(map) == extents@,
    {
        collect_function_map(extents)
    }

    /// The extent of the function with local index `index`, if the map has
    /// one.
    pub fn get(&self, index: u32) -> (extent: Option<FunctionExtent>)
        ensures
            extent == entry(function_extents(*self), index),
    {
        if index == u32::MAX {
            None
        } else {
            get_function_extent(self, index)
        }
    }
}

impl SectionMap {
    /// The map that places the section with index `i` at `bases[i]`.
    pub fn new(bases: Vec<usize>) -> (map: SectionMap)
        ensures
            section_bases(map) == bases@,
    {
        collect_section_map(bases)
    }

    /// The address of the section with index `index`, if the map has one.
    pub fn get(&self, index: u32) -> (base: Option<usize>)
        ensures
            base == entry(section_bases(*self), index),
    {
        if index == u32::MAX {
            None
        } else {
            get_section_base(self, index)
        }
    }
}

/// The address of the trampoline of routine `libcall` in a trampoline section
/// that starts at `libcall_trampolines` and gives each routine
/// `libcall_trampoline_len` bytes; `None` where that lies beyond the address
/// space.
pub fn get_libcall_trampoline(
    libcall: u32,
    libcall_trampolines: usize,
    libcall_trampoline_len: usize,
) -> (address: Option<usize>)
    ensures
        address == trampoline_address(libcall, libcall_trampolines, libcall_trampoline_len),
{
    match (libcall as usize).checked_mul(libcall_trampoline_len) {
        Some(distance) => libcall_trampolines.checked_add(distance),
        None => {
            assert(libcall * libcall_trampoline_len > usize::MAX);
            None
        },
    }
}

/// `base + libcall * len`, where that is an address.
pub open spec fn trampoline_address(libcall: u32, base: usize, len: usize) -> Option<usize> {
    if base + libcall * len <= usize::MAX {
        Some((base + libcall * len) as usize)
    } else {
        None
    }
}

/// The addresses of the runtime library routines of this process, each at
/// the position of its identifier: one entry for every routine, in the
/// order of the identifiers.
pub fn libcall_addresses() -> (addresses: Vec<usize>)
    ensures
        addresses@.len() == LIBCALL_COUNT,
{
    let mut addresses: Vec<usize> = Vec::new();
    let mut id: u32 = 0;
    while id < LIBCALL_COUNT
        invariant
            id <= LIBCALL_COUNT,
            addresses@.len() == id,
        decreases LIBCALL_COUNT - id,
    {
        match libcall_at(id) {
            Some(libcall) => {
                addresses.push(wasmer_vm::libcalls::function_pointer(libcall));
            },
            None => {
                return addresses;
            },
        }
        id += 1;
    }
    addresses
}

} // verus!
