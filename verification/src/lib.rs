//! Relocation resolver for JIT-compiled WebAssembly code.
//!
//! Once every function body and data section of a module has its final place
//! in executable memory, the relocation records left by the code generator
//! are applied: each one patches an address, or a bit field of one, into the
//! code according to the addressing mode of the target instruction set.

pub mod allocation;
pub mod encoding;
pub mod laws;
pub mod export;
pub mod link;
pub mod memory;
pub mod order;
pub mod placement;
pub mod relocation;

pub use allocation::{get_libcall_trampoline, FunctionExtent, FunctionMap, SectionMap};
pub use export::{
    wasm_exporttype_delete, wasm_exporttype_name, wasm_exporttype_new, wasm_exporttype_t,
    wasm_exporttype_type,
};
pub use link::{apply_relocation, link_module, link_module_with, LinkError, Patch};
pub use memory::Memory;
pub use relocation::{Relocation, RelocationKind, RelocationTarget};
