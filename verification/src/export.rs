//! The description of one export of a module: its name and its type.

use vstd::prelude::*;
use wasmer_types::{ExportType, ExternType};

verus! {

/// `wasmer_types::ExternType`: the type of an importable or exportable
/// entity. It is carried, never looked into.
#[verifier::external_type_specification]
#[verifier::external_body]
pub struct ExExternType(ExternType);

/// `wasmer_types::ExportType`: the name of an export together with its type.
#[verifier::external_type_specification]
#[verifier::external_body]
#[verifier::reject_recursive_types(T)]
pub struct ExExportType<T>(ExportType<T>);

/// `ExportType::name`, copied into a string of its own. Nothing is claimed
/// of the text.
#[verifier::external_body]
fn export_name(export: &ExportType<ExternType>) -> (name: String) {
    export.name().to_string()
}

/// `ExportType::ty`, cloned. Nothing is claimed of the type.
#[verifier::external_body]
fn export_extern_type(export: &ExportType<ExternType>) -> (extern_type: ExternType) {
    export.ty().clone()
}

/// The name and the type of one export.
#[allow(non_camel_case_types)]
pub struct wasm_exporttype_t {
    name: String,
    extern_type: ExternType,
    /// Whether the description made its name and type itself, rather than
    /// being handed them.
    owns_fields: bool,
}

impl wasm_exporttype_t {
    /// The name of the export.
    pub closed spec fn name(self) -> Seq<char> {
        self.name@
    }

    /// The type of the export.
    pub closed spec fn extern_type(self) -> ExternType {
        self.extern_type
    }

    /// Whether the description made its name and type itself.
    pub closed spec fn owns_fields(self) -> bool {
        self.owns_fields
    }

    /// The description of `other`, with a name and a type of its own.
    pub fn from(other: &ExportType<ExternType>) -> (export: wasm_exporttype_t)
        ensures
            export.owns_fields(),
    {
        wasm_exporttype_t {
            name: export_name(other),
            extern_type: export_extern_type(other),
            owns_fields: true,
        }
    }

    /// Tells whether the description made its name and type itself.
    pub fn is_owner(&self) -> (owner: bool)
        ensures
            owner == self.owns_fields(),
    {
        self.owns_fields
    }
}

/// Describes an export by a name and a type handed in.
pub fn wasm_exporttype_new(name: String, extern_type: ExternType) -> (export: Box<
    wasm_exporttype_t,
>)
    ensures
        export.name() == name@,
        export.extern_type() == extern_type,
        !export.owns_fields(),
{
    Box::new(wasm_exporttype_t { name, extern_type, owns_fields: false })
}

/// The name of the export.
pub fn wasm_exporttype_name(et: &wasm_exporttype_t) -> (name: &String)
    ensures
        name@ == et.name(),
{
    &et.name
}

/// The type of the export.
pub fn wasm_exporttype_type(et: &wasm_exporttype_t) -> (extern_type: &ExternType)
    ensures
        *extern_type == et.extern_type(),
{
    &et.extern_type
}

/// Disposes of a description, if there is one.
pub fn wasm_exporttype_delete(_exporttype: Option<Box<wasm_exporttype_t>>) {
}

} // verus!
