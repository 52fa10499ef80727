use wasm_link::{
    wasm_exporttype_delete, wasm_exporttype_name, wasm_exporttype_new, wasm_exporttype_t,
    wasm_exporttype_type,
};
use wasmer_types::{ExportType, ExternType, FunctionType, GlobalType, Mutability, Type};

fn function_type() -> ExternType {
    ExternType::Function(FunctionType::new(vec![Type::I32, Type::I64], vec![Type::F64]))
}

#[test]
fn new_export_type_holds_what_it_was_given() {
    let export = wasm_exporttype_new("memory_grow".to_string(), function_type());
    assert_eq!(wasm_exporttype_name(&export), "memory_grow");
    assert_eq!(wasm_exporttype_type(&export), &function_type());
    assert!(!export.is_owner());
    wasm_exporttype_delete(Some(export));
}

#[test]
fn export_type_from_a_module_export() {
    let global = ExternType::Global(GlobalType::new(Type::I32, Mutability::Var));
    let export = ExportType::new("stack_pointer", global.clone());
    let described = wasm_exporttype_t::from(&export);
    assert_eq!(wasm_exporttype_name(&described), "stack_pointer");
    assert_eq!(wasm_exporttype_type(&described), &global);
    assert_ne!(wasm_exporttype_type(&described), &function_type());
    assert!(described.is_owner());
    // the description has a name and a type of its own
    drop(export);
    assert_eq!(wasm_exporttype_name(&described), "stack_pointer");
    wasm_exporttype_delete(Some(Box::new(described)));
}

#[test]
fn export_type_with_an_empty_name() {
    let export = wasm_exporttype_new(String::new(), function_type());
    assert_eq!(wasm_exporttype_name(&export), "");
    let described = wasm_exporttype_t::from(&ExportType::new("", function_type()));
    assert_eq!(wasm_exporttype_name(&described), "");
}

#[test]
fn deleting_nothing() {
    wasm_exporttype_delete(None);
}
