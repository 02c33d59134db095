use wasm_encoder::{
    BlockType, CodeSection, CompositeInnerType, CompositeType, ConstExpr, CustomSection,
    DataCountSection, DataSection, ElementSection, Elements, EntityType, ExportKind,
    ExportSection, FieldType, FuncType, Function, FunctionSection, GlobalSection, GlobalType,
    ImportSection, Instruction, MemorySection, MemoryType, Module, RefType, StartSection,
    StorageType, SubType, TableSection, TableType, TypeSection, ValType,
};
use wasm_weaver::error::{Failure, ReadError, WeaveError};
use wasm_weaver::lookup::is_weavable;
use wasm_weaver::parse::{ParsedModule, Span};
use wasm_weaver::reader::ExternKind;
use wasm_weaver::encoder::Instr;
use wasm_weaver::sections::{FunctionOut, ImportOut, Sections};
use wasm_weaver::slab::{find_export, is_slab_accepted};
use wasm_weaver::table_slab::TableSlabApi;
use wasm_weaver::types::{HeapKind, ValueType};
use wasm_weaver::weave::{encode_parsed, validated, weave_module, weave_parsed};
use wasm_weaver::weaver::Weaver;

const NONE: [u8; 4] = [0, 0, 0, 0];
const OWNED: [u8; 4] = *b"EXRo";
const BORROWED: [u8; 4] = *b"EXRr";

/// A slab: `alloc`, `free` and `take` over a table `items`.
fn slab() -> Vec<u8> {
    let mut types = TypeSection::new();
    types.ty().function([ValType::EXTERNREF], [ValType::I32]);
    types.ty().function([ValType::I32], []);
    types.ty().function([ValType::I32], [ValType::EXTERNREF]);
    let mut functions = FunctionSection::new();
    functions.function(0);
    functions.function(1);
    functions.function(2);
    let mut tables = TableSection::new();
    tables.table(TableType {
        element_type: RefType::ANYREF,
        table64: false,
        minimum: 16,
        maximum: None,
        shared: false,
    });
    let mut exports = ExportSection::new();
    exports.export("alloc", ExportKind::Func, 0);
    exports.export("free", ExportKind::Func, 1);
    exports.export("take", ExportKind::Func, 2);
    exports.export("items", ExportKind::Table, 0);
    let mut code = CodeSection::new();
    let mut alloc = Function::new([]);
    alloc.instruction(&Instruction::I32Const(0));
    alloc.instruction(&Instruction::LocalGet(0));
    alloc.instruction(&Instruction::AnyConvertExtern);
    alloc.instruction(&Instruction::TableSet(0));
    alloc.instruction(&Instruction::I32Const(0));
    alloc.instruction(&Instruction::End);
    code.function(&alloc);
    let mut free = Function::new([]);
    free.instruction(&Instruction::End);
    code.function(&free);
    let mut take = Function::new([]);
    take.instruction(&Instruction::LocalGet(0));
    take.instruction(&Instruction::TableGet(0));
    take.instruction(&Instruction::ExternConvertAny);
    take.instruction(&Instruction::End);
    code.function(&take);
    let mut module = Module::new();
    module.section(&types);
    module.section(&functions);
    module.section(&tables);
    module.section(&exports);
    module.section(&code);
    module.finish()
}

/// A module of function types, function imports, functions with their
/// bodies, function exports and custom sections.
fn module(
    types: &[(Vec<ValType>, Vec<ValType>)],
    imports: &[(&str, &str, u32)],
    functions: &[(u32, Vec<Instruction>)],
    exports: &[(&str, u32)],
    customs: &[(&str, Vec<u8>)],
) -> Vec<u8> {
    let mut module = Module::new();
    if !types.is_empty() {
        let mut section = TypeSection::new();
        for (params, results) in types {
            section.ty().function(params.clone(), results.clone());
        }
        module.section(&section);
    }
    if !imports.is_empty() {
        let mut section = ImportSection::new();
        for (namespace, name, ty) in imports {
            section.import(namespace, name, EntityType::Function(*ty));
        }
        module.section(&section);
    }
    if !functions.is_empty() {
        let mut section = FunctionSection::new();
        for (ty, _) in functions {
            section.function(*ty);
        }
        module.section(&section);
    }
    if !exports.is_empty() {
        let mut section = ExportSection::new();
        for (name, index) in exports {
            section.export(name, ExportKind::Func, *index);
        }
        module.section(&section);
    }
    if !functions.is_empty() {
        let mut section = CodeSection::new();
        for (_, body) in functions {
            let mut function = Function::new([]);
            for instruction in body {
                function.instruction(instruction);
            }
            section.function(&function);
        }
        module.section(&section);
    }
    for (name, data) in customs {
        module.section(&CustomSection { name: (*name).into(), data: data.as_slice().into() });
    }
    module.finish()
}

fn tags(list: &[[u8; 4]]) -> Vec<u8> {
    list.iter().flat_map(|tag| tag.iter().copied()).collect()
}

/// The instructions of each body of a module, as the reader prints them.
fn bodies(bytes: &[u8]) -> Vec<Vec<String>> {
    let mut out = Vec::new();
    for payload in wasmparser::Parser::new(0).parse_all(bytes) {
        if let wasmparser::Payload::CodeSectionEntry(body) = payload.unwrap() {
            let mut list = Vec::new();
            for operator in body.get_operators_reader().unwrap() {
                list.push(format!("{:?}", operator.unwrap()));
            }
            out.push(list);
        }
    }
    out
}

/// The locals that each body of a module declares.
fn locals(bytes: &[u8]) -> Vec<Vec<(u32, wasmparser::ValType)>> {
    let mut out = Vec::new();
    for payload in wasmparser::Parser::new(0).parse_all(bytes) {
        if let wasmparser::Payload::CodeSectionEntry(body) = payload.unwrap() {
            let mut list = Vec::new();
            for local in body.get_locals_reader().unwrap() {
                list.push(local.unwrap());
            }
            out.push(list);
        }
    }
    out
}

/// The identifiers of the sections of a module, in order.
fn section_ids(bytes: &[u8]) -> Vec<u8> {
    let mut out = Vec::new();
    for payload in wasmparser::Parser::new(0).parse_all(bytes) {
        match payload.unwrap() {
            wasmparser::Payload::CodeSectionStart { .. } => out.push(10),
            other => {
                if let Some((id, _)) = other.as_section() {
                    out.push(id);
                }
            },
        }
    }
    out
}

/// The parameters and results of the function type at `index`.
fn signature(parsed: &ParsedModule, index: u32) -> (Vec<ValueType>, Vec<ValueType>) {
    let mut all = Vec::new();
    for group in &parsed.types {
        for member in &group.types {
            all.push(member.func.clone());
        }
    }
    let func = all[index as usize].clone().unwrap();
    (func.params().clone(), func.results().clone())
}

fn strings(list: &[&str]) -> Vec<String> {
    list.iter().map(|text| text.to_string()).collect()
}

fn user_error(result: Result<Vec<u8>, Failure>) -> WeaveError {
    match result {
        Err(Failure::UserError(error)) => error,
        other => panic!("no user error: {other:?}"),
    }
}

#[test]
fn pure_module_is_left_as_it_is() {
    let input = module(
        &[(vec![ValType::F32], vec![ValType::F32])],
        &[],
        &[(
            0,
            vec![
                Instruction::LocalGet(0),
                Instruction::LocalGet(0),
                Instruction::F32Mul,
                Instruction::End,
            ],
        )],
        &[("sq", 0)],
        &[],
    );
    let output = weave_module(&input, &slab()).unwrap();
    assert_eq!(output, input);
    assert!(wasmparser::validate(&output).is_ok());
}

#[test]
fn two_values_are_returned() {
    let input = module(
        &[(vec![ValType::I32], vec![]), (vec![ValType::I32, ValType::I32], vec![])],
        &[("__export_returns", "foo", 1)],
        &[(
            0,
            vec![
                Instruction::LocalGet(0),
                Instruction::LocalGet(0),
                Instruction::Call(0),
                Instruction::End,
            ],
        )],
        &[("foo", 1)],
        &[],
    );
    let output = weave_module(&input, &slab()).unwrap();
    let parsed = ParsedModule::read(&output).unwrap();
    assert_eq!(parsed.imports.len(), 0);
    assert_eq!(parsed.functions, vec![0]);
    assert_eq!(
        signature(&parsed, 0),
        (vec![ValueType::I32], vec![ValueType::I32, ValueType::I32])
    );
    assert_eq!(parsed.exports.len(), 1);
    assert_eq!(parsed.exports[0].name, "foo");
    assert_eq!(parsed.exports[0].index, 0);
    assert_eq!(
        bodies(&output),
        vec![strings(&[
            "LocalGet { local_index: 0 }",
            "LocalGet { local_index: 0 }",
            "Return",
            "End",
        ])]
    );
    assert_eq!(section_ids(&output), vec![1, 2, 3, 7, 10]);
}

#[test]
fn stub_without_parameters_becomes_a_return() {
    let input = module(
        &[(vec![ValType::I32], vec![]), (vec![], vec![])],
        &[("__export_returns", "foo", 1)],
        &[(0, vec![Instruction::Call(0), Instruction::End])],
        &[("foo", 1)],
        &[],
    );
    let output = weave_module(&input, &slab()).unwrap();
    let parsed = ParsedModule::read(&output).unwrap();
    assert_eq!(parsed.imports.len(), 0);
    assert_eq!(signature(&parsed, parsed.functions[0]), (vec![ValueType::I32], vec![]));
    assert_eq!(bodies(&output), vec![strings(&["Return", "End"])]);
}

#[test]
fn three_values_are_returned_from_a_branch() {
    let input = module(
        &[
            (vec![ValType::I32], vec![]),
            (vec![ValType::I32, ValType::I32, ValType::I32], vec![]),
        ],
        &[("__export_returns", "foo", 1)],
        &[(
            0,
            vec![
                Instruction::LocalGet(0),
                Instruction::If(BlockType::Empty),
                Instruction::I32Const(1),
                Instruction::I32Const(2),
                Instruction::I32Const(3),
                Instruction::Call(0),
                Instruction::Else,
                Instruction::I32Const(4),
                Instruction::I32Const(5),
                Instruction::I32Const(6),
                Instruction::Call(0),
                Instruction::End,
                Instruction::Unreachable,
                Instruction::End,
            ],
        )],
        &[("foo", 1)],
        &[("__signature.export.foo", tags(&[NONE, OWNED, NONE, NONE]))],
    );
    let output = weave_module(&input, &slab()).unwrap();
    let parsed = ParsedModule::read(&output).unwrap();
    assert_eq!(parsed.functions.len(), 4);
    assert_eq!(
        signature(&parsed, parsed.functions[3]),
        (
            vec![ValueType::I32],
            vec![ValueType::externref(), ValueType::I32, ValueType::I32]
        )
    );
    let body = &bodies(&output)[3];
    assert!(body[0].starts_with("Block { blockty: FuncType("));
    assert_eq!(
        body[1..].to_vec(),
        strings(&[
            "LocalGet { local_index: 0 }",
            "If { blockty: Empty }",
            "I32Const { value: 1 }",
            "I32Const { value: 2 }",
            "I32Const { value: 3 }",
            "Br { relative_depth: 1 }",
            "Else",
            "I32Const { value: 4 }",
            "I32Const { value: 5 }",
            "I32Const { value: 6 }",
            "Br { relative_depth: 1 }",
            "End",
            "Unreachable",
            "End",
            "LocalSet { local_index: 3 }",
            "LocalSet { local_index: 2 }",
            "LocalSet { local_index: 1 }",
            "LocalGet { local_index: 1 }",
            "Call { function_index: 2 }",
            "LocalGet { local_index: 2 }",
            "LocalGet { local_index: 3 }",
            "End",
        ])
    );
}

fn externref_module(result: [u8; 4]) -> Vec<u8> {
    module(
        &[(vec![ValType::I32, ValType::I32], vec![ValType::I32])],
        &[],
        &[(
            0,
            vec![
                Instruction::LocalGet(0),
                Instruction::LocalGet(1),
                Instruction::I32Add,
                Instruction::End,
            ],
        )],
        &[("ext", 0)],
        &[("__signature.export.ext", tags(&[OWNED, NONE, result]))],
    )
}

#[test]
fn owned_host_reference_goes_through_the_slab() {
    let output = weave_module(&externref_module(OWNED), &slab()).unwrap();
    let parsed = ParsedModule::read(&output).unwrap();
    assert_eq!(parsed.functions.len(), 4);
    assert_eq!(parsed.code.len(), 4);
    assert_eq!(
        signature(&parsed, parsed.functions[3]),
        (vec![ValueType::externref(), ValueType::I32], vec![ValueType::externref()])
    );
    assert_eq!(parsed.exports.len(), 1);
    assert_eq!(parsed.exports[0].name, "ext");
    assert_eq!(parsed.exports[0].index, 3);
    assert_eq!(
        locals(&output)[3],
        vec![(1, wasmparser::ValType::I32), (1, wasmparser::ValType::I32)]
    );
    let body = &bodies(&output)[3];
    assert_eq!(
        body[..3].to_vec(),
        strings(&[
            "LocalGet { local_index: 0 }",
            "Call { function_index: 0 }",
            "LocalSet { local_index: 2 }",
        ])
    );
    assert!(body[3].starts_with("Block { blockty: FuncType("));
    assert_eq!(
        body[4..].to_vec(),
        strings(&[
            "LocalGet { local_index: 2 }",
            "LocalGet { local_index: 1 }",
            "I32Add",
            "End",
            "LocalSet { local_index: 3 }",
            "LocalGet { local_index: 3 }",
            "Call { function_index: 2 }",
            "End",
        ])
    );
}

#[test]
fn borrowed_host_reference_stays_in_its_slot() {
    let output = weave_module(&externref_module(BORROWED), &slab()).unwrap();
    let parsed = ParsedModule::read(&output).unwrap();
    assert_eq!(
        signature(&parsed, parsed.functions[3]),
        (vec![ValueType::externref(), ValueType::I32], vec![ValueType::externref()])
    );
    let body = &bodies(&output)[3];
    assert_eq!(
        body[8..].to_vec(),
        strings(&[
            "LocalSet { local_index: 3 }",
            "LocalGet { local_index: 3 }",
            "TableGet { table: 0 }",
            "ExternConvertAny",
            "End",
        ])
    );
    assert!(!body.contains(&"Call { function_index: 2 }".to_string()));
}

#[test]
fn import_of_the_slab_is_bound_to_the_slab() {
    let input = module(
        &[(vec![ValType::I32], vec![])],
        &[("__table", "free", 0)],
        &[(0, vec![Instruction::LocalGet(0), Instruction::Call(0), Instruction::End])],
        &[("drop_it", 1)],
        &[],
    );
    let output = weave_module(&input, &slab()).unwrap();
    let parsed = ParsedModule::read(&output).unwrap();
    assert_eq!(parsed.imports.len(), 0);
    assert_eq!(parsed.code.len(), 4);
    assert_eq!(parsed.exports[0].index, 3);
    assert_eq!(
        bodies(&output)[3],
        strings(&["LocalGet { local_index: 0 }", "Call { function_index: 1 }", "End"])
    );
}

#[test]
fn kept_import_keeps_its_place() {
    let input = module(
        &[(vec![ValType::I32], vec![]), (vec![], vec![])],
        &[("__export_returns", "foo", 1), ("env", "log", 0)],
        &[(
            0,
            vec![
                Instruction::LocalGet(0),
                Instruction::Call(1),
                Instruction::Call(0),
                Instruction::End,
            ],
        )],
        &[("foo", 2)],
        &[],
    );
    let output = weave_module(&input, &slab()).unwrap();
    let parsed = ParsedModule::read(&output).unwrap();
    assert_eq!(parsed.imports.len(), 1);
    assert_eq!(parsed.imports[0].module, "env");
    assert_eq!(parsed.imports[0].name, "log");
    assert_eq!(parsed.exports[0].index, 1);
    assert_eq!(
        bodies(&output),
        vec![strings(&[
            "LocalGet { local_index: 0 }",
            "Call { function_index: 0 }",
            "Return",
            "End",
        ])]
    );
}

#[test]
fn equal_types_are_written_once() {
    let input = module(
        &[(vec![ValType::I32], vec![]), (vec![ValType::I32], vec![])],
        &[],
        &[(0, vec![Instruction::End]), (1, vec![Instruction::End])],
        &[],
        &[],
    );
    let output = weave_module(&input, &slab()).unwrap();
    let parsed = ParsedModule::read(&output).unwrap();
    assert_eq!(parsed.types.len(), 1);
    assert_eq!(parsed.functions, vec![0, 0]);
}

#[test]
fn type_that_nothing_names_is_left_out() {
    let input = module(
        &[(vec![ValType::I64], vec![]), (vec![ValType::I32], vec![])],
        &[],
        &[(1, vec![Instruction::End])],
        &[],
        &[],
    );
    let output = weave_module(&input, &slab()).unwrap();
    let parsed = ParsedModule::read(&output).unwrap();
    assert_eq!(parsed.types.len(), 1);
    assert_eq!(signature(&parsed, 0), (vec![ValueType::I32], vec![]));
}

#[test]
fn sections_keep_their_order() {
    let mut types = TypeSection::new();
    types.ty().function([], []);
    let mut functions = FunctionSection::new();
    functions.function(0);
    let mut tables = TableSection::new();
    tables.table(TableType {
        element_type: RefType::FUNCREF,
        table64: false,
        minimum: 1,
        maximum: None,
        shared: false,
    });
    let mut memories = MemorySection::new();
    memories.memory(MemoryType {
        minimum: 1,
        maximum: None,
        memory64: false,
        shared: false,
        page_size_log2: None,
    });
    let mut globals = GlobalSection::new();
    globals.global(
        GlobalType { val_type: ValType::I32, mutable: false, shared: false },
        &ConstExpr::i32_const(7),
    );
    let mut exports = ExportSection::new();
    exports.export("run", ExportKind::Func, 0);
    exports.export("mem", ExportKind::Memory, 0);
    exports.export("seven", ExportKind::Global, 0);
    exports.export("funcs", ExportKind::Table, 0);
    let mut elements = ElementSection::new();
    elements.active(Some(0), &ConstExpr::i32_const(0), Elements::Functions([0u32][..].into()));
    let mut code = CodeSection::new();
    let mut run = Function::new([]);
    run.instruction(&Instruction::End);
    code.function(&run);
    let mut data = DataSection::new();
    data.active(0, &ConstExpr::i32_const(0), [1u8, 2, 3]);
    let mut input = Module::new();
    input.section(&types);
    input.section(&functions);
    input.section(&tables);
    input.section(&memories);
    input.section(&globals);
    input.section(&exports);
    input.section(&StartSection { function_index: 0 });
    input.section(&elements);
    input.section(&DataCountSection { count: 1 });
    input.section(&code);
    input.section(&data);
    let input = input.finish();
    let output = weave_module(&input, &slab()).unwrap();
    assert_eq!(section_ids(&output), vec![1, 3, 4, 5, 6, 7, 8, 9, 12, 10, 11]);
    assert_eq!(output, input);
}

#[test]
fn data_count_is_the_number_of_segments() {
    let mut memories = MemorySection::new();
    memories.memory(MemoryType {
        minimum: 1,
        maximum: None,
        memory64: false,
        shared: false,
        page_size_log2: None,
    });
    let mut data = DataSection::new();
    data.active(0, &ConstExpr::i32_const(0), [1u8]);
    data.active(0, &ConstExpr::i32_const(8), [2u8]);
    let mut input = Module::new();
    input.section(&memories);
    input.section(&DataCountSection { count: 2 });
    input.section(&data);
    let output = weave_module(&input.finish(), &slab()).unwrap();
    let parsed = ParsedModule::read(&output).unwrap();
    assert_eq!(parsed.data_count, Some(2));
    assert_eq!(parsed.data_segments.len(), 2);
}

#[test]
fn stub_that_is_no_function_is_refused() {
    let mut imports = ImportSection::new();
    imports.import(
        "__export_returns",
        "g",
        EntityType::Global(GlobalType { val_type: ValType::I32, mutable: false, shared: false }),
    );
    let mut input = Module::new();
    input.section(&imports);
    match user_error(weave_module(&input.finish(), &slab())) {
        WeaveError::ReturnsMarkerIsNotFunction(name) => assert_eq!(name, "g"),
        other => panic!("wrong error: {other:?}"),
    }
}

#[test]
fn stub_of_a_type_that_is_no_function_is_refused() {
    let mut types = TypeSection::new();
    types.ty().struct_(vec![FieldType {
        element_type: StorageType::Val(ValType::I32),
        mutable: false,
    }]);
    let mut imports = ImportSection::new();
    imports.import("__export_returns", "foo", EntityType::Function(0));
    let mut input = Module::new();
    input.section(&types);
    input.section(&imports);
    assert!(matches!(
        user_error(weave_module(&input.finish(), &slab())),
        WeaveError::FunctionTypeIsNotFunction(0)
    ));
}

#[test]
fn import_that_the_slab_lacks_is_refused() {
    let input = module(&[(vec![ValType::I32], vec![])], &[("__table", "bogus", 0)], &[], &[], &[]);
    match user_error(weave_module(&input, &slab())) {
        WeaveError::ImportNotFound(name) => assert_eq!(name, "bogus"),
        other => panic!("wrong error: {other:?}"),
    }
}

#[test]
fn call_of_a_stub_from_elsewhere_is_refused() {
    let input = module(
        &[(vec![], vec![])],
        &[("__export_returns", "foo", 0)],
        &[(0, vec![Instruction::Call(0), Instruction::End])],
        &[("bar", 1)],
        &[],
    );
    assert!(matches!(
        user_error(weave_module(&input, &slab())),
        WeaveError::UnexpectedMarkerFunctionCall(_)
    ));
}

#[test]
fn unknown_tag_is_refused() {
    let input = module(
        &[(vec![ValType::I32], vec![])],
        &[],
        &[(0, vec![Instruction::End])],
        &[("f", 0)],
        &[("__signature.export.f", tags(&[*b"ABCD"]))],
    );
    assert!(matches!(user_error(weave_module(&input, &slab())), WeaveError::UnknownMeta(_)));
}

#[test]
fn tag_on_a_type_that_cannot_bear_it_is_refused() {
    let input = module(
        &[(vec![ValType::F32], vec![])],
        &[],
        &[(0, vec![Instruction::End])],
        &[("f", 0)],
        &[("__signature.export.f", tags(&[OWNED]))],
    );
    match user_error(weave_module(&input, &slab())) {
        WeaveError::IncompatibleMetaType(meta, ty) => {
            assert_eq!(meta.tag, OWNED);
            assert_eq!(ty, ValueType::F32);
        },
        other => panic!("wrong error: {other:?}"),
    }
}

#[test]
fn type_out_of_bounds_is_refused() {
    let input = module(&[], &[], &[(5, vec![Instruction::End])], &[], &[]);
    assert!(matches!(
        user_error(weave_module(&input, &slab())),
        WeaveError::TypeIndexOutOfBounds(5)
    ));
}

#[test]
fn exports_out_of_bounds_are_refused() {
    for (kind, index) in
        [(ExportKind::Func, 9u32), (ExportKind::Table, 5u32), (ExportKind::Global, 6u32)]
    {
        let mut exports = ExportSection::new();
        exports.export("x", kind, index);
        let mut input = Module::new();
        input.section(&exports);
        let error = user_error(weave_module(&input.finish(), &slab()));
        match kind {
            ExportKind::Func => {
                assert!(matches!(error, WeaveError::FunctionIndexOutOfBounds(9)))
            },
            ExportKind::Table => assert!(matches!(error, WeaveError::TableIndexOutOfBounds(5))),
            _ => assert!(matches!(error, WeaveError::GlobalIndexOutOfBounds(6))),
        }
    }
}

#[test]
fn start_out_of_bounds_is_refused() {
    let mut input = Module::new();
    input.section(&StartSection { function_index: 7 });
    assert!(matches!(
        user_error(weave_module(&input.finish(), &slab())),
        WeaveError::FunctionIndexOutOfBounds(7)
    ));
}

#[test]
fn input_that_is_no_module_is_refused() {
    assert!(matches!(
        weave_module(b"not a module", &slab()),
        Err(Failure::Read(ReadError::Decode(_)))
    ));
    assert!(matches!(
        weave_module(&[0, 0x61, 0x73, 0x6d, 0x0d, 0, 1, 0], &slab()),
        Err(Failure::Read(ReadError::NotAModule))
    ));
}

#[test]
fn body_without_declaration_is_refused() {
    let mut code = CodeSection::new();
    let mut function = Function::new([]);
    function.instruction(&Instruction::End);
    code.function(&function);
    let mut input = Module::new();
    input.section(&code);
    assert!(matches!(
        weave_module(&input.finish(), &slab()),
        Err(Failure::Read(ReadError::Decode(_)))
    ));
    let data = [];
    let mut parsed = ParsedModule::empty(&data);
    assert!(is_weavable(&parsed));
    parsed.code.push(Span { start: 0, end: 0 });
    assert!(!is_weavable(&parsed));
    parsed.functions.push(0);
    assert!(is_weavable(&parsed));
}

#[test]
fn output_that_is_not_valid_is_refused() {
    let input = module(
        &[(vec![], vec![])],
        &[],
        &[(0, vec![Instruction::I32Add, Instruction::End])],
        &[],
        &[],
    );
    assert!(matches!(weave_module(&input, &slab()), Err(Failure::Validate(_))));
}

#[test]
fn slab_with_a_memory_is_refused() {
    let mut memories = MemorySection::new();
    memories.memory(MemoryType {
        minimum: 1,
        maximum: None,
        memory64: false,
        shared: false,
        page_size_log2: None,
    });
    let mut bad = Module::new();
    bad.section(&memories);
    let bad = bad.finish();
    assert!(!is_slab_accepted(&ParsedModule::read(&bad).unwrap()));
    assert!(is_slab_accepted(&ParsedModule::read(&slab()).unwrap()));
    assert!(matches!(
        weave_module(&externref_module(OWNED), &bad),
        Err(Failure::Read(ReadError::Malformed))
    ));
}

#[test]
fn slab_that_lacks_an_export_is_refused() {
    let mut empty = Module::new();
    empty.section(&TypeSection::new());
    match user_error(weave_module(&externref_module(OWNED), &empty.finish())) {
        WeaveError::ImportNotFound(name) => assert_eq!(name, "alloc"),
        other => panic!("wrong error: {other:?}"),
    }
}

#[test]
fn woven_module_counts_its_parts() {
    let input = externref_module(OWNED);
    let slab = slab();
    let parsed = ParsedModule::read(&input).unwrap();
    let parsed_slab = ParsedModule::read(&slab).unwrap();
    let woven = match Weaver::new(&parsed).weave(&parsed_slab) {
        Ok(woven) => woven,
        Err(error) => panic!("{error:?}"),
    };
    assert_eq!(woven.sections.functions.as_ref().unwrap().len(), 4);
    assert_eq!(woven.sections.code.as_ref().unwrap().len(), 4);
    assert!(woven.sections.imports.is_none());
    assert_eq!(woven.weaver.indices.funcs.map(0), Some(3));
    assert_eq!(woven.weaver.indices.funcs.reserved(), 4);
    assert_eq!(woven.weaver.indices.tables.reserved(), 1);
    let api = woven.weaver.table_api.unwrap();
    assert_eq!((api.alloc_fn, api.free_fn, api.take_fn, api.items_table), (0, 1, 2, 0));
    assert_eq!(woven.counts.funcs, 0);
}

#[test]
fn module_sections_are_written_into_a_module() {
    let input = module(
        &[(vec![], vec![])],
        &[],
        &[(0, vec![Instruction::End])],
        &[("run", 0)],
        &[],
    );
    let slab = slab();
    let parsed = ParsedModule::read(&input).unwrap();
    let parsed_slab = ParsedModule::read(&slab).unwrap();
    let mut out = Module::new();
    assert!(Weaver::new(&parsed).encode(&mut out, &parsed_slab).is_ok());
    assert_eq!(section_ids(&out.finish()), vec![1, 3, 7, 10]);
}

#[test]
fn empty_module_is_woven() {
    let output = weave_module(&Module::new().finish(), &slab()).unwrap();
    assert_eq!(section_ids(&output), Vec::<u8>::new());
    assert_eq!(output, vec![0x00, 0x61, 0x73, 0x6d, 0x01, 0x00, 0x00, 0x00]);
    let parsed = ParsedModule::read(&output).unwrap();
    assert_eq!(parsed.types.len(), 0);
    assert!(wasmparser::validate(&output).is_ok());
}

#[test]
fn sections_of_nothing_leave_the_header() {
    let mut out = Module::new();
    assert!(Sections::new().encode(&mut out, None).is_ok());
    assert_eq!(out.finish(), vec![0x00, 0x61, 0x73, 0x6d, 0x01, 0x00, 0x00, 0x00]);
}

#[test]
fn borrowed_tag_on_a_result_that_is_no_slot_is_refused() {
    let input = module(
        &[(vec![], vec![ValType::I64])],
        &[],
        &[(0, vec![Instruction::I64Const(1), Instruction::End])],
        &[("f", 0)],
        &[("__signature.export.f", tags(&[BORROWED]))],
    );
    match user_error(weave_module(&input, &slab())) {
        WeaveError::IncompatibleMetaType(meta, ty) => {
            assert_eq!(meta.tag, BORROWED);
            assert_eq!(ty, ValueType::I64);
        },
        other => panic!("wrong error: {other:?}"),
    }
}

#[test]
fn bad_parameter_is_named_before_a_bad_result() {
    let input = module(
        &[(vec![ValType::F32], vec![ValType::I64])],
        &[],
        &[(0, vec![Instruction::I64Const(1), Instruction::End])],
        &[("f", 0)],
        &[("__signature.export.f", tags(&[OWNED, *b"ABCD"]))],
    );
    match user_error(weave_module(&input, &slab())) {
        WeaveError::IncompatibleMetaType(meta, ty) => {
            assert_eq!(meta.tag, OWNED);
            assert_eq!(ty, ValueType::F32);
        },
        other => panic!("wrong error: {other:?}"),
    }
}

#[test]
fn dangling_start_of_an_empty_module_is_named() {
    let mut input = Module::new();
    input.section(&StartSection { function_index: 0 });
    assert!(matches!(
        user_error(weave_module(&input.finish(), &slab())),
        WeaveError::FunctionIndexOutOfBounds(0)
    ));
}

#[test]
fn export_is_refused_before_the_start_function() {
    let mut exports = ExportSection::new();
    exports.export("t", ExportKind::Table, 3);
    let mut input = Module::new();
    input.section(&exports);
    input.section(&StartSection { function_index: 0 });
    assert!(matches!(
        user_error(weave_module(&input.finish(), &slab())),
        WeaveError::TableIndexOutOfBounds(3)
    ));
}

#[test]
fn first_stub_that_is_no_function_is_named() {
    let mut types = TypeSection::new();
    types.ty().function(vec![ValType::I32], vec![]);
    let mut imports = ImportSection::new();
    imports.import("__export_returns", "fine", EntityType::Function(0));
    imports.import(
        "__export_returns",
        "foo",
        EntityType::Global(GlobalType { val_type: ValType::I32, mutable: false, shared: false }),
    );
    imports.import("__export_returns", "late", EntityType::Function(9));
    let mut input = Module::new();
    input.section(&types);
    input.section(&imports);
    let bytes = input.finish();
    let slab = slab();
    let parsed = ParsedModule::read(&bytes).unwrap();
    let parsed_slab = ParsedModule::read(&slab).unwrap();
    let mut out = Module::new();
    match Weaver::new(&parsed).encode(&mut out, &parsed_slab) {
        Err(Failure::UserError(WeaveError::ReturnsMarkerIsNotFunction(name))) => {
            assert_eq!(name, "foo")
        },
        other => panic!("wrong outcome: {other:?}"),
    }
    assert_eq!(out.finish(), Module::new().finish());
}

#[test]
fn members_of_a_group_are_bound_together() {
    let member = |params: Vec<ValType>| SubType {
        is_final: true,
        supertype_idxs: vec![],
        composite_type: CompositeType {
            inner: CompositeInnerType::Func(FuncType::new(params, vec![])),
            shared: false,
            descriptor: None,
            describes: None,
        },
    };
    let mut types = TypeSection::new();
    types.ty().function(vec![], vec![]);
    types.ty().rec(vec![member(vec![ValType::I32]), member(vec![ValType::I64]), member(vec![])]);
    let mut functions = FunctionSection::new();
    functions.function(2);
    let mut code = CodeSection::new();
    let mut body = Function::new([]);
    body.instruction(&Instruction::End);
    code.function(&body);
    let mut input = Module::new();
    input.section(&types);
    input.section(&functions);
    input.section(&code);
    let bytes = input.finish();
    let slab = slab();
    let parsed = ParsedModule::read(&bytes).unwrap();
    let parsed_slab = ParsedModule::read(&slab).unwrap();
    let woven = match Weaver::new(&parsed).weave(&parsed_slab) {
        Ok(woven) => woven,
        Err(error) => panic!("{error:?}"),
    };
    assert_eq!(woven.weaver.indices.types.map(0), None);
    assert_eq!(woven.weaver.indices.types.map(1), Some(0));
    assert_eq!(woven.weaver.indices.types.map(2), Some(1));
    assert_eq!(woven.weaver.indices.types.map(3), Some(2));
    assert_eq!(woven.sections.functions, Some(vec![1]));
}

#[test]
fn slab_is_known_by_the_names_of_its_exports() {
    let slab = slab();
    let parsed_slab = ParsedModule::read(&slab).unwrap();
    let functions = parsed_slab.functions.len();
    let tables = parsed_slab.tables.len();
    let alloc = find_export(&parsed_slab.exports, "alloc", ExternKind::Func, functions).unwrap();
    let free = find_export(&parsed_slab.exports, "free", ExternKind::Func, functions).unwrap();
    let take = find_export(&parsed_slab.exports, "take", ExternKind::Func, functions).unwrap();
    let items = find_export(&parsed_slab.exports, "items", ExternKind::Table, tables).unwrap();
    assert_eq!(find_export(&parsed_slab.exports, "items", ExternKind::Func, functions), None);
    assert_eq!(find_export(&parsed_slab.exports, "alloc", ExternKind::Func, 0), None);
    assert_eq!(find_export(&parsed_slab.exports, "other", ExternKind::Func, functions), None);
    let input = Module::new().finish();
    let parsed = ParsedModule::read(&input).unwrap();
    let mut weaver = Weaver::new(&parsed);
    weaver.indices.funcs.reserve();
    weaver.indices.funcs.reserve();
    weaver.indices.tables.reserve();
    let mut sections = Sections::new();
    let api = match TableSlabApi::merge(&mut weaver, &mut sections, &parsed_slab) {
        Ok(api) => api,
        Err(error) => panic!("{error:?}"),
    };
    assert_eq!(
        (api.alloc_fn, api.free_fn, api.take_fn, api.items_table),
        (2 + alloc, 2 + free, 2 + take, 1 + items)
    );
}

#[test]
fn slab_with_a_body_too_few_is_refused() {
    let header = Module::new().finish();
    let mut short = ParsedModule::read(&header).unwrap();
    assert!(is_slab_accepted(&short));
    short.functions = vec![0, 0];
    assert!(!is_slab_accepted(&short));
    short.code = vec![Span { start: 0, end: 0 }, Span { start: 0, end: 0 }];
    assert!(is_slab_accepted(&short));
}

#[test]
fn module_of_stubs_alone_is_woven() {
    let input = module(&[(vec![ValType::I32], vec![])], &[("__export_returns", "foo", 0)], &[], &[], &[]);
    let output = weave_module(&input, &slab()).unwrap();
    assert_eq!(section_ids(&output), vec![1, 2]);
    let parsed = ParsedModule::read(&output).unwrap();
    assert_eq!(parsed.imports.len(), 0);
    assert_eq!(parsed.types.len(), 0);
}

#[test]
fn type_that_is_written_is_not_written_again() {
    let input = module(
        &[(vec![ValType::I32], vec![])],
        &[],
        &[(0, vec![Instruction::End]), (0, vec![Instruction::End]), (0, vec![Instruction::End])],
        &[],
        &[],
    );
    let slab = slab();
    let parsed = ParsedModule::read(&input).unwrap();
    let parsed_slab = ParsedModule::read(&slab).unwrap();
    let mut weaver = Weaver::new(&parsed);
    assert!(matches!(weaver.declare_function(0), Ok(0)));
    assert_eq!(weaver.indices.types.reserved(), 1);
    assert!(matches!(weaver.declare_function(1), Ok(0)));
    assert!(matches!(weaver.type_index(0), Ok(0)));
    assert_eq!(weaver.indices.types.reserved(), 1);
    assert!(matches!(
        weaver.type_index(3),
        Err(Failure::UserError(WeaveError::TypeIndexOutOfBounds(3)))
    ));
    assert!(matches!(
        weaver.declare_function(3),
        Err(Failure::UserError(WeaveError::FunctionIndexOutOfBounds(_)))
    ));
    assert!(matches!(
        weaver.signature_of(9),
        Err(Failure::UserError(WeaveError::TypeIndexOutOfBounds(9)))
    ));
    assert!(weaver.signature_of(0).is_ok());
    assert!(is_slab_accepted(&parsed_slab));
}

#[test]
fn slab_stands_behind_what_the_module_imports() {
    let input = module(
        &[(vec![ValType::I32], vec![])],
        &[("env", "log", 0), ("__table", "free", 0)],
        &[(0, vec![Instruction::LocalGet(0), Instruction::Call(1), Instruction::End])],
        &[("drop_it", 2)],
        &[],
    );
    let slab = slab();
    let parsed = ParsedModule::read(&input).unwrap();
    let parsed_slab = ParsedModule::read(&slab).unwrap();
    let woven = match Weaver::new(&parsed).weave(&parsed_slab) {
        Ok(woven) => woven,
        Err(error) => panic!("{error:?}"),
    };
    let api = woven.weaver.table_api.unwrap();
    assert_eq!((api.alloc_fn, api.free_fn, api.take_fn, api.items_table), (1, 2, 3, 0));
    assert_eq!(woven.weaver.indices.funcs.map(0), Some(0));
    assert_eq!(woven.weaver.indices.funcs.map(1), Some(2));
    assert_eq!(woven.weaver.indices.funcs.map(2), Some(4));
    assert_eq!(woven.weaver.indices.funcs.reserved(), 5);
}

#[test]
fn declared_locals_are_kept() {
    let mut types = TypeSection::new();
    types.ty().function([ValType::I32, ValType::I32], [ValType::I32]);
    let mut functions = FunctionSection::new();
    functions.function(0);
    functions.function(0);
    let mut exports = ExportSection::new();
    exports.export("ext", ExportKind::Func, 1);
    let mut code = CodeSection::new();
    let mut plain = Function::new([(2, ValType::I64), (1, ValType::F32)]);
    plain.instruction(&Instruction::LocalGet(0));
    plain.instruction(&Instruction::End);
    code.function(&plain);
    let mut ext = Function::new([(1, ValType::I64)]);
    ext.instruction(&Instruction::LocalGet(0));
    ext.instruction(&Instruction::End);
    code.function(&ext);
    let mut input = Module::new();
    input.section(&types);
    input.section(&functions);
    input.section(&exports);
    input.section(&code);
    input.section(&CustomSection {
        name: "__signature.export.ext".into(),
        data: tags(&[OWNED, NONE, OWNED]).as_slice().into(),
    });
    let output = weave_module(&input.finish(), &slab()).unwrap();
    let all = locals(&output);
    assert_eq!(all[3], vec![(2, wasmparser::ValType::I64), (1, wasmparser::ValType::F32)]);
    assert_eq!(
        all[4],
        vec![
            (1, wasmparser::ValType::I64),
            (1, wasmparser::ValType::I32),
            (1, wasmparser::ValType::I32)
        ]
    );
    let body = &bodies(&output)[4];
    assert_eq!(
        body[..3].to_vec(),
        strings(&[
            "LocalGet { local_index: 0 }",
            "Call { function_index: 0 }",
            "LocalSet { local_index: 3 }",
        ])
    );
    assert_eq!(
        body[4..].to_vec(),
        strings(&[
            "LocalGet { local_index: 3 }",
            "End",
            "LocalSet { local_index: 4 }",
            "LocalGet { local_index: 4 }",
            "Call { function_index: 2 }",
            "End",
        ])
    );
}

#[test]
fn sections_that_the_encoder_refuses_are_an_error() {
    let mut broken = Sections::new();
    broken.imports = Some(vec![ImportOut {
        module: "env".to_string(),
        name: "f".to_string(),
        entity: vec![0x7f],
    }]);
    let mut out = Module::new();
    assert!(matches!(broken.encode(&mut out, None), Err(Failure::ParseError(_))));
    assert_eq!(out.finish(), Module::new().finish());

    let unnamed = ValueType::Ref(wasm_weaver::types::RefType {
        nullable: true,
        heap_type: HeapKind::Canonical,
    });
    let mut odd = Sections::new();
    odd.code = Some(vec![
        FunctionOut { locals: vec![(1, ValueType::I32)], body: vec![Instr::End] },
        FunctionOut { locals: vec![(2, ValueType::F64), (1, unnamed)], body: vec![Instr::End] },
    ]);
    let mut out = Module::new();
    assert!(matches!(
        odd.encode(&mut out, None),
        Err(Failure::CanonicalizedHeapTypeReference)
    ));
    assert_eq!(out.finish(), Module::new().finish());

    let mut fine = Sections::new();
    fine.imports = Some(vec![ImportOut {
        module: "env".to_string(),
        name: "f".to_string(),
        entity: vec![0x00, 0x00],
    }]);
    fine.functions = Some(vec![0]);
    fine.code = Some(vec![FunctionOut {
        locals: vec![(1, ValueType::I32)],
        body: vec![Instr::End],
    }]);
    let mut out = Module::new();
    assert!(fine.encode(&mut out, None).is_ok());
    assert_eq!(section_ids(&out.finish()), vec![2, 3, 10]);
}

#[test]
fn module_that_was_read_is_woven() {
    let input = module(
        &[(vec![ValType::F32], vec![ValType::F32])],
        &[],
        &[(0, vec![Instruction::LocalGet(0), Instruction::LocalGet(0), Instruction::F32Mul, Instruction::End])],
        &[("sq", 0)],
        &[],
    );
    let slab = slab();
    let parsed = ParsedModule::read(&input).unwrap();
    let parsed_slab = ParsedModule::read(&slab).unwrap();
    let output = weave_parsed(&parsed, &parsed_slab).unwrap();
    assert_eq!(output, weave_module(&input, &slab).unwrap());
    assert_eq!(section_ids(&output), section_ids(&input));
    assert_eq!(bodies(&output), bodies(&input));

    let mut short = ParsedModule::read(&input).unwrap();
    short.functions = vec![];
    assert!(matches!(
        weave_parsed(&short, &parsed_slab),
        Err(Failure::InvalidCodeSectionSize)
    ));
    let mut odd = ParsedModule::read(&slab).unwrap();
    odd.start = Some(0);
    assert!(matches!(
        weave_parsed(&parsed, &odd),
        Err(Failure::Read(ReadError::Malformed))
    ));
}

#[test]
fn signature_sections_that_are_passed_over_are_named() {
    let input = module(
        &[(vec![ValType::I32], vec![])],
        &[],
        &[(0, vec![Instruction::End])],
        &[("f", 0)],
        &[
            ("__signature.export.f", tags(&[NONE])),
            ("__signature.export.g", vec![1, 2, 3]),
            ("__signature.other.f", tags(&[NONE])),
            ("__signature.export", tags(&[NONE])),
            ("name", vec![1, 2, 3]),
            ("__signatures", vec![1]),
        ],
    );
    let parsed = ParsedModule::read(&input).unwrap();
    assert_eq!(
        parsed.skipped,
        strings(&["__signature.export.g", "__signature.other.f", "__signature.export"])
    );
    assert_eq!(parsed.signatures.len(), 1);
    assert!(weave_module(&input, &slab()).is_ok());
}

#[test]
fn bytes_are_handed_to_the_validator() {
    let good = Module::new().finish();
    assert_eq!(validated(good.clone()).unwrap(), good);
    match validated(vec![0, 1, 2]) {
        Err(Failure::Validate(error)) => assert!(!error.message.is_empty()),
        other => panic!("wrong outcome: {other:?}"),
    }
}

#[test]
fn module_that_was_read_is_encoded() {
    let input = module(
        &[(vec![ValType::I32], vec![ValType::I32])],
        &[("env", "log", 0)],
        &[(0, vec![Instruction::LocalGet(0), Instruction::Call(0), Instruction::End])],
        &[("f", 1)],
        &[],
    );
    let slab = slab();
    let parsed = ParsedModule::read(&input).unwrap();
    let parsed_slab = ParsedModule::read(&slab).unwrap();
    let bytes = encode_parsed(&parsed, &parsed_slab).unwrap();
    assert_eq!(bytes, weave_parsed(&parsed, &parsed_slab).unwrap());
    assert_eq!(bytes, input);
}

#[test]
fn stub_named_by_a_reference_is_refused() {
    let mut types = TypeSection::new();
    types.ty().function(vec![ValType::I32], vec![]);
    types.ty().function(vec![], vec![]);
    let mut imports = ImportSection::new();
    imports.import("__export_returns", "foo", EntityType::Function(0));
    let mut functions = FunctionSection::new();
    functions.function(1);
    functions.function(1);
    let mut exports = ExportSection::new();
    exports.export("foo", ExportKind::Func, 1);
    exports.export("bar", ExportKind::Func, 2);
    let mut code = CodeSection::new();
    let mut foo = Function::new([]);
    foo.instruction(&Instruction::End);
    code.function(&foo);
    let mut bar = Function::new([]);
    bar.instruction(&Instruction::RefFunc(0));
    bar.instruction(&Instruction::Drop);
    bar.instruction(&Instruction::End);
    code.function(&bar);
    let mut input = Module::new();
    input.section(&types);
    input.section(&imports);
    input.section(&functions);
    input.section(&exports);
    input.section(&code);
    assert!(matches!(
        user_error(weave_module(&input.finish(), &slab())),
        WeaveError::UnexpectedMarkerFunctionCall(_)
    ));
}
