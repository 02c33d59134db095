use std::collections::HashMap;
use wasm_weaver::body::{
    check_results, instruction, local_index, local_layout, prologue, rewritten_signature,
    LayoutError, Step,
};
use wasm_weaver::encoder::Instr;
use wasm_weaver::error::{DecodeError, ReadError, WeaveError};
use wasm_weaver::parse::{
    collect_exports, collect_functions, collect_spans, collect_types, ParsedModule, Span,
};
use wasm_weaver::reader::{Chunk, ExternKind, ItemKind, OpKind};
use wasm_weaver::indices::Indices;
use wasm_weaver::signature::{signature_key, starts_with, SignatureKey, SignatureTable};
use wasm_weaver::table_slab::{str_eq, TableSlabApi};
use wasm_weaver::types::{bytes_eq, MetaKind, ValueType, ValueTypeMeta};

#[test]
fn tags_are_read_four_bytes_at_a_time() {
    let tags = ValueTypeMeta::cast_from_slice(b"EXRo\0\0\0\0EXRrABCD").unwrap();
    assert_eq!(tags.len(), 4);
    assert_eq!(tags[0].kind(), MetaKind::ExternrefOwned);
    assert_eq!(tags[1].kind(), MetaKind::Plain);
    assert_eq!(tags[2].kind(), MetaKind::ExternrefRef);
    assert_eq!(tags[3].kind(), MetaKind::Unknown);
    assert_eq!(tags[3].tag, *b"ABCD");
    assert_eq!(ValueTypeMeta::cast_from_slice(b"").unwrap().len(), 0);
}

#[test]
fn broken_tag_is_refused() {
    assert!(ValueTypeMeta::cast_from_slice(b"EXR").is_none());
    assert!(ValueTypeMeta::cast_from_slice(b"EXRoE").is_none());
}

#[test]
fn known_tags_are_what_their_names_say() {
    assert_eq!(ValueTypeMeta::none().tag, [0, 0, 0, 0]);
    assert_eq!(ValueTypeMeta::externref_owned().tag, *b"EXRo");
    assert_eq!(ValueTypeMeta::externref_ref().tag, *b"EXRr");
    assert!(ValueTypeMeta::none().same(&ValueTypeMeta { tag: [0; 4] }));
    assert!(!ValueTypeMeta::none().same(&ValueTypeMeta::externref_ref()));
}

#[test]
fn bytes_are_compared() {
    assert!(bytes_eq(b"abc", b"abc"));
    assert!(!bytes_eq(b"abc", b"abd"));
    assert!(!bytes_eq(b"abc", b"ab"));
    assert!(bytes_eq(b"", b""));
}

#[test]
fn section_name_tells_the_function() {
    match signature_key("__signature.export.foo") {
        Some(SignatureKey::Export(name)) => assert_eq!(name, "foo"),
        other => panic!("{other:?}"),
    }
    match signature_key("__signature.import.env.log") {
        Some(SignatureKey::Import(name)) => assert_eq!(name, "env.log"),
        other => panic!("{other:?}"),
    }
    assert!(signature_key("signature.export.foo").is_none());
    assert!(signature_key("__signature.export").is_none());
    assert!(signature_key("name").is_none());
    assert!(starts_with("__signature.export.", "__signature."));
    assert!(!starts_with("__sig", "__signature."));
}

#[test]
fn signatures_are_recorded() {
    let mut table = SignatureTable::new();
    table.record("__signature.export.foo", b"EXRo\0\0\0\0");
    table.record("producers", b"abcd");
    table.record("__signature.export.bar", b"EXR");
    assert_eq!(table.len(), 1);
    let tags = table.get(&SignatureKey::export("foo")).unwrap();
    assert_eq!(tags.len(), 2);
    assert_eq!(tags[0].kind(), MetaKind::ExternrefOwned);
    assert!(table.get(&SignatureKey::export("bar")).is_none());
    assert!(table.get(&SignatureKey::Import("foo".to_string())).is_none());
    table.record("__signature.export.foo", b"EXRr");
    assert_eq!(table.len(), 1);
    let tags = table.get(&SignatureKey::export("foo")).unwrap();
    assert_eq!(tags.len(), 1);
    assert_eq!(tags[0].kind(), MetaKind::ExternrefRef);
}

#[test]
fn host_sees_host_references() {
    let tags = vec![
        ValueTypeMeta::externref_owned(),
        ValueTypeMeta::none(),
        ValueTypeMeta::externref_ref(),
    ];
    let wire = rewritten_signature(
        &vec![ValueType::I32, ValueType::I32],
        &vec![ValueType::I32, ValueType::I64],
        Some(&tags),
    );
    assert_eq!(wire.params(), &vec![ValueType::externref(), ValueType::I32]);
    assert_eq!(wire.results(), &vec![ValueType::externref(), ValueType::I64]);
    let plain = rewritten_signature(&vec![ValueType::F32], &vec![ValueType::F64], None);
    assert_eq!(plain.params(), &vec![ValueType::F32]);
    assert_eq!(plain.results(), &vec![ValueType::F64]);
}

#[test]
fn locals_are_laid_out_behind_the_declared_ones() {
    let tags = vec![
        ValueTypeMeta::externref_owned(),
        ValueTypeMeta::none(),
        ValueTypeMeta::externref_owned(),
        ValueTypeMeta::externref_ref(),
    ];
    let params = vec![ValueType::I32, ValueType::I64, ValueType::I32, ValueType::I32];
    let layout = match local_layout(&params, 2, &tags, 3) {
        Ok(layout) => layout,
        Err(error) => panic!("{error:?}"),
    };
    assert_eq!(layout.map, HashMap::from([(0, 7), (2, 8)]));
    assert_eq!(layout.owned, 2);
    assert_eq!(layout.staging, 9);
    assert_eq!(local_index(&layout.map, 0), 7);
    assert_eq!(local_index(&layout.map, 1), 1);
    assert_eq!(local_index(&layout.map, 2), 8);
    assert_eq!(local_index(&layout.map, 5), 5);
}

#[test]
fn layout_refuses_what_a_tag_cannot_bear() {
    let owned = vec![ValueTypeMeta::externref_owned()];
    match local_layout(&vec![ValueType::F32], 0, &owned, 0) {
        Err(LayoutError::Meta(WeaveError::IncompatibleMetaType(meta, ty))) => {
            assert_eq!(meta.tag, *b"EXRo");
            assert_eq!(ty, ValueType::F32);
        },
        _ => panic!("wrong outcome"),
    }
    let unknown = vec![ValueTypeMeta { tag: *b"WHAT" }];
    assert!(matches!(
        local_layout(&vec![ValueType::I32], 0, &unknown, 0),
        Err(LayoutError::Meta(WeaveError::UnknownMeta(_)))
    ));
    assert!(matches!(
        local_layout(&vec![ValueType::I32], 5, &vec![], u32::MAX - 3),
        Err(LayoutError::TooManyLocals)
    ));
}

#[test]
fn call_of_the_own_stub_leaves_the_function() {
    let map = HashMap::new();
    assert_eq!(instruction(OpKind::Call(4), Some(4), false, 2, &map), Some((Step::Return, 2)));
    assert_eq!(instruction(OpKind::Call(4), Some(4), true, 2, &map), Some((Step::Br(2), 2)));
    assert_eq!(instruction(OpKind::Call(5), Some(4), true, 2, &map), Some((Step::Call(5), 2)));
    assert_eq!(instruction(OpKind::Call(5), None, false, 0, &map), Some((Step::Call(5), 0)));
}

#[test]
fn open_blocks_are_counted() {
    let map = HashMap::from([(0, 9)]);
    for kind in [OpKind::Block, OpKind::Loop, OpKind::If, OpKind::Try, OpKind::TryTable] {
        assert!(kind.is_opener());
        assert_eq!(instruction(kind, None, true, 0, &map), Some((Step::Reencode, 1)));
    }
    assert!(!OpKind::End.is_opener() && !OpKind::Other.is_opener() && !OpKind::Call(0).is_opener());
    assert_eq!(instruction(OpKind::End, None, true, 1, &map), Some((Step::Reencode, 0)));
    assert_eq!(instruction(OpKind::End, None, true, 0, &map), Some((Step::Reencode, 0)));
    assert_eq!(instruction(OpKind::Block, None, true, u32::MAX, &map), None);
    assert_eq!(instruction(OpKind::LocalGet(0), None, true, 3, &map), Some((Step::LocalGet(9), 3)));
    assert_eq!(instruction(OpKind::LocalSet(1), None, true, 3, &map), Some((Step::LocalSet(1), 3)));
    assert_eq!(instruction(OpKind::LocalTee(0), None, true, 3, &map), Some((Step::LocalTee(9), 3)));
    assert_eq!(instruction(OpKind::Other, None, true, 3, &map), Some((Step::Reencode, 3)));
}

#[test]
fn slab_offers_its_functions() {
    let api = TableSlabApi { alloc_fn: 4, free_fn: 5, take_fn: 6, items_table: 2 };
    assert_eq!(format!("{:?}", api.alloc_extern()), "Call(4)");
    assert_eq!(format!("{:?}", api.free()), "Call(5)");
    assert_eq!(format!("{:?}", api.take_extern()), "Call(6)");
    assert_eq!(format!("{:?}", api.get_extern()), "[TableGet(2), ExternConvertAny]");
}

#[test]
fn slab_binds_the_import_of_its_free() {
    let api = TableSlabApi { alloc_fn: 0, free_fn: 1, take_fn: 2, items_table: 0 };
    let mut indices = Indices::new();
    indices.funcs.reserve_many(3);
    indices.tables.reserve();
    assert!(api.map_import(&mut indices, 7, true, "free").is_ok());
    assert_eq!(indices.funcs.map(7), Some(1));
    assert_eq!(indices.funcs.reserved(), 3);
    match api.map_import(&mut indices, 8, true, "alloc") {
        Err(WeaveError::ImportNotFound(name)) => assert_eq!(name, "alloc"),
        _ => panic!("wrong outcome"),
    }
    match api.map_import(&mut indices, 8, false, "free") {
        Err(WeaveError::ImportNotFound(name)) => assert_eq!(name, "free"),
        _ => panic!("wrong outcome"),
    }
    assert_eq!(indices.funcs.map(8), None);
}

#[test]
fn strings_are_compared() {
    assert!(str_eq("free", "free"));
    assert!(!str_eq("free", "fre"));
    assert!(!str_eq("free", "tree"));
    assert!(str_eq("", ""));
}

#[test]
fn numbers_of_a_function_section_are_read() {
    assert_eq!(collect_functions(&[2, 0, 5], 0, 3).unwrap(), vec![0, 5]);
    assert_eq!(collect_functions(&[9, 1, 0x80, 0x01], 1, 4).unwrap(), vec![128]);
    assert_eq!(collect_functions(&[0], 0, 1).unwrap(), Vec::<u32>::new());
    assert!(matches!(collect_functions(&[1, 0, 9], 0, 3), Err(ReadError::Malformed)));
    assert!(matches!(collect_functions(&[2, 0], 0, 2), Err(ReadError::Decode(_))));
    assert!(matches!(collect_functions(&[], 0, 0), Err(ReadError::Decode(_))));
}

#[test]
fn entries_that_are_handed_on_are_measured() {
    let memories = [2, 0x00, 0x01, 0x01, 0x01, 0x02];
    assert_eq!(
        collect_spans(ItemKind::Memory, &memories, 0, 6).unwrap(),
        vec![Span { start: 1, end: 3 }, Span { start: 3, end: 6 }]
    );
    let globals = [1, 0x7f, 0x00, 0x41, 0x07, 0x0b];
    assert_eq!(
        collect_spans(ItemKind::Global, &globals, 0, 6).unwrap(),
        vec![Span { start: 1, end: 6 }]
    );
    assert!(matches!(
        collect_spans(ItemKind::Memory, &memories, 0, 5),
        Err(ReadError::Decode(_))
    ));
    assert!(matches!(
        collect_spans(ItemKind::Memory, &[1, 0x00, 0x01, 0x00], 0, 4),
        Err(ReadError::Malformed)
    ));
}

#[test]
fn exports_are_read() {
    let bytes = [2, 1, b'f', 0x00, 3, 3, b'm', b'e', b'm', 0x02, 0];
    let exports = collect_exports(&bytes, 0, bytes.len()).unwrap();
    assert_eq!(exports.len(), 2);
    assert_eq!(exports[0].name, "f");
    assert_eq!(exports[0].kind, ExternKind::Func);
    assert_eq!(exports[0].index, 3);
    assert_eq!(exports[1].name, "mem");
    assert_eq!(exports[1].kind, ExternKind::Memory);
    assert_eq!(exports[1].index, 0);
    assert!(matches!(collect_exports(&bytes, 0, 5), Err(ReadError::Decode(_))));
    assert!(matches!(
        collect_exports(&[1, 1, b'f', 0x00, 3, 0], 0, 6),
        Err(ReadError::Malformed)
    ));
}

#[test]
fn types_are_read() {
    let bytes = [2, 0x60, 1, 0x7f, 0, 0x4e, 2, 0x60, 0, 1, 0x7e, 0x5f, 0];
    let groups = collect_types(&bytes, 0, bytes.len()).unwrap();
    assert_eq!(groups.len(), 2);
    assert!(!groups[0].explicit);
    assert_eq!(groups[0].span, Span { start: 1, end: 5 });
    assert_eq!(groups[0].types.len(), 1);
    let first = groups[0].types[0].func.as_ref().unwrap();
    assert_eq!(first.params(), &vec![ValueType::I32]);
    assert_eq!(first.results(), &Vec::<ValueType>::new());
    assert!(groups[1].explicit);
    assert_eq!(groups[1].span, Span { start: 5, end: 13 });
    assert_eq!(groups[1].types.len(), 2);
    let second = groups[1].types[0].func.as_ref().unwrap();
    assert_eq!(second.results(), &vec![ValueType::I64]);
    assert!(groups[1].types[1].func.is_none());
}

#[test]
fn result_tags_are_checked() {
    let metas = vec![
        ValueTypeMeta::none(),
        ValueTypeMeta::externref_owned(),
        ValueTypeMeta::externref_ref(),
    ];
    let slots = vec![ValueType::I32, ValueType::I32];
    assert!(check_results(&slots, 1, &metas).is_ok());
    let mixed = vec![ValueType::I32, ValueType::I64];
    match check_results(&mixed, 1, &metas) {
        Err(WeaveError::IncompatibleMetaType(meta, ty)) => {
            assert_eq!(meta.tag, *b"EXRr");
            assert_eq!(ty, ValueType::I64);
        },
        other => panic!("{other:?}"),
    }
    let owned = vec![ValueTypeMeta::externref_owned(), ValueTypeMeta { tag: *b"ABCD" }];
    match check_results(&vec![ValueType::F32, ValueType::I32], 0, &owned) {
        Err(WeaveError::IncompatibleMetaType(meta, ty)) => {
            assert_eq!(meta.tag, *b"EXRo");
            assert_eq!(ty, ValueType::F32);
        },
        other => panic!("{other:?}"),
    }
    match check_results(&slots, 0, &owned) {
        Err(WeaveError::UnknownMeta(meta)) => assert_eq!(meta.tag, *b"ABCD"),
        other => panic!("{other:?}"),
    }
    assert!(check_results(&mixed, 5, &metas).is_ok());
    assert!(check_results(&vec![], 0, &owned).is_ok());
}

#[test]
fn module_is_put_together_from_its_chunks() {
    let data = [0x00, 0x61, 0x73, 0x6d, 0x01, 0x00, 0x00, 0x00, 0x03, 0x02, 0x01, 0x00, 0x08, 0x01, 0x05];
    let chunks = vec![
        Ok(Chunk::Version { module: true }),
        Ok(Chunk::Section { id: 3, start: 10, end: 12 }),
        Ok(Chunk::Section { id: 8, start: 14, end: 15 }),
        Ok(Chunk::CodeStart { count: 2 }),
        Ok(Chunk::CodeEntry { start: 1, end: 3 }),
        Ok(Chunk::CodeEntry { start: 3, end: 8 }),
        Ok(Chunk::End),
        Ok(Chunk::Other),
    ];
    let module = ParsedModule::assemble(&data, &chunks).unwrap();
    assert_eq!(module.functions, vec![0]);
    assert_eq!(module.start, Some(5));
    assert_eq!(module.code, vec![Span { start: 1, end: 3 }, Span { start: 3, end: 8 }]);
    assert_eq!(module.types.len(), 0);
    assert_eq!(module.exports.len(), 0);
}

#[test]
fn later_section_replaces_the_earlier_one() {
    let data = [0x02, 0x07, 0x09, 0x01, 0x04];
    let chunks = vec![
        Ok(Chunk::Section { id: 3, start: 0, end: 3 }),
        Ok(Chunk::Section { id: 3, start: 3, end: 5 }),
        Ok(Chunk::End),
    ];
    let module = ParsedModule::assemble(&data, &chunks).unwrap();
    assert_eq!(module.functions, vec![4]);
}

#[test]
fn module_of_nothing_is_put_together() {
    let chunks = vec![Ok(Chunk::Version { module: true }), Ok(Chunk::End)];
    let module = ParsedModule::assemble(&[], &chunks).unwrap();
    assert_eq!(module.types.len() + module.imports.len() + module.functions.len(), 0);
    assert_eq!(module.code.len() + module.exports.len() + module.tables.len(), 0);
    assert_eq!((module.start, module.data_count), (None, None));
    assert_eq!(module.signatures.len(), 0);
}

#[test]
fn chunks_that_cannot_be_taken_in_are_refused() {
    let data = [0x01, 0x00];
    let refused = |chunks: Vec<Result<Chunk, DecodeError>>| match ParsedModule::assemble(&data, &chunks) {
        Ok(_) => panic!("taken in"),
        Err(error) => error,
    };
    assert!(matches!(refused(vec![]), ReadError::Malformed));
    assert!(matches!(refused(vec![Ok(Chunk::Version { module: true })]), ReadError::Malformed));
    assert!(matches!(
        refused(vec![Ok(Chunk::Version { module: false }), Ok(Chunk::End)]),
        ReadError::NotAModule
    ));
    assert!(matches!(refused(vec![Ok(Chunk::Other), Ok(Chunk::End)]), ReadError::Malformed));
    assert!(matches!(
        refused(vec![Ok(Chunk::Section { id: 3, start: 1, end: 3 }), Ok(Chunk::End)]),
        ReadError::Malformed
    ));
    assert!(matches!(
        refused(vec![Ok(Chunk::Section { id: 10, start: 0, end: 2 }), Ok(Chunk::End)]),
        ReadError::UnknownSection(10)
    ));
    assert!(matches!(
        refused(vec![Ok(Chunk::Section { id: 14, start: 0, end: 2 }), Ok(Chunk::End)]),
        ReadError::UnknownSection(14)
    ));
    assert!(matches!(
        refused(vec![Ok(Chunk::Section { id: 3, start: 0, end: 1 }), Ok(Chunk::End)]),
        ReadError::Decode(_)
    ));
    assert!(matches!(
        refused(vec![Ok(Chunk::CodeStart { count: 1 }), Ok(Chunk::CodeEntry { start: 0, end: 9 })]),
        ReadError::Malformed
    ));
    let fault = DecodeError { message: "broken".to_string(), offset: 7 };
    match refused(vec![Ok(Chunk::Version { module: true }), Err(fault), Ok(Chunk::End)]) {
        ReadError::Decode(found) => assert_eq!((found.message.as_str(), found.offset), ("broken", 7)),
        other => panic!("{other:?}"),
    }
}

#[test]
fn bodies_that_nobody_announced_are_passed_over() {
    let data = [0u8; 4];
    let chunks = vec![
        Ok(Chunk::CodeStart { count: 0 }),
        Ok(Chunk::CodeEntry { start: 0, end: 9 }),
        Ok(Chunk::CodeStart { count: 2 }),
        Ok(Chunk::CodeEntry { start: 0, end: 1 }),
        Ok(Chunk::End),
    ];
    let module = ParsedModule::assemble(&data, &chunks).unwrap();
    assert_eq!(module.code.len(), 0);
}

#[test]
fn prologue_puts_owned_parameters_into_slots() {
    let map = HashMap::from([(0, 7), (2, 8)]);
    let mut out = vec![Instr::End];
    prologue(&mut out, &map, 4, 3);
    let text = format!("{out:?}");
    let expected = vec![
        Instr::End,
        Instr::LocalGet(0),
        Instr::Call(4),
        Instr::LocalSet(7),
        Instr::LocalGet(2),
        Instr::Call(4),
        Instr::LocalSet(8),
    ];
    assert_eq!(text, format!("{expected:?}"));
    let mut short = Vec::new();
    prologue(&mut short, &map, 4, 1);
    assert_eq!(short.len(), 3);
}
