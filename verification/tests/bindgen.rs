use wasm_weaver::bindgen::{
    contains_text, decimal_text, render_entry, write_item, render_items, render_parameters, FormatParameterType,
    FormatResultType, ImportItem, NamedItem, WasmType,
};

fn function(doc: &[&str], parameters: Vec<WasmType>, results: Vec<WasmType>) -> ImportItem {
    ImportItem::Function {
        doc: doc.iter().map(|line| line.to_string()).collect(),
        parameters,
        results,
    }
}

#[test]
fn types_have_their_rust_names() {
    assert_eq!(WasmType::I8.typ(false), Some("i8"));
    assert_eq!(WasmType::I16.typ(false), Some("i16"));
    assert_eq!(WasmType::I32.typ(true), Some("i32"));
    assert_eq!(WasmType::I64.typ(false), Some("i64"));
    assert_eq!(WasmType::F32.typ(false), Some("f32"));
    assert_eq!(WasmType::F64.typ(true), Some("f64"));
    assert_eq!(WasmType::V128.typ(false), Some("core::arch::wasm32::v128"));
    assert_eq!(WasmType::Pointer.typ(false), Some("*const core::ffi::c_void"));
    assert_eq!(WasmType::PointerMut.typ(true), Some("*mut core::ffi::c_void"));
}

#[test]
fn host_reference_is_owned_where_it_is_returned() {
    assert_eq!(WasmType::Externref.typ(true), Some("crate::Extern"));
    assert_eq!(WasmType::Externref.typ(false), Some("crate::ExternRef"));
    assert_eq!(FormatResultType(&WasmType::Externref).text(), Some("crate::Extern"));
    assert_eq!(FormatParameterType(&WasmType::Externref).text(), Some("crate::ExternRef"));
}

#[test]
fn template_has_no_name() {
    assert_eq!(WasmType::TemplateFloat.typ(false), None);
    assert_eq!(WasmType::TemplateFloat.typ(true), None);
    assert_eq!(FormatParameterType(&WasmType::TemplateFloat).text(), None);
}

#[test]
fn instance_takes_the_place_of_the_template() {
    assert_eq!(*WasmType::TemplateFloat.make_instance(&WasmType::F64), WasmType::F64);
    assert_eq!(*WasmType::I32.make_instance(&WasmType::F64), WasmType::I32);
    assert_eq!(*WasmType::F32.make_instance(&WasmType::F64), WasmType::F32);
}

#[test]
fn numbers_are_written_in_decimal() {
    assert_eq!(decimal_text(0), "0");
    assert_eq!(decimal_text(7), "7");
    assert_eq!(decimal_text(10), "10");
    assert_eq!(decimal_text(4096), "4096");
}

#[test]
fn parameters_are_numbered() {
    assert_eq!(render_parameters(&vec![], None), Some(String::new()));
    assert_eq!(
        render_parameters(&vec![WasmType::I32, WasmType::Externref, WasmType::F64], None),
        Some("arg0: i32, arg1: crate::ExternRef, arg2: f64".to_string())
    );
    assert_eq!(render_parameters(&vec![WasmType::I32, WasmType::TemplateFloat], None), None);
}

#[test]
fn function_is_declared() {
    let item = function(&[], vec![WasmType::I32, WasmType::Pointer], vec![WasmType::Externref]);
    assert_eq!(
        write_item("node_get", &item, None),
        Some(
            "        pub fn node_get(arg0: i32, arg1: *const core::ffi::c_void) -> crate::Extern;\n"
                .to_string()
        )
    );
}

#[test]
fn function_without_result_is_declared() {
    let item = function(&[], vec![], vec![]);
    assert_eq!(write_item("tick", &item, None), Some("        pub fn tick();\n".to_string()));
}

#[test]
fn documentation_is_escaped() {
    let item = function(&["Says \"hi\".", "Twice."], vec![], vec![]);
    assert_eq!(
        write_item("greet", &item, None),
        Some(
            "        #[doc = \"Says \\\"hi\\\".\"]\n        #[doc = \"Twice.\"]\n        pub fn greet();\n"
                .to_string()
        )
    );
}

#[test]
fn function_with_several_results_is_left_out() {
    let item = function(&["Two."], vec![WasmType::I32], vec![WasmType::I32, WasmType::I32]);
    assert_eq!(write_item("pair", &item, None), Some(String::new()));
}

#[test]
fn global_is_left_out() {
    let item = ImportItem::Global { doc: vec![], value_type: WasmType::I32 };
    assert_eq!(write_item("g", &item, None), Some(String::new()));
}

#[test]
fn template_without_instance_cannot_be_written() {
    let item = function(&[], vec![WasmType::TemplateFloat], vec![]);
    assert_eq!(write_item("sin", &item, None), None);
    let item = function(&[], vec![], vec![WasmType::TemplateFloat]);
    assert_eq!(write_item("pi", &item, None), None);
}

#[test]
fn template_is_written_for_both_floats() {
    let entry = NamedItem {
        name: "sin_$f".to_string(),
        item: function(&[], vec![WasmType::TemplateFloat], vec![WasmType::TemplateFloat]),
    };
    assert_eq!(
        render_entry(&entry),
        Some(
            "        pub fn sin_f32(arg0: f32) -> f32;\n        pub fn sin_f64(arg0: f64) -> f64;\n"
                .to_string()
        )
    );
}

#[test]
fn items_are_written_in_order() {
    let items = vec![
        NamedItem { name: "a".to_string(), item: function(&[], vec![], vec![]) },
        NamedItem { name: "b".to_string(), item: function(&[], vec![WasmType::I64], vec![]) },
    ];
    assert_eq!(
        render_items(&items),
        Some("        pub fn a();\n        pub fn b(arg0: i64);\n".to_string())
    );
    assert_eq!(render_items(&vec![]), Some(String::new()));
}

#[test]
fn one_item_that_cannot_be_written_spoils_the_list() {
    let items = vec![
        NamedItem { name: "a".to_string(), item: function(&[], vec![], vec![]) },
        NamedItem {
            name: "b".to_string(),
            item: function(&[], vec![WasmType::TemplateFloat], vec![]),
        },
    ];
    assert_eq!(render_items(&items), None);
}

#[test]
fn pattern_is_found_wherever_it_stands() {
    assert!(contains_text("sin_$f", "$f"));
    assert!(contains_text("$f_sin", "$f"));
    assert!(contains_text("a$fb", "$f"));
    assert!(contains_text("$f", "$f"));
    assert!(contains_text("anything", ""));
    assert!(contains_text("", ""));
    assert!(!contains_text("sin_$", "$f"));
    assert!(!contains_text("sin_f$", "$f"));
    assert!(!contains_text("$", "$f"));
    assert!(!contains_text("", "$f"));
    assert!(contains_text("é$f", "$f"));
}
