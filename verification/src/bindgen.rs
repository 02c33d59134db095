//! Declarations of the imports that a host offers, rendered as Rust
//! source for the guest.

use vstd::prelude::*;
use vstd::string::*;

verus! {

/// The type of a parameter or a result of an import.
#[derive(Clone, Copy, Debug, PartialEq, Eq, Structural)]
pub enum WasmType {
    I8,
    I16,
    I32,
    I64,
    F32,
    F64,
    V128,
    Externref,
    /// Stands for each of the two float types in turn.
    TemplateFloat,
    Pointer,
    PointerMut,
}

impl WasmType {
    /// The type with `instance` in place of the template.
    pub open spec fn instance_of(self, instance: WasmType) -> WasmType {
        if self == WasmType::TemplateFloat {
            instance
        } else {
            self
        }
    }

    /// The type with `instance` in place of the template.
    pub fn make_instance<'a>(&'a self, instance: &'a WasmType) -> (r: &'a WasmType)
        ensures
            *r == self.instance_of(*instance),
    {
        match self {
            WasmType::TemplateFloat => instance,
            other => other,
        }
    }

    /// How the type is written in Rust. A host reference is owned where it
    /// is returned and borrowed where it is passed. The template has no
    /// name.
    pub open spec fn type_text(self, is_return: bool) -> Option<Seq<char>> {
        match self {
            WasmType::I8 => Some("i8"@),
            WasmType::I16 => Some("i16"@),
            WasmType::I32 => Some("i32"@),
            WasmType::I64 => Some("i64"@),
            WasmType::F32 => Some("f32"@),
            WasmType::F64 => Some("f64"@),
            WasmType::V128 => Some("core::arch::wasm32::v128"@),
            WasmType::Externref => if is_return {
                Some("crate::Extern"@)
            } else {
                Some("crate::ExternRef"@)
            },
            WasmType::Pointer => Some("*const core::ffi::c_void"@),
            WasmType::PointerMut => Some("*mut core::ffi::c_void"@),
            WasmType::TemplateFloat => None,
        }
    }

    /// How the type is written in Rust, see [`WasmType::type_text`].
    pub fn typ(&self, is_return: bool) -> (r: Option<&'static str>)
        ensures
            match r {
                Some(text) => self.type_text(is_return) == Some(text@),
                None => self.type_text(is_return) is None,
            },
    {
        match self {
            WasmType::I8 => Some("i8"),
            WasmType::I16 => Some("i16"),
            WasmType::I32 => Some("i32"),
            WasmType::I64 => Some("i64"),
            WasmType::F32 => Some("f32"),
            WasmType::F64 => Some("f64"),
            WasmType::V128 => Some("core::arch::wasm32::v128"),
            WasmType::Externref => {
                if is_return {
                    Some("crate::Extern")
                } else {
                    Some("crate::ExternRef")
                }
            },
            WasmType::Pointer => Some("*const core::ffi::c_void"),
            WasmType::PointerMut => Some("*mut core::ffi::c_void"),
            WasmType::TemplateFloat => None,
        }
    }
}

/// A type as it is written for a parameter.
pub struct FormatParameterType<'a>(pub &'a WasmType);

impl<'a> FormatParameterType<'a> {
    /// The text of the type, if it has a name.
    pub fn text(&self) -> (r: Option<&'static str>)
        ensures
            match r {
                Some(text) => self.0.type_text(false) == Some(text@),
                None => self.0.type_text(false) is None,
            },
    {
        self.0.typ(false)
    }
}

/// A type as it is written for a result.
pub struct FormatResultType<'a>(pub &'a WasmType);

impl<'a> FormatResultType<'a> {
    /// The text of the type, if it has a name.
    pub fn text(&self) -> (r: Option<&'static str>)
        ensures
            match r {
                Some(text) => self.0.type_text(true) == Some(text@),
                None => self.0.type_text(true) is None,
            },
    {
        self.0.typ(true)
    }
}

/// An import that a host offers.
#[derive(Debug)]
pub enum ImportItem {
    Function { doc: Vec<String>, parameters: Vec<WasmType>, results: Vec<WasmType> },
    Global { doc: Vec<String>, value_type: WasmType },
}

/// An import with its name.
#[derive(Debug)]
pub struct NamedItem {
    pub name: String,
    pub item: ImportItem,
}

/// What `str::escape_default` makes of a text.
pub uninterp spec fn escaped(text: Seq<char>) -> Seq<char>;

/// `str::escape_default`, collected into a string: the text with every
/// character escaped as `char::escape_default` says.
#[verifier::external_body]
fn escape(text: &str) -> (r: String)
    ensures
        r@ == escaped(text@),
{
    text.escape_default().to_string()
}

/// Whether the pattern stands somewhere in a text.
pub open spec fn holds_text(text: Seq<char>, pattern: Seq<char>) -> bool {
    exists|i: int|
        0 <= i && i + pattern.len() <= text.len() && #[trigger] text.subrange(i, i + pattern.len())
            == pattern
}

/// Whether the pattern stands in a text at the place `at`.
fn stands_at(text: &str, pattern: &str, at: usize) -> (r: bool)
    requires
        at + pattern@.len() <= text@.len(),
    ensures
        r == (text@.subrange(at as int, at + pattern@.len()) == pattern@),
{
    let n: usize = pattern.unicode_len();
    let total: usize = text.unicode_len();
    let ghost part = text@.subrange(at as int, at + n);
    let mut i: usize = 0;
    while i < n
        invariant
            n == pattern@.len(),
            total == text@.len(),
            at + n <= total,
            i <= n,
            part == text@.subrange(at as int, at + n),
            part.subrange(0, i as int) == pattern@.subrange(0, i as int),
        decreases n - i,
    {
        if text.get_char(at + i) != pattern.get_char(i) {
            assert(part[i as int] != pattern@[i as int]);
            return false;
        }
        assert(part.subrange(0, i + 1) == part.subrange(0, i as int).push(part[i as int]));
        assert(pattern@.subrange(0, i + 1) == pattern@.subrange(0, i as int).push(
            pattern@[i as int],
        ));
        i = i + 1;
    }
    assert(pattern@.subrange(0, n as int) == pattern@);
    assert(part.subrange(0, n as int) == part);
    true
}

/// Whether the pattern stands somewhere in the text.
pub fn contains_text(text: &str, pattern: &str) -> (r: bool)
    ensures
        r == holds_text(text@, pattern@),
{
    let n: usize = text.unicode_len();
    let m: usize = pattern.unicode_len();
    if m > n {
        return false;
    }
    let mut i: usize = 0;
    while i < n - m
        invariant
            n == text@.len(),
            m == pattern@.len(),
            m <= n,
            i <= n - m,
            forall|k: int| 0 <= k < i ==> #[trigger] text@.subrange(k, k + m) != pattern@,
        decreases n - m - i,
    {
        if stands_at(text, pattern, i) {
            return true;
        }
        i = i + 1;
    }
    stands_at(text, pattern, i)
}

/// What `str::replace` makes of a text.
pub uninterp spec fn replaced(text: Seq<char>, from: Seq<char>, to: Seq<char>) -> Seq<char>;

/// `str::replace` with a string for a pattern: the text with every match
/// of `from` replaced by `to`.
#[verifier::external_body]
fn replace_text(text: &str, from: &str, to: &str) -> (r: String)
    ensures
        r@ == replaced(text@, from@, to@),
{
    text.replace(from, to)
}

/// The decimal digit for a number below ten.
pub open spec fn digit(d: nat) -> char {
    if d == 0 {
        '0'
    } else if d == 1 {
        '1'
    } else if d == 2 {
        '2'
    } else if d == 3 {
        '3'
    } else if d == 4 {
        '4'
    } else if d == 5 {
        '5'
    } else if d == 6 {
        '6'
    } else if d == 7 {
        '7'
    } else if d == 8 {
        '8'
    } else {
        '9'
    }
}

/// A number in decimal digits.
pub open spec fn decimal(n: nat) -> Seq<char>
    decreases n,
{
    if n < 10 {
        seq![digit(n)]
    } else {
        decimal(n / 10) + seq![digit(n % 10)]
    }
}

/// The decimal digit for a number below ten.
pub fn digit_text(d: usize) -> (r: &'static str)
    requires
        d < 10,
    ensures
        r@ == seq![digit(d as nat)],
{
    proof {
        reveal_strlit("0");
        reveal_strlit("1");
        reveal_strlit("2");
        reveal_strlit("3");
        reveal_strlit("4");
        reveal_strlit("5");
        reveal_strlit("6");
        reveal_strlit("7");
        reveal_strlit("8");
        reveal_strlit("9");
    }
    let r = if d == 0 {
        "0"
    } else if d == 1 {
        "1"
    } else if d == 2 {
        "2"
    } else if d == 3 {
        "3"
    } else if d == 4 {
        "4"
    } else if d == 5 {
        "5"
    } else if d == 6 {
        "6"
    } else if d == 7 {
        "7"
    } else if d == 8 {
        "8"
    } else {
        "9"
    };
    assert(r@ =~= seq![digit(d as nat)]);
    r
}

/// A number in decimal digits.
pub fn decimal_text(n: usize) -> (r: String)
    ensures
        r@ == decimal(n as nat),
    decreases n,
{
    if n < 10 {
        String::from_str(digit_text(n))
    } else {
        let mut out = decimal_text(n / 10);
        out.append(digit_text(n % 10));
        out
    }
}

/// The type that stands at a place of a declaration, with the instance in
/// place of the template where there is one.
pub open spec fn resolved(ty: WasmType, instance: Option<WasmType>) -> WasmType {
    match instance {
        Some(i) => ty.instance_of(i),
        None => ty,
    }
}

/// What separates a parameter from the one before it.
pub open spec fn separator(i: int) -> Seq<char> {
    if i == 0 {
        Seq::empty()
    } else {
        ", "@
    }
}

/// The first `count` parameters of a declaration: `arg0: T0, arg1: T1`
/// and so on. There is no such text where one of the types has no name.
pub open spec fn parameters_text(
    parameters: Seq<WasmType>,
    instance: Option<WasmType>,
    count: int,
) -> Option<Seq<char>>
    decreases count,
{
    if count <= 0 {
        Some(Seq::empty())
    } else {
        match (
            parameters_text(parameters, instance, count - 1),
            resolved(parameters[count - 1], instance).type_text(false),
        ) {
            (Some(before), Some(ty)) => Some(
                before + separator(count - 1) + "arg"@ + decimal((count - 1) as nat) + ": "@ + ty,
            ),
            _ => None,
        }
    }
}

/// The first `count` lines of documentation, each as an attribute.
pub open spec fn doc_text(doc: Seq<String>, count: int) -> Seq<char>
    decreases count,
{
    if count <= 0 {
        Seq::empty()
    } else {
        doc_text(doc, count - 1) + "        #[doc = \""@ + escaped(doc[count - 1]@) + "\"]\n"@
    }
}

/// The declaration of a function: its documentation, its name, its
/// parameters and its result, if it has one. There is no such text where
/// one of the types has no name.
pub open spec fn function_text(
    name: Seq<char>,
    doc: Seq<String>,
    parameters: Seq<WasmType>,
    results: Seq<WasmType>,
    instance: Option<WasmType>,
) -> Option<Seq<char>> {
    match parameters_text(parameters, instance, parameters.len() as int) {
        Some(list) => {
            let head = doc_text(doc, doc.len() as int) + "        pub fn "@ + name + "("@ + list
                + ")"@;
            if results.len() == 0 {
                Some(head + ";\n"@)
            } else {
                match resolved(results[0], instance).type_text(true) {
                    Some(ty) => Some(head + " -> "@ + ty + ";\n"@),
                    None => None,
                }
            }
        },
        None => None,
    }
}

/// What is written for an import: the declaration of a function with at
/// most one result, and nothing for a function with more results or for
/// a global.
pub open spec fn item_text(name: Seq<char>, item: &ImportItem, instance: Option<WasmType>) -> Option<
    Seq<char>,
> {
    match item {
        ImportItem::Function { doc, parameters, results } => if results@.len() > 1 {
            Some(Seq::empty())
        } else {
            function_text(name, doc@, parameters@, results@, instance)
        },
        ImportItem::Global { .. } => Some(Seq::empty()),
    }
}

/// The type at a place of a declaration.
pub fn resolve(ty: &WasmType, instance: Option<WasmType>) -> (r: WasmType)
    ensures
        r == resolved(*ty, instance),
{
    match instance {
        Some(i) => *ty.make_instance(&i),
        None => *ty,
    }
}

/// The parameters of a declaration, see [`parameters_text`].
pub fn render_parameters(parameters: &Vec<WasmType>, instance: Option<WasmType>) -> (r: Option<
    String,
>)
    ensures
        match r {
            Some(text) => parameters_text(parameters@, instance, parameters@.len() as int) == Some(
                text@,
            ),
            None => parameters_text(parameters@, instance, parameters@.len() as int) is None,
        },
{
    let mut out = String::new();
    let mut i: usize = 0;
    while i < parameters.len()
        invariant
            i <= parameters@.len(),
            parameters_text(parameters@, instance, i as int) == Some(out@),
        decreases parameters@.len() - i,
    {
        let ty = resolve(&parameters[i], instance);
        let text = match FormatParameterType(&ty).text() {
            Some(text) => text,
            None => {
                proof {
                    lemma_parameters_fail(parameters@, instance, i + 1, parameters@.len() as int);
                }
                return None;
            },
        };
        if i != 0 {
            out.append(", ");
        }
        out.append("arg");
        out.append(decimal_text(i).as_str());
        out.append(": ");
        out.append(text);
        i = i + 1;
    }
    Some(out)
}

/// Once a type has no name, no longer list of parameters has a text.
pub proof fn lemma_parameters_fail(
    parameters: Seq<WasmType>,
    instance: Option<WasmType>,
    failed: int,
    count: int,
)
    requires
        0 <= failed <= count,
        parameters_text(parameters, instance, failed) is None,
    ensures
        parameters_text(parameters, instance, count) is None,
    decreases count - failed,
{
    if failed < count {
        lemma_parameters_fail(parameters, instance, failed, count - 1);
    }
}

/// The documentation of a declaration, see [`doc_text`].
pub fn render_doc(doc: &Vec<String>) -> (r: String)
    ensures
        r@ == doc_text(doc@, doc@.len() as int),
{
    let mut out = String::new();
    let mut i: usize = 0;
    while i < doc.len()
        invariant
            i <= doc@.len(),
            out@ == doc_text(doc@, i as int),
        decreases doc@.len() - i,
    {
        out.append("        #[doc = \"");
        out.append(escape(doc[i].as_str()).as_str());
        out.append("\"]\n");
        i = i + 1;
    }
    out
}

/// What is written for an import, see [`item_text`]; nothing at all where
/// a type of the declaration has no name.
pub fn write_item(name: &str, item: &ImportItem, instance: Option<WasmType>) -> (r: Option<String>)
    ensures
        match r {
            Some(text) => item_text(name@, item, instance) == Some(text@),
            None => item_text(name@, item, instance) is None,
        },
{
    match item {
        ImportItem::Function { doc, parameters, results } => {
            if results.len() > 1 {
                return Some(String::new());
            }
            let list = match render_parameters(parameters, instance) {
                Some(list) => list,
                None => {
                    return None;
                },
            };
            let mut out = render_doc(doc);
            out.append("        pub fn ");
            out.append(name);
            out.append("(");
            out.append(list.as_str());
            out.append(")");
            if results.len() == 1 {
                let ty = resolve(&results[0], instance);
                match FormatResultType(&ty).text() {
                    Some(text) => {
                        out.append(" -> ");
                        out.append(text);
                    },
                    None => {
                        return None;
                    },
                }
            }
            out.append(";\n");
            Some(out)
        },
        ImportItem::Global { .. } => Some(String::new()),
    }
}

/// What is written for an import under its name. An import whose name
/// holds `$f` is a template: it is written twice, for `f32` and for
/// `f64`, each time with the type in place of `$f` in the name and in
/// place of the template among the types.
pub open spec fn entry_text(entry: &NamedItem) -> Option<Seq<char>> {
    if holds_text(entry.name@, "$f"@) {
        match (
            item_text(replaced(entry.name@, "$f"@, "f32"@), &entry.item, Some(WasmType::F32)),
            item_text(replaced(entry.name@, "$f"@, "f64"@), &entry.item, Some(WasmType::F64)),
        ) {
            (Some(single), Some(double)) => Some(single + double),
            _ => None,
        }
    } else {
        item_text(entry.name@, &entry.item, None)
    }
}

/// What is written for the first `count` imports of a list.
pub open spec fn entries_text(items: Seq<NamedItem>, count: int) -> Option<Seq<char>>
    decreases count,
{
    if count <= 0 {
        Some(Seq::empty())
    } else {
        match (entries_text(items, count - 1), entry_text(&items[count - 1])) {
            (Some(before), Some(entry)) => Some(before + entry),
            _ => None,
        }
    }
}

/// Once an import cannot be written, no longer list can.
pub proof fn lemma_entries_fail(items: Seq<NamedItem>, failed: int, count: int)
    requires
        0 <= failed <= count,
        entries_text(items, failed) is None,
    ensures
        entries_text(items, count) is None,
    decreases count - failed,
{
    if failed < count {
        lemma_entries_fail(items, failed, count - 1);
    }
}

/// What is written for an import under its name, see [`entry_text`].
pub fn render_entry(entry: &NamedItem) -> (r: Option<String>)
    ensures
        match r {
            Some(text) => entry_text(entry) == Some(text@),
            None => entry_text(entry) is None,
        },
{
    if contains_text(entry.name.as_str(), "$f") {
        let single = replace_text(entry.name.as_str(), "$f", "f32");
        let double = replace_text(entry.name.as_str(), "$f", "f64");
        let first = write_item(single.as_str(), &entry.item, Some(WasmType::F32));
        let second = write_item(double.as_str(), &entry.item, Some(WasmType::F64));
        match (first, second) {
            (Some(mut out), Some(second)) => {
                out.append(second.as_str());
                Some(out)
            },
            _ => None,
        }
    } else {
        write_item(entry.name.as_str(), &entry.item, None)
    }
}

/// What is written for the imports of a namespace, in the order of the
/// list; nothing at all where one of them cannot be written.
pub fn render_items(items: &Vec<NamedItem>) -> (r: Option<String>)
    ensures
        match r {
            Some(text) => entries_text(items@, items@.len() as int) == Some(text@),
            None => entries_text(items@, items@.len() as int) is None,
        },
{
    let mut out = String::new();
    let mut i: usize = 0;
    while i < items.len()
        invariant
            i <= items@.len(),
            entries_text(items@, i as int) == Some(out@),
        decreases items@.len() - i,
    {
        match render_entry(&items[i]) {
            Some(text) => {
                out.append(text.as_str());
            },
            None => {
                proof {
                    lemma_entries_fail(items@, i + 1, items@.len() as int);
                }
                return None;
            },
        }
        i = i + 1;
    }
    Some(out)
}

} // verus!
