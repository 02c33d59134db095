//! The calls into the binary reader `wasmparser`.
//!
//! Each function hands a range of the input to the reader and turns what
//! comes back into the library's own values, one for one. The readers of
//! numbers, of entries, of exports, of recursion groups and of the locals
//! of a body name what they find, the reader of instructions says how much
//! it has left, and the validator names its verdict. None of the others
//! promises anything about its result, and every position and range that
//! comes back is checked by its caller before it is used.

use crate::encoder::roundtrip_failure;
use crate::error::{DecodeError, Failure};
use crate::types::{AbstractHeap, FuncType, HeapKind, RefType, ValueType};
use vstd::prelude::*;
use wasmparser::Operator;

verus! {

#[verifier::external_type_specification]
#[verifier::external_body]
pub struct ExReaderError(wasmparser::Error);

#[verifier::external_type_specification]
#[verifier::external_body]
pub struct ExOperatorsReader<'a>(wasmparser::OperatorsReader<'a>);

#[verifier::external_type_specification]
#[verifier::external_body]
pub struct ExOperator<'a>(wasmparser::Operator<'a>);

#[verifier::external_type_specification]
#[verifier::external_body]
pub struct ExPayload<'a>(wasmparser::Payload<'a>);

#[verifier::external_type_specification]
#[verifier::external_body]
pub struct ExParsedValType(wasmparser::ValType);

#[verifier::external_type_specification]
#[verifier::external_body]
pub struct ExParsedHeapType(wasmparser::HeapType);

#[verifier::external_type_specification]
#[verifier::external_body]
pub struct ExParsedAbstractHeapType(wasmparser::AbstractHeapType);

#[verifier::external_type_specification]
#[verifier::external_body]
pub struct ExParsedSubType(wasmparser::SubType);

#[verifier::external_type_specification]
#[verifier::external_body]
pub struct ExParsedExternalKind(wasmparser::ExternalKind);

#[verifier::external_type_specification]
#[verifier::external_body]
pub struct ExParsedTypeRef(wasmparser::TypeRef);

/// One step of the section parser.
#[derive(Debug)]
pub enum Chunk {
    /// The header; `module` tells a core module from a component.
    Version { module: bool },
    /// A whole section with its identifier and the range of its contents.
    Section { id: u8, start: u64, end: u64 },
    /// The head of the code section, which announces `count` bodies.
    CodeStart { count: u32 },
    /// One function body and its range.
    CodeEntry { start: u64, end: u64 },
    /// The end of the module.
    End,
    /// Anything else.
    Other,
}

/// The kind of an imported or exported item.
#[derive(Clone, Copy, Debug, PartialEq, Eq, Structural)]
pub enum ExternKind {
    Func,
    Table,
    Memory,
    Global,
    Tag,
    FuncExact,
}

/// An import as the reader found it.
#[derive(Debug)]
pub struct RawImport {
    pub module: String,
    pub name: String,
    pub kind: ExternKind,
    /// The index of the function type, for a function import.
    pub type_index: Option<u32>,
    /// The encoded type of the imported item.
    pub entity: Vec<u8>,
}

/// An export as the reader found it.
#[derive(Debug)]
pub struct RawExport {
    pub name: String,
    pub kind: ExternKind,
    pub index: u32,
}

/// What the weaver needs to know of one instruction.
#[derive(Clone, Copy, Debug, PartialEq, Eq, Structural)]
pub enum OpKind {
    Call(u32),
    LocalGet(u32),
    LocalSet(u32),
    LocalTee(u32),
    End,
    Block,
    Loop,
    If,
    Try,
    TryTable,
    Other,
}

impl OpKind {
    /// Whether the instruction opens a block that a later `end` closes.
    pub open spec fn opens_block(self) -> bool {
        self is Block || self is Loop || self is If || self is Try || self is TryTable
    }

    pub fn is_opener(&self) -> (r: bool)
        ensures
            r == self.opens_block(),
    {
        match self {
            OpKind::Block | OpKind::Loop | OpKind::If | OpKind::Try | OpKind::TryTable => true,
            _ => false,
        }
    }
}

/// `wasmparser::Error::message` and `wasmparser::Error::offset`: the two
/// parts of a reader error.
#[verifier::external_body]
pub(crate) fn decode_error_from(e: wasmparser::Error) -> (r: DecodeError) {
    DecodeError { message: e.message().to_string(), offset: e.offset() }
}

/// `wasmparser::Payload::as_section` and the variants of `Payload` that
/// stand for no whole section.
#[verifier::external_body]
fn chunk_from(payload: &wasmparser::Payload) -> (r: Chunk) {
    match payload {
        wasmparser::Payload::Version { encoding, .. } => Chunk::Version {
            module: matches!(encoding, wasmparser::Encoding::Module),
        },
        wasmparser::Payload::CodeSectionStart { count, .. } => Chunk::CodeStart { count: *count },
        wasmparser::Payload::CodeSectionEntry(body) => Chunk::CodeEntry {
            start: body.range().start,
            end: body.range().end,
        },
        wasmparser::Payload::End(_) => Chunk::End,
        other => match other.as_section() {
            Some((id, range)) => Chunk::Section { id, start: range.start, end: range.end },
            None => Chunk::Other,
        },
    }
}

/// What `wasmparser::Parser::parse_all` cuts an input into, chunk by
/// chunk: the header, the sections, the head and the bodies of the code
/// section and the end, or the fault at which the parser stopped.
pub uninterp spec fn chunks_of(data: Seq<u8>) -> Seq<Result<Chunk, DecodeError>>;

/// `wasmparser::Parser::parse_all` with a parser that reads from offset 0:
/// every chunk that it yields, in order, which are what [`chunks_of`]
/// names.
#[verifier::external_body]
pub(crate) fn cut(data: &[u8]) -> (r: Vec<Result<Chunk, DecodeError>>)
    ensures
        r@ == chunks_of(data@),
{
    wasmparser::Parser::new(0).parse_all(data).map(
        |p| match p {
            Ok(payload) => Ok(chunk_from(&payload)),
            Err(e) => Err(decode_error_from(e)),
        },
    ).collect()
}

/// What `wasmparser::BinaryReader::read_var_u32` reads at `pos` of the
/// input up to `end`: a number and the position behind it, or nothing
/// where no number can be read.
pub uninterp spec fn var_u32_at(data: Seq<u8>, pos: int, end: int) -> Option<(u32, int)>;

/// `wasmparser::BinaryReader::read_var_u32` at `pos`. Returns the number and
/// the position behind it, which are what [`var_u32_at`] names.
#[verifier::external_body]
pub(crate) fn read_var_u32(data: &[u8], pos: usize, end: usize) -> (r: Result<
    (u32, u64),
    DecodeError,
>)
    requires
        pos <= end <= data.len(),
    ensures
        match r {
            Ok((n, next)) => var_u32_at(data@, pos as int, end as int) == Some((n, next as int)),
            Err(_) => var_u32_at(data@, pos as int, end as int) is None,
        },
{
    let mut reader = wasmparser::BinaryReader::new(&data[pos..end], pos as u64);
    match reader.read_var_u32() {
        Ok(n) => Ok((n, reader.original_position() as u64)),
        Err(e) => Err(decode_error_from(e)),
    }
}

/// The sections whose entries the weaver hands on without reading them.
#[derive(Clone, Copy, Debug, PartialEq, Eq, Structural)]
pub enum ItemKind {
    Table,
    Memory,
    Tag,
    Global,
    Element,
    Data,
}

/// Where `wasmparser::BinaryReader::read` stands after it has read one
/// entry of a section of the given kind at `pos` of the input up to `end`;
/// nothing where no entry can be read.
pub uninterp spec fn item_end(kind: ItemKind, data: Seq<u8>, pos: int, end: int) -> Option<int>;

/// `wasmparser::BinaryReader::read` for a table, a memory or a tag that
/// starts at `pos`. Returns the position behind it, which is what
/// [`item_end`] names.
#[verifier::external_body]
fn skip_definition(kind: ItemKind, data: &[u8], pos: usize, end: usize) -> (r: Result<
    u64,
    DecodeError,
>)
    requires
        pos <= end <= data.len(),
        kind is Table || kind is Memory || kind is Tag,
    ensures
        match r {
            Ok(next) => item_end(kind, data@, pos as int, end as int) == Some(next as int),
            Err(_) => item_end(kind, data@, pos as int, end as int) is None,
        },
{
    let mut reader = wasmparser::BinaryReader::new(&data[pos..end], pos as u64);
    let read = match kind {
        ItemKind::Table => reader.read::<wasmparser::Table>().map(drop),
        ItemKind::Memory => reader.read::<wasmparser::MemoryType>().map(drop),
        _ => reader.read::<wasmparser::TagType>().map(drop),
    };
    read.map(|_| reader.original_position() as u64).map_err(decode_error_from)
}

/// `wasmparser::BinaryReader::read` for a global, an element segment or a
/// data segment that starts at `pos`. Returns the position behind it,
/// which is what [`item_end`] names.
#[verifier::external_body]
fn skip_initialized(kind: ItemKind, data: &[u8], pos: usize, end: usize) -> (r: Result<
    u64,
    DecodeError,
>)
    requires
        pos <= end <= data.len(),
        kind is Global || kind is Element || kind is Data,
    ensures
        match r {
            Ok(next) => item_end(kind, data@, pos as int, end as int) == Some(next as int),
            Err(_) => item_end(kind, data@, pos as int, end as int) is None,
        },
{
    let mut reader = wasmparser::BinaryReader::new(&data[pos..end], pos as u64);
    let read = match kind {
        ItemKind::Global => reader.read::<wasmparser::Global>().map(drop),
        ItemKind::Element => reader.read::<wasmparser::Element>().map(drop),
        _ => reader.read::<wasmparser::Data>().map(drop),
    };
    read.map(|_| reader.original_position() as u64).map_err(decode_error_from)
}

/// Reads over one entry of a section of the given kind that starts at
/// `pos`. Returns the position behind the entry, as the reader gives it.
pub fn skip_item(kind: ItemKind, data: &[u8], pos: usize, end: usize) -> (r: Result<
    u64,
    DecodeError,
>)
    requires
        pos <= end <= data.len(),
    ensures
        match r {
            Ok(next) => item_end(kind, data@, pos as int, end as int) == Some(next as int),
            Err(_) => item_end(kind, data@, pos as int, end as int) is None,
        },
{
    match kind {
        ItemKind::Table => skip_definition(kind, data, pos, end),
        ItemKind::Memory => skip_definition(kind, data, pos, end),
        ItemKind::Tag => skip_definition(kind, data, pos, end),
        ItemKind::Global => skip_initialized(kind, data, pos, end),
        ItemKind::Element => skip_initialized(kind, data, pos, end),
        ItemKind::Data => skip_initialized(kind, data, pos, end),
    }
}

/// The variants of `wasmparser::AbstractHeapType`, one for one.
#[verifier::external_body]
fn abstract_heap_type_from(ty: wasmparser::AbstractHeapType) -> (r: AbstractHeap) {
    match ty {
        wasmparser::AbstractHeapType::Func => AbstractHeap::Func,
        wasmparser::AbstractHeapType::Extern => AbstractHeap::Extern,
        wasmparser::AbstractHeapType::Any => AbstractHeap::Any,
        wasmparser::AbstractHeapType::None => AbstractHeap::Bottom,
        wasmparser::AbstractHeapType::NoExtern => AbstractHeap::NoExtern,
        wasmparser::AbstractHeapType::NoFunc => AbstractHeap::NoFunc,
        wasmparser::AbstractHeapType::Eq => AbstractHeap::Equatable,
        wasmparser::AbstractHeapType::Struct => AbstractHeap::Struct,
        wasmparser::AbstractHeapType::Array => AbstractHeap::Array,
        wasmparser::AbstractHeapType::I31 => AbstractHeap::I31,
        other => exception_heap_type_from(other),
    }
}

/// The variants of `wasmparser::AbstractHeapType` that belong to exceptions
/// and continuations, one for one.
#[verifier::external_body]
fn exception_heap_type_from(ty: wasmparser::AbstractHeapType) -> (r: AbstractHeap) {
    match ty {
        wasmparser::AbstractHeapType::Exn => AbstractHeap::Exn,
        wasmparser::AbstractHeapType::NoExn => AbstractHeap::NoExn,
        wasmparser::AbstractHeapType::Cont => AbstractHeap::Cont,
        _ => AbstractHeap::NoCont,
    }
}

/// The variants of `wasmparser::HeapType`, with
/// `wasmparser::UnpackedIndex::as_module_index` for the index of a concrete
/// type.
#[verifier::external_body]
fn heap_type_from(ty: wasmparser::HeapType) -> (r: HeapKind) {
    match ty {
        wasmparser::HeapType::Abstract { shared, ty } => HeapKind::Abstract {
            shared,
            ty: abstract_heap_type_from(ty),
        },
        wasmparser::HeapType::Concrete(i) => i.as_module_index().map_or(
            HeapKind::Canonical,
            HeapKind::Concrete,
        ),
        wasmparser::HeapType::Exact(i) => i.as_module_index().map_or(
            HeapKind::Canonical,
            HeapKind::Exact,
        ),
    }
}

/// The variants of `wasmparser::ValType`, with `wasmparser::RefType::is_nullable`
/// and `wasmparser::RefType::heap_type` for a reference.
#[verifier::external_body]
pub(crate) fn val_type_from(ty: wasmparser::ValType) -> (r: ValueType) {
    match ty {
        wasmparser::ValType::I32 => ValueType::I32,
        wasmparser::ValType::I64 => ValueType::I64,
        wasmparser::ValType::F32 => ValueType::F32,
        wasmparser::ValType::F64 => ValueType::F64,
        wasmparser::ValType::V128 => ValueType::V128,
        wasmparser::ValType::Ref(r) => ValueType::Ref(
            RefType { nullable: r.is_nullable(), heap_type: heap_type_from(r.heap_type()) },
        ),
    }
}

/// `wasmparser::FuncType::params` and `wasmparser::FuncType::results` of a
/// function type; nothing for a type of another shape.
#[verifier::external_body]
fn func_type_from(ty: &wasmparser::SubType) -> (r: Option<FuncType>) {
    match &ty.composite_type.inner {
        wasmparser::CompositeInnerType::Func(f) => Some(
            FuncType {
                params: f.params().iter().map(|t| val_type_from(*t)).collect(),
                results: f.results().iter().map(|t| val_type_from(*t)).collect(),
            },
        ),
        _ => None,
    }
}

/// What `wasmparser::BinaryReader::read` finds where it reads a recursion
/// group at `pos` of the input up to `end`: whether the group is written
/// as one, the signature of each member that is a function type, and the
/// position behind the group; nothing where no group can be read.
pub uninterp spec fn rec_group_at(data: Seq<u8>, pos: int, end: int) -> Option<
    (bool, Seq<Option<FuncType>>, int),
>;

/// `wasmparser::BinaryReader::read` for one recursion group at `pos`. Returns
/// whether the group is written as one (`RecGroup::is_explicit_rec_group`),
/// the signature of each member that is a function type (`RecGroup::types`),
/// and the position behind the group, which are what [`rec_group_at`]
/// names.
#[verifier::external_body]
pub(crate) fn read_rec_group(data: &[u8], pos: usize, end: usize) -> (r: Result<
    (bool, Vec<Option<FuncType>>, u64),
    DecodeError,
>)
    requires
        pos <= end <= data.len(),
    ensures
        match r {
            Ok((explicit, signatures, next)) => rec_group_at(data@, pos as int, end as int) == Some(
                (explicit, signatures@, next as int),
            ),
            Err(_) => rec_group_at(data@, pos as int, end as int) is None,
        },
{
    let mut reader = wasmparser::BinaryReader::new(&data[pos..end], pos as u64);
    match reader.read::<wasmparser::RecGroup>() {
        Ok(group) => Ok(
            (
                group.is_explicit_rec_group(),
                group.types().map(func_type_from).collect(),
                reader.original_position() as u64,
            ),
        ),
        Err(e) => Err(decode_error_from(e)),
    }
}

/// The variants of `wasmparser::ExternalKind`, one for one.
#[verifier::external_body]
fn external_kind_from(kind: wasmparser::ExternalKind) -> (r: ExternKind) {
    match kind {
        wasmparser::ExternalKind::Func => ExternKind::Func,
        wasmparser::ExternalKind::Table => ExternKind::Table,
        wasmparser::ExternalKind::Memory => ExternKind::Memory,
        wasmparser::ExternalKind::Global => ExternKind::Global,
        wasmparser::ExternalKind::Tag => ExternKind::Tag,
        wasmparser::ExternalKind::FuncExact => ExternKind::FuncExact,
    }
}

/// The variants of `wasmparser::TypeRef`: the kind of the imported item,
/// and for a function the index of its type.
#[verifier::external_body]
fn type_ref_kind(ty: &wasmparser::TypeRef) -> (r: (ExternKind, Option<u32>)) {
    match ty {
        wasmparser::TypeRef::Func(i) => (ExternKind::Func, Some(*i)),
        wasmparser::TypeRef::FuncExact(i) => (ExternKind::FuncExact, Some(*i)),
        wasmparser::TypeRef::Table(_) => (ExternKind::Table, None),
        wasmparser::TypeRef::Memory(_) => (ExternKind::Memory, None),
        wasmparser::TypeRef::Global(_) => (ExternKind::Global, None),
        wasmparser::TypeRef::Tag(_) => (ExternKind::Tag, None),
    }
}

/// The encoding that `wasm_encoder` gives the type of an imported item when
/// nothing is renumbered (`RoundtripReencoder::entity_type`, then
/// `Encode::encode`), or the error of the encoder.
#[verifier::external_body]
fn entity_bytes(ty: wasmparser::TypeRef) -> (r: Result<Vec<u8>, Failure>) {
    let mut same = wasm_encoder::reencode::RoundtripReencoder;
    match wasm_encoder::reencode::Reencode::entity_type(&mut same, ty) {
        Ok(t) => {
            let mut entity = Vec::new();
            wasm_encoder::Encode::encode(&t, &mut entity);
            Ok(entity)
        },
        Err(e) => Err(roundtrip_failure(e)),
    }
}

/// The fields of a `wasmparser::Import`, with the type of the imported
/// item encoded.
#[verifier::external_body]
fn import_from(module: &str, name: &str, ty: wasmparser::TypeRef) -> (r: Result<RawImport, Failure>) {
    let (kind, type_index) = type_ref_kind(&ty);
    let entity = entity_bytes(ty)?;
    Ok(RawImport { module: module.to_string(), name: name.to_string(), kind, type_index, entity })
}

/// A reader error as a failure.
#[verifier::external_body]
fn read_failure(e: wasmparser::Error) -> (r: Failure) {
    Failure::ParseError(decode_error_from(e))
}

/// The imports that `wasmparser::ImportSectionReader` finds in the import
/// section that stands between `start` and `end`, each with its type as
/// `wasm_encoder` encodes it; nothing where the section cannot be read or
/// a type cannot be encoded.
pub uninterp spec fn imports_at(data: Seq<u8>, start: int, end: int) -> Option<Seq<RawImport>>;

/// `wasmparser::ImportSectionReader::new` on the contents of an import
/// section, and `into_imports`, which yields its imports one by one: what
/// [`imports_at`] names. A fault of the reader comes back as
/// `Failure::ParseError`, the error of the encoder on the type of an
/// imported item as it is.
#[verifier::external_body]
pub(crate) fn read_imports(data: &[u8], start: usize, end: usize) -> (r: Result<
    Vec<RawImport>,
    Failure,
>)
    requires
        start <= end <= data.len(),
    ensures
        match r {
            Ok(imports) => imports_at(data@, start as int, end as int) == Some(imports@),
            Err(_) => imports_at(data@, start as int, end as int) is None,
        },
{
    let reader = wasmparser::BinaryReader::new(&data[start..end], start as u64);
    match wasmparser::ImportSectionReader::new(reader) {
        Ok(section) => section.into_imports().map(
            |i| i.map_err(read_failure).and_then(|i| import_from(i.module, i.name, i.ty)),
        ).collect(),
        Err(e) => Err(read_failure(e)),
    }
}

/// What `wasmparser::BinaryReader::read` finds where it reads an export
/// at `pos` of the input up to `end`: the export and the position behind
/// it; nothing where no export can be read.
pub uninterp spec fn export_at(data: Seq<u8>, pos: int, end: int) -> Option<(RawExport, int)>;

/// `wasmparser::BinaryReader::read` for one export at `pos`. Returns the
/// export and the position behind it, which are what [`export_at`] names.
#[verifier::external_body]
pub(crate) fn read_export(data: &[u8], pos: usize, end: usize) -> (r: Result<
    (RawExport, u64),
    DecodeError,
>)
    requires
        pos <= end <= data.len(),
    ensures
        match r {
            Ok((export, next)) => export_at(data@, pos as int, end as int) == Some(
                (export, next as int),
            ),
            Err(_) => export_at(data@, pos as int, end as int) is None,
        },
{
    let mut reader = wasmparser::BinaryReader::new(&data[pos..end], pos as u64);
    match reader.read::<wasmparser::Export>() {
        Ok(e) => Ok(
            (
                RawExport {
                    name: e.name.to_string(),
                    kind: external_kind_from(e.kind),
                    index: e.index,
                },
                reader.original_position() as u64,
            ),
        ),
        Err(e) => Err(decode_error_from(e)),
    }
}

/// What `wasmparser::CustomSectionReader` finds in the custom section that
/// stands between `start` and `end`: its name and where its payload
/// starts; nothing where the section cannot be read.
pub uninterp spec fn custom_at(data: Seq<u8>, start: int, end: int) -> Option<(Seq<char>, int)>;

/// `wasmparser::CustomSectionReader::new` on the contents of a custom
/// section. Returns the section's name (`name`) and where its payload starts
/// (`data_offset`), which are what [`custom_at`] names.
#[verifier::external_body]
pub(crate) fn read_custom(data: &[u8], start: usize, end: usize) -> (r: Result<
    (String, u64),
    DecodeError,
>)
    requires
        start <= end <= data.len(),
    ensures
        match r {
            Ok((name, payload)) => custom_at(data@, start as int, end as int) == Some(
                (name@, payload as int),
            ),
            Err(_) => custom_at(data@, start as int, end as int) is None,
        },
{
    let reader = wasmparser::BinaryReader::new(&data[start..end], start as u64);
    match wasmparser::CustomSectionReader::new(reader) {
        Ok(section) => Ok((section.name().to_string(), section.data_offset() as u64)),
        Err(e) => Err(decode_error_from(e)),
    }
}

/// What `wasmparser::FunctionBody::get_locals_reader` finds in the function
/// body that stands between `start` and `end`: the declared locals, each
/// with its count, or nothing where they cannot be read.
pub uninterp spec fn locals_read(data: Seq<u8>, start: int, end: int) -> Option<
    Seq<(u32, ValueType)>,
>;

/// `wasmparser::FunctionBody::get_locals_reader` on a function body, read to
/// its end: the declared locals, each with its count. What comes back is
/// what [`locals_read`] names.
#[verifier::external_body]
pub(crate) fn read_locals(data: &[u8], start: usize, end: usize) -> (r: Result<
    Vec<(u32, ValueType)>,
    DecodeError,
>)
    requires
        start <= end <= data.len(),
    ensures
        match r {
            Ok(locals) => locals_read(data@, start as int, end as int) == Some(locals@),
            Err(_) => locals_read(data@, start as int, end as int) is None,
        },
{
    let reader = wasmparser::BinaryReader::new(&data[start..end], start as u64);
    let locals = wasmparser::FunctionBody::new(reader).get_locals_reader();
    locals.and_then(
        |l| l.into_iter().map(|p| p.map(|(n, t)| (n, val_type_from(t)))).collect::<Result<_, _>>(),
    ).map_err(decode_error_from)
}

/// The instructions that `wasmparser::OperatorsReader` reads in the
/// function body between `start` and `end`, behind its locals, one after
/// the other up to the first that it cannot read; none where the locals
/// cannot be read.
pub uninterp spec fn ops_at(data: Seq<u8>, start: int, end: int) -> Seq<Operator<'static>>;

/// Whether `wasmparser::OperatorsReader` reads the function body between
/// `start` and `end` to its end: its locals and every instruction can be
/// read.
pub uninterp spec fn body_reads(data: Seq<u8>, start: int, end: int) -> bool;

/// The instructions that a reader of instructions reads from where it
/// stands, one after the other up to the first that it cannot read.
pub uninterp spec fn ops_left(reader: wasmparser::OperatorsReader) -> Seq<Operator<'static>>;

/// Whether a reader of instructions reads on to the end of its body:
/// after the instructions that it can read comes the end, not one that it
/// cannot read.
pub uninterp spec fn reads_on(reader: wasmparser::OperatorsReader) -> bool;

/// The kind of an instruction, see [`OpKind`].
pub uninterp spec fn kind_of(op: Operator) -> OpKind;

/// The kinds of a list of instructions.
pub open spec fn kinds_of(ops: Seq<Operator<'static>>) -> Seq<OpKind> {
    Seq::new(ops.len(), |i: int| kind_of(ops[i]))
}

/// The kinds of the instructions of the function body between `start` and
/// `end`, up to the first that cannot be read.
pub open spec fn kinds_at(data: Seq<u8>, start: int, end: int) -> Seq<OpKind> {
    kinds_of(ops_at(data, start, end))
}

/// `wasmparser::FunctionBody::get_operators_reader` on a function body:
/// a reader that stands before the first instruction of the body.
#[verifier::external_body]
pub(crate) fn operators_reader<'a>(data: &'a [u8], start: usize, end: usize) -> (r: Result<
    wasmparser::OperatorsReader<'a>,
    DecodeError,
>)
    requires
        start <= end <= data.len(),
    ensures
        match r {
            Ok(reader) => ops_left(reader) == ops_at(data@, start as int, end as int)
                && reads_on(reader) == body_reads(data@, start as int, end as int),
            Err(_) => ops_at(data@, start as int, end as int).len() == 0 && !body_reads(
                data@,
                start as int,
                end as int,
            ),
        },
{
    let reader = wasmparser::BinaryReader::new(&data[start..end], start as u64);
    wasmparser::FunctionBody::new(reader).get_operators_reader().map_err(decode_error_from)
}

/// How many bytes a reader of instructions has not read yet.
pub uninterp spec fn operators_left(reader: wasmparser::OperatorsReader) -> nat;

/// `wasmparser::OperatorsReader::eof`: whether every byte has been read.
/// Nothing is read from there on; and where nothing can be read, that is
/// because every byte has been read or because of a fault.
#[verifier::external_body]
pub(crate) fn operators_eof(reader: &wasmparser::OperatorsReader) -> (r: bool)
    ensures
        r == (operators_left(*reader) == 0),
        r == (ops_left(*reader).len() == 0 && reads_on(*reader)),
{
    reader.eof()
}

/// `wasmparser::OperatorsReader::is_end_then_eof`: whether all that is left
/// is the byte of one `end`. That holds where the reader reads one `end`
/// and is then at the end. Where it holds, the reader reads that `end` or,
/// if the body has ended before, nothing.
#[verifier::external_body]
pub(crate) fn operators_end_then_eof(reader: &wasmparser::OperatorsReader) -> (r: bool)
    ensures
        r ==> operators_left(*reader) > 0,
        r ==> ops_left(*reader).len() == 0 || (ops_left(*reader).len() == 1 && kind_of(
            ops_left(*reader)[0],
        ) is End),
        reads_on(*reader) && ops_left(*reader).len() == 1 && kind_of(ops_left(*reader)[0]) is End
            ==> r,
{
    reader.is_end_then_eof()
}

/// `wasmparser::OperatorsReader::read`: the next instruction. An
/// instruction takes at least one byte, so on success fewer bytes are left;
/// the instruction is the first of those that the reader had to read, and
/// the others are left. Where it fails, there was none to read.
#[verifier::external_body]
pub(crate) fn operators_read<'a>(reader: &mut wasmparser::OperatorsReader<'a>) -> (r: Result<
    wasmparser::Operator<'a>,
    DecodeError,
>)
    ensures
        r is Ok ==> operators_left(*final(reader)) < operators_left(*old(reader)),
        r is Err ==> operators_left(*final(reader)) <= operators_left(*old(reader)),
        match r {
            Ok(op) => ops_left(*old(reader)) == seq![op] + ops_left(*final(reader)) && reads_on(
                *final(reader),
            ) == reads_on(*old(reader)),
            Err(_) => ops_left(*old(reader)).len() == 0,
        },
{
    reader.read().map_err(decode_error_from)
}

/// The variant of a `wasmparser::Operator`, with its index where the weaver
/// reads one. Each variant that has a name here is given that name; all
/// others are `Other`. This is what [`kind_of`] names.
#[verifier::external_body]
pub(crate) fn operator_kind(op: &wasmparser::Operator) -> (r: OpKind)
    ensures
        r == kind_of(*op),
{
    match op {
        Operator::Call { function_index } => OpKind::Call(*function_index),
        Operator::LocalGet { local_index } => OpKind::LocalGet(*local_index),
        Operator::LocalSet { local_index } => OpKind::LocalSet(*local_index),
        Operator::LocalTee { local_index } => OpKind::LocalTee(*local_index),
        Operator::End => OpKind::End,
        Operator::Block { .. } => OpKind::Block,
        Operator::Loop { .. } => OpKind::Loop,
        Operator::If { .. } => OpKind::If,
        Operator::Try { .. } => OpKind::Try,
        Operator::TryTable { .. } => OpKind::TryTable,
        _ => OpKind::Other,
    }
}

/// The function that an instruction names where it is a `return_call` or a
/// `ref.func`.
pub uninterp spec fn function_of(op: Operator) -> Option<u32>;

/// The function index of a `wasmparser::Operator::ReturnCall` or
/// `RefFunc`, which is what [`function_of`] names; nothing for any other
/// instruction.
#[verifier::external_body]
pub(crate) fn named_function(op: &wasmparser::Operator) -> (r: Option<u32>)
    ensures
        r == function_of(*op),
{
    match op {
        Operator::ReturnCall { function_index } => Some(*function_index),
        Operator::RefFunc { function_index } => Some(*function_index),
        _ => None,
    }
}

/// Whether `wasmparser::validate` accepts a byte string.
pub uninterp spec fn validates(bytes: Seq<u8>) -> bool;

/// `wasmparser::validate`: whether a byte string is a valid module or
/// component, by the features that the validator knows by default. The
/// call succeeds if and only if [`validates`] holds of the bytes.
#[verifier::external_body]
pub(crate) fn validate(bytes: &[u8]) -> (r: Result<(), DecodeError>)
    ensures
        r is Ok == validates(bytes@),
{
    wasmparser::validate(bytes).map(drop).map_err(decode_error_from)
}

} // verus!
