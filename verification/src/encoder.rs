//! The calls into the encoder `wasm_encoder`.
//!
//! Proved in this file are the four answers that [`Adapter`] gives the
//! encoder, and the two functions that only choose which call to make,
//! [`builder_new`] and [`function_push`]. Each other function hands values
//! of the library to the encoder, one for one. Such a function says of a
//! section that it stays the section that it was, [`module_append`] and its
//! two companions say which section identifier they add to a module, and
//! nothing else is promised about what comes back.

use crate::error::{Failure, WeaveError};
use crate::reader::{decode_error_from, ExternKind};
use crate::renumber::{IndexMaps, Renumber};
use crate::types::{AbstractHeap, HeapKind, ValueType};
use vstd::prelude::*;

verus! {

#[verifier::external_type_specification]
#[verifier::external_body]
#[verifier::reject_recursive_types(E)]
pub struct ExReencodeError<E>(wasm_encoder::reencode::Error<E>);

#[verifier::external_type_specification]
#[verifier::external_body]
pub struct ExModule(wasm_encoder::Module);

#[verifier::external_type_specification]
#[verifier::external_body]
pub struct ExEncodedSubType(wasm_encoder::SubType);

#[verifier::external_type_specification]
#[verifier::external_body]
pub struct ExFunction(wasm_encoder::Function);

#[verifier::external_type_specification]
#[verifier::external_body]
pub struct ExTypeSection(wasm_encoder::TypeSection);

#[verifier::external_type_specification]
#[verifier::external_body]
pub struct ExImportSection(wasm_encoder::ImportSection);

#[verifier::external_type_specification]
#[verifier::external_body]
pub struct ExFunctionSection(wasm_encoder::FunctionSection);

#[verifier::external_type_specification]
#[verifier::external_body]
pub struct ExTableSection(wasm_encoder::TableSection);

#[verifier::external_type_specification]
#[verifier::external_body]
pub struct ExMemorySection(wasm_encoder::MemorySection);

#[verifier::external_type_specification]
#[verifier::external_body]
pub struct ExTagSection(wasm_encoder::TagSection);

#[verifier::external_type_specification]
#[verifier::external_body]
pub struct ExGlobalSection(wasm_encoder::GlobalSection);

#[verifier::external_type_specification]
#[verifier::external_body]
pub struct ExExportSection(wasm_encoder::ExportSection);

#[verifier::external_type_specification]
#[verifier::external_body]
pub struct ExElementSection(wasm_encoder::ElementSection);

#[verifier::external_type_specification]
#[verifier::external_body]
pub struct ExDataSection(wasm_encoder::DataSection);

#[verifier::external_type_specification]
#[verifier::external_body]
pub struct ExCodeSection(wasm_encoder::CodeSection);

#[verifier::external_type_specification]
#[verifier::external_body]
pub struct ExEncodedValType(wasm_encoder::ValType);

#[verifier::external_type_specification]
#[verifier::external_body]
pub struct ExEncodedHeapType(wasm_encoder::HeapType);

#[verifier::external_type_specification]
#[verifier::external_body]
pub struct ExEncodedAbstractHeapType(wasm_encoder::AbstractHeapType);

/// The sections of a module that hold a list of entries.
#[derive(Clone, Copy, Debug, PartialEq, Eq, Structural)]
pub enum SectionKind {
    Types,
    Imports,
    Functions,
    Tables,
    Memories,
    Tags,
    Globals,
    Exports,
    Elements,
    Code,
    Data,
}

impl SectionKind {
    /// The identifier of the section in the binary format.
    pub open spec fn id(self) -> u8 {
        match self {
            SectionKind::Types => 1,
            SectionKind::Imports => 2,
            SectionKind::Functions => 3,
            SectionKind::Tables => 4,
            SectionKind::Memories => 5,
            SectionKind::Globals => 6,
            SectionKind::Exports => 7,
            SectionKind::Elements => 9,
            SectionKind::Code => 10,
            SectionKind::Data => 11,
            SectionKind::Tags => 13,
        }
    }
}

/// A section that is being filled.
pub enum Builder {
    Types(wasm_encoder::TypeSection),
    Imports(wasm_encoder::ImportSection),
    Functions(wasm_encoder::FunctionSection),
    Tables(wasm_encoder::TableSection),
    Memories(wasm_encoder::MemorySection),
    Tags(wasm_encoder::TagSection),
    Globals(wasm_encoder::GlobalSection),
    Exports(wasm_encoder::ExportSection),
    Elements(wasm_encoder::ElementSection),
    Code(wasm_encoder::CodeSection),
    Data(wasm_encoder::DataSection),
}

impl Builder {
    /// The entries that the section holds, in the order in which they
    /// were added.
    pub open spec fn held(&self) -> Seq<Entry> {
        match self {
            Builder::Types(s) => type_entries(*s),
            Builder::Imports(s) => import_entries(*s),
            Builder::Functions(s) => function_entries(*s),
            Builder::Tables(s) => table_entries(*s),
            Builder::Memories(s) => memory_entries(*s),
            Builder::Tags(s) => tag_entries(*s),
            Builder::Globals(s) => global_entries(*s),
            Builder::Exports(s) => export_entries(*s),
            Builder::Elements(s) => element_entries(*s),
            Builder::Code(s) => code_entries(*s),
            Builder::Data(s) => data_entries(*s),
        }
    }

    /// Which section this is.
    pub open spec fn kind(&self) -> SectionKind {
        match self {
            Builder::Types(_) => SectionKind::Types,
            Builder::Imports(_) => SectionKind::Imports,
            Builder::Functions(_) => SectionKind::Functions,
            Builder::Tables(_) => SectionKind::Tables,
            Builder::Memories(_) => SectionKind::Memories,
            Builder::Tags(_) => SectionKind::Tags,
            Builder::Globals(_) => SectionKind::Globals,
            Builder::Exports(_) => SectionKind::Exports,
            Builder::Elements(_) => SectionKind::Elements,
            Builder::Code(_) => SectionKind::Code,
            Builder::Data(_) => SectionKind::Data,
        }
    }
}

/// One entry of a section, as the encoder holds it.
pub ghost enum Entry {
    /// A function declaration: the index of its type.
    Declared(u32),
    /// An export: its name, its kind and the index of its item.
    Exported(Seq<char>, ExternKind, u32),
    /// An import: its namespace, its name and the encoding of its type.
    Imported(Seq<char>, Seq<char>, Seq<u8>),
    /// A function body: the encoding of its locals and instructions.
    Body(Seq<u8>),
    /// A table, memory, tag, global, element segment or data segment:
    /// its encoding.
    Item(Seq<u8>),
    /// A type that stands by itself, by its key.
    Single(Seq<u8>),
    /// A recursion group, by the keys of its members.
    Group(Seq<Seq<u8>>),
}

/// One part of a module, as the encoder holds it.
pub ghost enum Part {
    /// A section with its identifier and its entries.
    Section(u8, Seq<Entry>),
    /// The start section with the index of the start function.
    Start(u32),
    /// The data count section with its count.
    DataCount(u32),
}

/// The entries that a type section holds, in the order in which they were
/// added.
pub uninterp spec fn type_entries(section: wasm_encoder::TypeSection) -> Seq<Entry>;

/// The entries that an import section holds, in order.
pub uninterp spec fn import_entries(section: wasm_encoder::ImportSection) -> Seq<Entry>;

/// The entries that a function section holds, in order.
pub uninterp spec fn function_entries(section: wasm_encoder::FunctionSection) -> Seq<Entry>;

/// The entries that a table section holds, in order.
pub uninterp spec fn table_entries(section: wasm_encoder::TableSection) -> Seq<Entry>;

/// The entries that a memory section holds, in order.
pub uninterp spec fn memory_entries(section: wasm_encoder::MemorySection) -> Seq<Entry>;

/// The entries that a tag section holds, in order.
pub uninterp spec fn tag_entries(section: wasm_encoder::TagSection) -> Seq<Entry>;

/// The entries that a global section holds, in order.
pub uninterp spec fn global_entries(section: wasm_encoder::GlobalSection) -> Seq<Entry>;

/// The entries that an export section holds, in order.
pub uninterp spec fn export_entries(section: wasm_encoder::ExportSection) -> Seq<Entry>;

/// The entries that an element section holds, in order.
pub uninterp spec fn element_entries(section: wasm_encoder::ElementSection) -> Seq<Entry>;

/// The entries that a code section holds, in order.
pub uninterp spec fn code_entries(section: wasm_encoder::CodeSection) -> Seq<Entry>;

/// The entries that a data section holds, in order.
pub uninterp spec fn data_entries(section: wasm_encoder::DataSection) -> Seq<Entry>;

/// The bytes that a function body holds: the encoding of its locals and
/// then of its instructions.
pub uninterp spec fn function_bytes(function: wasm_encoder::Function) -> Seq<u8>;

/// The parts that a module holds behind its header, in the order in which
/// they were added.
pub uninterp spec fn module_held(module: wasm_encoder::Module) -> Seq<Part>;

/// One instruction of a function that the weaver puts together.
#[derive(Debug)]
pub enum Instr {
    Return,
    Br(u32),
    Call(u32),
    LocalGet(u32),
    LocalSet(u32),
    LocalTee(u32),
    TableGet(u32),
    ExternConvertAny,
    /// Opens a block whose type is the function type with this index.
    Block(u32),
    End,
    /// An instruction of the input in its new encoding.
    Raw(Vec<u8>),
}

/// `wasm_encoder::reencode::Error::UserError` around an error of the
/// library.
#[verifier::external_body]
fn user_error(e: WeaveError) -> (r: wasm_encoder::reencode::Error<WeaveError>) {
    wasm_encoder::reencode::Error::UserError(e)
}

/// The variants of `wasm_encoder::reencode::Error`, one for one.
#[verifier::external_body]
pub(crate) fn failure_from(e: wasm_encoder::reencode::Error<WeaveError>) -> (r: Failure) {
    match e {
        wasm_encoder::reencode::Error::CanonicalizedHeapTypeReference => Failure::CanonicalizedHeapTypeReference,
        wasm_encoder::reencode::Error::InvalidConstExpr => Failure::InvalidConstExpr,
        wasm_encoder::reencode::Error::InvalidCodeSectionSize => Failure::InvalidCodeSectionSize,
        wasm_encoder::reencode::Error::UnexpectedNonCoreModuleSection => Failure::UnexpectedNonCoreModuleSection,
        wasm_encoder::reencode::Error::UnexpectedNonComponentSection => Failure::UnexpectedNonComponentSection,
        wasm_encoder::reencode::Error::UnsupportedCoreTypeInComponent => Failure::UnsupportedCoreTypeInComponent,
        wasm_encoder::reencode::Error::ParseError(e) => Failure::ParseError(decode_error_from(e)),
        wasm_encoder::reencode::Error::UserError(e) => Failure::UserError(e),
    }
}

/// The variants of `wasm_encoder::reencode::Error` where nothing is
/// renumbered, one for one.
#[verifier::external_body]
pub(crate) fn roundtrip_failure(e: wasm_encoder::reencode::Error<std::convert::Infallible>) -> (r:
    Failure) {
    match e {
        wasm_encoder::reencode::Error::CanonicalizedHeapTypeReference => Failure::CanonicalizedHeapTypeReference,
        wasm_encoder::reencode::Error::InvalidConstExpr => Failure::InvalidConstExpr,
        wasm_encoder::reencode::Error::InvalidCodeSectionSize => Failure::InvalidCodeSectionSize,
        wasm_encoder::reencode::Error::UnexpectedNonCoreModuleSection => Failure::UnexpectedNonCoreModuleSection,
        wasm_encoder::reencode::Error::UnexpectedNonComponentSection => Failure::UnexpectedNonComponentSection,
        wasm_encoder::reencode::Error::UnsupportedCoreTypeInComponent => Failure::UnsupportedCoreTypeInComponent,
        wasm_encoder::reencode::Error::ParseError(e) => Failure::ParseError(decode_error_from(e)),
        wasm_encoder::reencode::Error::UserError(e) => match e {},
    }
}

/// Answers the encoder's questions about indices out of a renumbering of
/// the library.
pub struct Adapter<'a, T: Renumber> {
    pub inner: &'a T,
}

impl<'a, T: Renumber> wasm_encoder::reencode::Reencode for Adapter<'a, T> {
    type Error = WeaveError;

    fn type_index(&mut self, ty: u32) -> (r: Result<u32, wasm_encoder::reencode::Error<WeaveError>>)
        ensures
            r is Ok <==> old(self).inner.maps().type_index(ty) is Ok,
            r matches Ok(i) ==> old(self).inner.maps().type_index(ty) == Ok::<u32, WeaveError>(i),
    {
        match self.inner.type_index(ty) {
            Ok(i) => Ok(i),
            Err(e) => Err(user_error(e)),
        }
    }

    fn function_index(&mut self, func: u32) -> (r: Result<
        u32,
        wasm_encoder::reencode::Error<WeaveError>,
    >)
        ensures
            r is Ok <==> old(self).inner.maps().function_index(func) is Ok,
            r matches Ok(i) ==> old(self).inner.maps().function_index(func) == Ok::<u32, WeaveError>(
                i,
            ),
    {
        match self.inner.function_index(func) {
            Ok(i) => Ok(i),
            Err(e) => Err(user_error(e)),
        }
    }

    fn table_index(&mut self, table: u32) -> (r: Result<
        u32,
        wasm_encoder::reencode::Error<WeaveError>,
    >)
        ensures
            r is Ok <==> old(self).inner.maps().table_index(table) is Ok,
            r matches Ok(i) ==> old(self).inner.maps().table_index(table) == Ok::<u32, WeaveError>(i),
    {
        match self.inner.table_index(table) {
            Ok(i) => Ok(i),
            Err(e) => Err(user_error(e)),
        }
    }

    fn global_index(&mut self, global: u32) -> (r: Result<
        u32,
        wasm_encoder::reencode::Error<WeaveError>,
    >)
        ensures
            r is Ok <==> old(self).inner.maps().global_index(global) is Ok,
            r matches Ok(i) ==> old(self).inner.maps().global_index(global) == Ok::<u32, WeaveError>(
                i,
            ),
    {
        match self.inner.global_index(global) {
            Ok(i) => Ok(i),
            Err(e) => Err(user_error(e)),
        }
    }
}

/// `wasm_encoder::TypeSection::new`: an empty type section.
pub assume_specification[ wasm_encoder::TypeSection::new ]() -> (r: wasm_encoder::TypeSection)
    ensures
        type_entries(r) == Seq::<Entry>::empty(),
;

/// `wasm_encoder::ImportSection::new`: an empty import section.
pub assume_specification[ wasm_encoder::ImportSection::new ]() -> (r: wasm_encoder::ImportSection)
    ensures
        import_entries(r) == Seq::<Entry>::empty(),
;

/// `wasm_encoder::FunctionSection::new`: an empty function section.
pub assume_specification[ wasm_encoder::FunctionSection::new ]() -> (r: wasm_encoder::FunctionSection)
    ensures
        function_entries(r) == Seq::<Entry>::empty(),
;

/// `wasm_encoder::TableSection::new`: an empty table section.
pub assume_specification[ wasm_encoder::TableSection::new ]() -> (r: wasm_encoder::TableSection)
    ensures
        table_entries(r) == Seq::<Entry>::empty(),
;

/// `wasm_encoder::MemorySection::new`: an empty memory section.
pub assume_specification[ wasm_encoder::MemorySection::new ]() -> (r: wasm_encoder::MemorySection)
    ensures
        memory_entries(r) == Seq::<Entry>::empty(),
;

/// `wasm_encoder::TagSection::new`: an empty tag section.
pub assume_specification[ wasm_encoder::TagSection::new ]() -> (r: wasm_encoder::TagSection)
    ensures
        tag_entries(r) == Seq::<Entry>::empty(),
;

/// `wasm_encoder::GlobalSection::new`: an empty global section.
pub assume_specification[ wasm_encoder::GlobalSection::new ]() -> (r: wasm_encoder::GlobalSection)
    ensures
        global_entries(r) == Seq::<Entry>::empty(),
;

/// `wasm_encoder::ExportSection::new`: an empty export section.
pub assume_specification[ wasm_encoder::ExportSection::new ]() -> (r: wasm_encoder::ExportSection)
    ensures
        export_entries(r) == Seq::<Entry>::empty(),
;

/// `wasm_encoder::ElementSection::new`: an empty element section.
pub assume_specification[ wasm_encoder::ElementSection::new ]() -> (r: wasm_encoder::ElementSection)
    ensures
        element_entries(r) == Seq::<Entry>::empty(),
;

/// `wasm_encoder::CodeSection::new`: an empty code section.
pub assume_specification[ wasm_encoder::CodeSection::new ]() -> (r: wasm_encoder::CodeSection)
    ensures
        code_entries(r) == Seq::<Entry>::empty(),
;

/// `wasm_encoder::DataSection::new`: an empty data section.
pub assume_specification[ wasm_encoder::DataSection::new ]() -> (r: wasm_encoder::DataSection)
    ensures
        data_entries(r) == Seq::<Entry>::empty(),
;

/// An empty section of the given kind.
pub fn builder_new(kind: SectionKind) -> (r: Builder)
    ensures
        r.kind() == kind,
        r.held() == Seq::<Entry>::empty(),
{
    match kind {
        SectionKind::Types => Builder::Types(wasm_encoder::TypeSection::new()),
        SectionKind::Imports => Builder::Imports(wasm_encoder::ImportSection::new()),
        SectionKind::Functions => Builder::Functions(wasm_encoder::FunctionSection::new()),
        SectionKind::Tables => Builder::Tables(wasm_encoder::TableSection::new()),
        SectionKind::Memories => Builder::Memories(wasm_encoder::MemorySection::new()),
        SectionKind::Tags => Builder::Tags(wasm_encoder::TagSection::new()),
        SectionKind::Globals => Builder::Globals(wasm_encoder::GlobalSection::new()),
        SectionKind::Exports => Builder::Exports(wasm_encoder::ExportSection::new()),
        SectionKind::Elements => Builder::Elements(wasm_encoder::ElementSection::new()),
        SectionKind::Code => Builder::Code(wasm_encoder::CodeSection::new()),
        SectionKind::Data => Builder::Data(wasm_encoder::DataSection::new()),
    }
}

/// What the encoder writes for the table that the binary reader finds
/// between `start` and `end`, with its indices renumbered: the bytes that
/// it adds to the section, or why it adds none.
pub uninterp spec fn table_written(data: Seq<u8>, start: int, end: int, maps: IndexMaps) -> Result<
    Seq<u8>,
    Failure,
>;

/// Why the encoder refuses the table between `start` and `end`, if it does.
pub open spec fn table_refused(data: Seq<u8>, start: int, end: int, maps: IndexMaps) -> Option<
    Failure,
> {
    match table_written(data, start, end, maps) {
        Ok(_) => None,
        Err(e) => Some(e),
    }
}

/// `reencode::utils::parse_table` on the table that the binary reader finds
/// between `start` and `end`: it is added to the section with its indices
/// renumbered. Nothing is added when it cannot be read or one of its
/// indices has no place in the output.
#[verifier::external_body]
pub(crate) fn push_table<T: Renumber>(
    builder: &mut Builder,
    data: &[u8],
    start: usize,
    end: usize,
    renumber: &T,
) -> (r: Result<(), Failure>)
    requires
        start <= end <= data.len(),
        old(builder).kind() == SectionKind::Tables,
    ensures
        final(builder).kind() == old(builder).kind(),
        match r {
            Ok(()) => table_written(data@, start as int, end as int, renumber.maps()) matches Ok(
                bytes,
            ) && final(builder).held() == old(builder).held().push(Entry::Item(bytes)),
            Err(e) => table_written(data@, start as int, end as int, renumber.maps()) == Err::<
                Seq<u8>,
                Failure,
            >(e) && final(builder).held() == old(builder).held(),
        },
{
    let mut reader = wasmparser::BinaryReader::new(&data[start..end], start as u64);
    let mut a = Adapter { inner: renumber };
    let Builder::Tables(s) = builder else { return Ok(()) };
    let x = reader.read().map_err(|e| Failure::ParseError(decode_error_from(e)))?;
    wasm_encoder::reencode::utils::parse_table(&mut a, s, x).map_err(failure_from)
}

/// What the encoder writes for the global that the binary reader finds
/// between `start` and `end`, with its indices renumbered: the bytes that
/// it adds to the section, or why it adds none.
pub uninterp spec fn global_written(data: Seq<u8>, start: int, end: int, maps: IndexMaps) -> Result<
    Seq<u8>,
    Failure,
>;

/// Why the encoder refuses the global between `start` and `end`, if it does.
pub open spec fn global_refused(data: Seq<u8>, start: int, end: int, maps: IndexMaps) -> Option<
    Failure,
> {
    match global_written(data, start, end, maps) {
        Ok(_) => None,
        Err(e) => Some(e),
    }
}

/// `reencode::utils::parse_global` on the global that the binary reader finds
/// between `start` and `end`: it is added to the section with its indices
/// renumbered. Nothing is added when it cannot be read or one of its
/// indices has no place in the output.
#[verifier::external_body]
pub(crate) fn push_global<T: Renumber>(
    builder: &mut Builder,
    data: &[u8],
    start: usize,
    end: usize,
    renumber: &T,
) -> (r: Result<(), Failure>)
    requires
        start <= end <= data.len(),
        old(builder).kind() == SectionKind::Globals,
    ensures
        final(builder).kind() == old(builder).kind(),
        match r {
            Ok(()) => global_written(data@, start as int, end as int, renumber.maps()) matches Ok(
                bytes,
            ) && final(builder).held() == old(builder).held().push(Entry::Item(bytes)),
            Err(e) => global_written(data@, start as int, end as int, renumber.maps()) == Err::<
                Seq<u8>,
                Failure,
            >(e) && final(builder).held() == old(builder).held(),
        },
{
    let mut reader = wasmparser::BinaryReader::new(&data[start..end], start as u64);
    let mut a = Adapter { inner: renumber };
    let Builder::Globals(s) = builder else { return Ok(()) };
    let x = reader.read().map_err(|e| Failure::ParseError(decode_error_from(e)))?;
    wasm_encoder::reencode::utils::parse_global(&mut a, s, x).map_err(failure_from)
}

/// What the encoder writes for the element segment that the binary reader finds
/// between `start` and `end`, with its indices renumbered: the bytes that
/// it adds to the section, or why it adds none.
pub uninterp spec fn element_written(data: Seq<u8>, start: int, end: int, maps: IndexMaps) -> Result<
    Seq<u8>,
    Failure,
>;

/// Why the encoder refuses the element segment between `start` and `end`, if it does.
pub open spec fn element_refused(data: Seq<u8>, start: int, end: int, maps: IndexMaps) -> Option<
    Failure,
> {
    match element_written(data, start, end, maps) {
        Ok(_) => None,
        Err(e) => Some(e),
    }
}

/// `reencode::utils::parse_element` on the element segment that the binary reader finds
/// between `start` and `end`: it is added to the section with its indices
/// renumbered. Nothing is added when it cannot be read or one of its
/// indices has no place in the output.
#[verifier::external_body]
pub(crate) fn push_element<T: Renumber>(
    builder: &mut Builder,
    data: &[u8],
    start: usize,
    end: usize,
    renumber: &T,
) -> (r: Result<(), Failure>)
    requires
        start <= end <= data.len(),
        old(builder).kind() == SectionKind::Elements,
    ensures
        final(builder).kind() == old(builder).kind(),
        match r {
            Ok(()) => element_written(data@, start as int, end as int, renumber.maps()) matches Ok(
                bytes,
            ) && final(builder).held() == old(builder).held().push(Entry::Item(bytes)),
            Err(e) => element_written(data@, start as int, end as int, renumber.maps()) == Err::<
                Seq<u8>,
                Failure,
            >(e) && final(builder).held() == old(builder).held(),
        },
{
    let mut reader = wasmparser::BinaryReader::new(&data[start..end], start as u64);
    let mut a = Adapter { inner: renumber };
    let Builder::Elements(s) = builder else { return Ok(()) };
    let x = reader.read().map_err(|e| Failure::ParseError(decode_error_from(e)))?;
    wasm_encoder::reencode::utils::parse_element(&mut a, s, x).map_err(failure_from)
}

/// What the encoder writes for the data segment that the binary reader finds
/// between `start` and `end`, with its indices renumbered: the bytes that
/// it adds to the section, or why it adds none.
pub uninterp spec fn data_written(data: Seq<u8>, start: int, end: int, maps: IndexMaps) -> Result<
    Seq<u8>,
    Failure,
>;

/// Why the encoder refuses the data segment between `start` and `end`, if it does.
pub open spec fn data_refused(data: Seq<u8>, start: int, end: int, maps: IndexMaps) -> Option<
    Failure,
> {
    match data_written(data, start, end, maps) {
        Ok(_) => None,
        Err(e) => Some(e),
    }
}

/// `reencode::utils::parse_data` on the data segment that the binary reader finds
/// between `start` and `end`: it is added to the section with its indices
/// renumbered. Nothing is added when it cannot be read or one of its
/// indices has no place in the output.
#[verifier::external_body]
pub(crate) fn push_data<T: Renumber>(
    builder: &mut Builder,
    data: &[u8],
    start: usize,
    end: usize,
    renumber: &T,
) -> (r: Result<(), Failure>)
    requires
        start <= end <= data.len(),
        old(builder).kind() == SectionKind::Data,
    ensures
        final(builder).kind() == old(builder).kind(),
        match r {
            Ok(()) => data_written(data@, start as int, end as int, renumber.maps()) matches Ok(
                bytes,
            ) && final(builder).held() == old(builder).held().push(Entry::Item(bytes)),
            Err(e) => data_written(data@, start as int, end as int, renumber.maps()) == Err::<
                Seq<u8>,
                Failure,
            >(e) && final(builder).held() == old(builder).held(),
        },
{
    let mut reader = wasmparser::BinaryReader::new(&data[start..end], start as u64);
    let mut a = Adapter { inner: renumber };
    let Builder::Data(s) = builder else { return Ok(()) };
    let x = reader.read().map_err(|e| Failure::ParseError(decode_error_from(e)))?;
    wasm_encoder::reencode::utils::parse_data(&mut a, s, x).map_err(failure_from)
}

/// What the encoder writes for the memory that the binary reader finds
/// between `start` and `end`: the bytes that it adds to the section, or why
/// it adds none.
pub uninterp spec fn memory_written(data: Seq<u8>, start: int, end: int) -> Result<Seq<u8>, Failure>;

/// Why the encoder refuses the memory between `start` and `end`, if it
/// does.
pub open spec fn memory_refused(data: Seq<u8>, start: int, end: int) -> Option<Failure> {
    match memory_written(data, start, end) {
        Ok(_) => None,
        Err(e) => Some(e),
    }
}

/// `reencode::utils::memory_type` and `MemorySection::memory` on the memory
/// type that the binary reader finds between `start` and `end`.
#[verifier::external_body]
pub(crate) fn push_memory(builder: &mut Builder, data: &[u8], start: usize, end: usize) -> (r:
    Result<(), Failure>)
    requires
        start <= end <= data.len(),
        old(builder).kind() == SectionKind::Memories,
    ensures
        final(builder).kind() == old(builder).kind(),
        match r {
            Ok(()) => memory_written(data@, start as int, end as int) matches Ok(bytes) && final(builder).held() == old(builder).held().push(Entry::Item(bytes)),
            Err(e) => memory_written(data@, start as int, end as int) == Err::<Seq<u8>, Failure>(e)
                && final(builder).held() == old(builder).held(),
        },
{
    let mut reader = wasmparser::BinaryReader::new(&data[start..end], start as u64);
    let mut same = wasm_encoder::reencode::RoundtripReencoder;
    match (builder, reader.read()) {
        (Builder::Memories(s), Ok(memory)) => {
            s.memory(wasm_encoder::reencode::utils::memory_type(&mut same, memory));
            Ok(())
        },
        (_, Err(e)) => Err(Failure::ParseError(decode_error_from(e))),
        _ => Ok(()),
    }
}

/// What the encoder writes for the tag that the binary reader finds
/// between `start` and `end`, with its indices renumbered: the bytes that
/// it adds to the section, or why it adds none.
pub uninterp spec fn tag_written(data: Seq<u8>, start: int, end: int, maps: IndexMaps) -> Result<
    Seq<u8>,
    Failure,
>;

/// Why the encoder refuses the tag between `start` and `end`, if it does.
pub open spec fn tag_refused(data: Seq<u8>, start: int, end: int, maps: IndexMaps) -> Option<
    Failure,
> {
    match tag_written(data, start, end, maps) {
        Ok(_) => None,
        Err(e) => Some(e),
    }
}

/// `reencode::utils::tag_type` and `TagSection::tag` on the tag type that
/// the binary reader finds between `start` and `end`, with the index of its
/// function type renumbered.
#[verifier::external_body]
pub(crate) fn push_tag<T: Renumber>(
    builder: &mut Builder,
    data: &[u8],
    start: usize,
    end: usize,
    renumber: &T,
) -> (r: Result<(), Failure>)
    requires
        start <= end <= data.len(),
        old(builder).kind() == SectionKind::Tags,
    ensures
        final(builder).kind() == old(builder).kind(),
        match r {
            Ok(()) => tag_written(data@, start as int, end as int, renumber.maps()) matches Ok(
                bytes,
            ) && final(builder).held() == old(builder).held().push(Entry::Item(bytes)),
            Err(e) => tag_written(data@, start as int, end as int, renumber.maps()) == Err::<
                Seq<u8>,
                Failure,
            >(e) && final(builder).held() == old(builder).held(),
        },
{
    let mut reader = wasmparser::BinaryReader::new(&data[start..end], start as u64);
    let mut a = Adapter { inner: renumber };
    let tag = reader.read().map_err(Into::into).and_then(
        |x| wasm_encoder::reencode::utils::tag_type(&mut a, x),
    );
    match (builder, tag) {
        (Builder::Tags(s), Ok(tag)) => {
            s.tag(tag);
            Ok(())
        },
        (_, Err(e)) => Err(failure_from(e)),
        _ => Ok(()),
    }
}

/// What `reencode::utils::entity_type` and `Encode::encode` make of the type
/// of an imported item that the binary reader finds in `entity`: its
/// encoding with its indices renumbered, or why there is none.
pub uninterp spec fn entity_encoded(entity: Seq<u8>, maps: IndexMaps) -> Result<Seq<u8>, Failure>;

/// `reencode::utils::entity_type` on the type of an imported item, with its
/// indices renumbered, and `Encode::encode` on what comes back: what
/// [`entity_encoded`] names.
#[verifier::external_body]
pub(crate) fn encode_entity<T: Renumber>(entity: &[u8], renumber: &T) -> (r: Result<
    Vec<u8>,
    Failure,
>)
    ensures
        match r {
            Ok(bytes) => entity_encoded(entity@, renumber.maps()) == Ok::<Seq<u8>, Failure>(bytes@),
            Err(e) => entity_encoded(entity@, renumber.maps()) == Err::<Seq<u8>, Failure>(e),
        },
{
    let mut reader = wasmparser::BinaryReader::new(entity, 0);
    let mut a = Adapter { inner: renumber };
    let ty = reader.read().map_err(Into::into).and_then(
        |x| wasm_encoder::reencode::utils::entity_type(&mut a, x),
    );
    match ty {
        Ok(ty) => {
            let mut out = Vec::new();
            wasm_encoder::Encode::encode(&ty, &mut out);
            Ok(out)
        },
        Err(e) => Err(failure_from(e)),
    }
}

/// What the encoder writes for the entry of a section of the given kind
/// that stands between `start` and `end`.
pub open spec fn item_written(
    kind: SectionKind,
    data: Seq<u8>,
    start: int,
    end: int,
    maps: IndexMaps,
) -> Result<Seq<u8>, Failure> {
    match kind {
        SectionKind::Tables => table_written(data, start, end, maps),
        SectionKind::Globals => global_written(data, start, end, maps),
        SectionKind::Elements => element_written(data, start, end, maps),
        SectionKind::Data => data_written(data, start, end, maps),
        SectionKind::Tags => tag_written(data, start, end, maps),
        _ => memory_written(data, start, end),
    }
}

/// Why the encoder refuses the entry of a section of the given kind that
/// stands between `start` and `end`, if it does.
pub open spec fn item_refused(
    kind: SectionKind,
    data: Seq<u8>,
    start: int,
    end: int,
    maps: IndexMaps,
) -> Option<Failure> {
    match kind {
        SectionKind::Tables => table_refused(data, start, end, maps),
        SectionKind::Globals => global_refused(data, start, end, maps),
        SectionKind::Elements => element_refused(data, start, end, maps),
        SectionKind::Data => data_refused(data, start, end, maps),
        SectionKind::Tags => tag_refused(data, start, end, maps),
        SectionKind::Memories => memory_refused(data, start, end),
        _ => None,
    }
}

/// What the encoder writes for the type of an imported item that
/// `wasmparser::BinaryReader::read` finds in `entity` and
/// `reencode::utils::entity_type` takes with nothing renumbered: its
/// encoding in the import section, or why there is none.
pub uninterp spec fn entity_written(entity: Seq<u8>) -> Result<Seq<u8>, Failure>;

/// Why the encoder refuses the type of an imported item that stands in
/// `entity`, if it does.
pub open spec fn entity_refused(entity: Seq<u8>) -> Option<Failure> {
    match entity_written(entity) {
        Ok(_) => None,
        Err(e) => Some(e),
    }
}

/// `ImportSection::import` with the type of the imported item that the
/// binary reader finds in `entity`: the section gains the import with
/// what [`entity_written`] names. The error of the reader or of the
/// encoder comes back as it is, and nothing is added.
#[verifier::external_body]
pub(crate) fn push_import(builder: &mut Builder, module: &str, name: &str, entity: &[u8]) -> (r:
    Result<(), Failure>)
    requires
        old(builder).kind() == SectionKind::Imports,
    ensures
        final(builder).kind() == old(builder).kind(),
        match r {
            Ok(()) => entity_written(entity@) matches Ok(bytes) && final(builder).held() == old(builder).held().push(Entry::Imported(module@, name@, bytes)),
            Err(e) => entity_written(entity@) == Err::<Seq<u8>, Failure>(e) && final(builder).held() == old(builder).held(),
        },
{
    let mut reader = wasmparser::BinaryReader::new(entity, 0);
    let mut same = wasm_encoder::reencode::RoundtripReencoder;
    let ty = reader.read().map_err(Into::into).and_then(
        |x| wasm_encoder::reencode::utils::entity_type(&mut same, x),
    );
    match (builder, ty) {
        (Builder::Imports(s), Ok(ty)) => {
            s.import(module, name, ty);
            Ok(())
        },
        (_, Err(e)) => Err(roundtrip_failure(e)),
        _ => Ok(()),
    }
}

/// `FunctionSection::function`: declares a function of the type with the
/// given index.
#[verifier::external_body]
pub(crate) fn push_function(builder: &mut Builder, type_index: u32)
    requires
        old(builder).kind() == SectionKind::Functions,
    ensures
        final(builder).kind() == old(builder).kind(),
        final(builder).held() == old(builder).held().push(Entry::Declared(type_index)),
{
    if let Builder::Functions(s) = builder {
        s.function(type_index);
    }
}

/// The variants of `wasmparser::ExternalKind`, one for one.
#[verifier::external_body]
fn external_kind_to(kind: ExternKind) -> (r: wasmparser::ExternalKind) {
    match kind {
        ExternKind::Func => wasmparser::ExternalKind::Func,
        ExternKind::FuncExact => wasmparser::ExternalKind::FuncExact,
        ExternKind::Table => wasmparser::ExternalKind::Table,
        ExternKind::Memory => wasmparser::ExternalKind::Memory,
        ExternKind::Global => wasmparser::ExternalKind::Global,
        ExternKind::Tag => wasmparser::ExternalKind::Tag,
    }
}

/// The kind that `reencode::utils::export_kind` makes of a kind that was
/// read: an exact function is exported as a function, every other kind as
/// itself.
pub open spec fn export_kind_of(kind: ExternKind) -> ExternKind {
    if kind is FuncExact {
        ExternKind::Func
    } else {
        kind
    }
}

/// `ExportSection::export`, with the kind that `reencode::utils::export_kind`
/// makes of the kind that was read: the section gains the export.
#[verifier::external_body]
pub(crate) fn push_export(builder: &mut Builder, name: &str, kind: ExternKind, index: u32)
    requires
        old(builder).kind() == SectionKind::Exports,
    ensures
        final(builder).kind() == old(builder).kind(),
        final(builder).held() == old(builder).held().push(
            Entry::Exported(name@, export_kind_of(kind), index),
        ),
{
    let mut same = wasm_encoder::reencode::RoundtripReencoder;
    let kind = wasm_encoder::reencode::utils::export_kind(&mut same, external_kind_to(kind));
    if let Builder::Exports(s) = builder {
        s.export(name, kind, index);
    }
}

/// The variants of `wasm_encoder::AbstractHeapType`, one for one.
#[verifier::external_body]
fn abstract_heap_type_to(ty: AbstractHeap) -> (r: wasm_encoder::AbstractHeapType) {
    match ty {
        AbstractHeap::Func => wasm_encoder::AbstractHeapType::Func,
        AbstractHeap::Extern => wasm_encoder::AbstractHeapType::Extern,
        AbstractHeap::Any => wasm_encoder::AbstractHeapType::Any,
        AbstractHeap::Bottom => wasm_encoder::AbstractHeapType::None,
        AbstractHeap::NoExtern => wasm_encoder::AbstractHeapType::NoExtern,
        AbstractHeap::NoFunc => wasm_encoder::AbstractHeapType::NoFunc,
        AbstractHeap::Equatable => wasm_encoder::AbstractHeapType::Eq,
        AbstractHeap::Struct => wasm_encoder::AbstractHeapType::Struct,
        AbstractHeap::Array => wasm_encoder::AbstractHeapType::Array,
        AbstractHeap::I31 => wasm_encoder::AbstractHeapType::I31,
        other => exception_heap_type_to(other),
    }
}

/// The variants of `wasm_encoder::AbstractHeapType` that belong to
/// exceptions and continuations, one for one.
#[verifier::external_body]
fn exception_heap_type_to(ty: AbstractHeap) -> (r: wasm_encoder::AbstractHeapType) {
    match ty {
        AbstractHeap::Exn => wasm_encoder::AbstractHeapType::Exn,
        AbstractHeap::NoExn => wasm_encoder::AbstractHeapType::NoExn,
        AbstractHeap::Cont => wasm_encoder::AbstractHeapType::Cont,
        _ => wasm_encoder::AbstractHeapType::NoCont,
    }
}

/// The variants of `wasm_encoder::HeapType`, one for one. A type that no
/// index stands for has no counterpart.
#[verifier::external_body]
fn heap_type_to(ty: HeapKind) -> (r: Option<wasm_encoder::HeapType>) {
    match ty {
        HeapKind::Abstract { shared, ty } => Some(
            wasm_encoder::HeapType::Abstract { shared, ty: abstract_heap_type_to(ty) },
        ),
        HeapKind::Concrete(i) => Some(wasm_encoder::HeapType::Concrete(i)),
        HeapKind::Exact(i) => Some(wasm_encoder::HeapType::Exact(i)),
        HeapKind::Canonical => None,
    }
}

/// The variants of `wasm_encoder::ValType`, one for one.
#[verifier::external_body]
fn val_type_to(ty: &ValueType) -> (r: Option<wasm_encoder::ValType>) {
    match ty {
        ValueType::I32 => Some(wasm_encoder::ValType::I32),
        ValueType::I64 => Some(wasm_encoder::ValType::I64),
        ValueType::F32 => Some(wasm_encoder::ValType::F32),
        ValueType::F64 => Some(wasm_encoder::ValType::F64),
        ValueType::V128 => Some(wasm_encoder::ValType::V128),
        ValueType::Ref(r) => heap_type_to(r.heap_type).map(
            |h| wasm_encoder::ValType::Ref(
                wasm_encoder::RefType { nullable: r.nullable, heap_type: h },
            ),
        ),
    }
}

/// `wasm_encoder::FuncType::new` in a `SubType`: the function type with
/// these parameters and results, final or not, shared or not, with these
/// supertypes, and without descriptor. Nothing comes back where a value
/// type has no counterpart in the encoder.
#[verifier::external_body]
pub(crate) fn func_sub_type(
    params: &Vec<ValueType>,
    results: &Vec<ValueType>,
    is_final: bool,
    shared: bool,
    supertype_idxs: Vec<u32>,
) -> (r: Option<wasm_encoder::SubType>)
    ensures
        r is Some <==> (all_encodable_types(params@) && all_encodable_types(results@)),
{
    let params = params.iter().map(val_type_to).collect::<Option<Vec<_>>>()?;
    let results = results.iter().map(val_type_to).collect::<Option<Vec<_>>>()?;
    let inner = wasm_encoder::CompositeInnerType::Func(wasm_encoder::FuncType::new(params, results));
    let composite_type = wasm_encoder::CompositeType { inner, shared, descriptor: None, describes: None };
    Some(wasm_encoder::SubType { is_final, supertype_idxs, composite_type })
}

/// The key of a subtype: the encoding that `wasm_encoder` gives a type
/// section that holds this subtype alone.
pub uninterp spec fn key_of(ty: wasm_encoder::SubType) -> Seq<u8>;

/// The keys of a list of subtypes.
pub open spec fn keys_of(types: Seq<wasm_encoder::SubType>) -> Seq<Seq<u8>> {
    Seq::new(types.len(), |i: int| key_of(types[i]))
}

/// What the encoder makes of the member at position `offset` of the
/// recursion group that the binary reader finds between `start` and `end`,
/// with its indices renumbered: the key of the member, nothing where the
/// group has no member at that position, or why the reader cannot read
/// the group or the encoder refuses the member.
pub uninterp spec fn sub_type_written(
    data: Seq<u8>,
    start: int,
    end: int,
    offset: int,
    maps: IndexMaps,
) -> Result<Option<Seq<u8>>, Failure>;

/// Why the member at position `offset` of a recursion group cannot be
/// written, if it cannot: the error of the reader or of the encoder, or
/// the group has no member at that position.
pub open spec fn sub_type_refused(
    data: Seq<u8>,
    start: int,
    end: int,
    offset: int,
    maps: IndexMaps,
) -> Option<Failure> {
    match sub_type_written(data, start, end, offset, maps) {
        Ok(Some(_)) => None,
        Ok(None) => Some(Failure::InvalidCodeSectionSize),
        Err(e) => Some(e),
    }
}

/// `reencode::utils::sub_type` on the member at position `offset` of the
/// recursion group that the binary reader finds between `start` and `end`:
/// the member with its indices renumbered, nothing where the group has no
/// member at that position, or the error of the reader or the encoder.
/// This is what [`sub_type_written`] names.
#[verifier::external_body]
pub(crate) fn encode_member<T: Renumber>(
    data: &[u8],
    start: usize,
    end: usize,
    offset: u32,
    renumber: &T,
) -> (r: Result<Option<wasm_encoder::SubType>, Failure>)
    requires
        start <= end <= data.len(),
    ensures
        sub_type_written(data@, start as int, end as int, offset as int, renumber.maps()) == match r {
            Ok(Some(ty)) => Ok::<Option<Seq<u8>>, Failure>(Some(key_of(ty))),
            Ok(None) => Ok::<Option<Seq<u8>>, Failure>(None),
            Err(e) => Err::<Option<Seq<u8>>, Failure>(e),
        },
{
    let mut reader = wasmparser::BinaryReader::new(&data[start..end], start as u64);
    let mut a = Adapter { inner: renumber };
    let group: Result<wasmparser::RecGroup, _> = reader.read();
    match group.map(|g| g.into_types().nth(offset as usize)) {
        Ok(Some(ty)) => wasm_encoder::reencode::utils::sub_type(&mut a, ty).map(Some).map_err(failure_from),
        Ok(None) => Ok(None),
        Err(e) => Err(Failure::ParseError(decode_error_from(e))),
    }
}

/// The member at position `offset` of a recursion group with its indices
/// renumbered. A group that has no member at that position is an error.
pub fn reencode_sub_type<T: Renumber>(
    data: &[u8],
    start: usize,
    end: usize,
    offset: u32,
    renumber: &T,
) -> (r: Result<wasm_encoder::SubType, Failure>)
    requires
        start <= end <= data.len(),
    ensures
        match r {
            Ok(ty) => sub_type_written(
                data@,
                start as int,
                end as int,
                offset as int,
                renumber.maps(),
            ) == Ok::<Option<Seq<u8>>, Failure>(Some(key_of(ty))),
            Err(e) => sub_type_refused(
                data@,
                start as int,
                end as int,
                offset as int,
                renumber.maps(),
            ) == Some(e),
        },
{
    match encode_member(data, start, end, offset, renumber) {
        Ok(Some(ty)) => Ok(ty),
        Ok(None) => Err(Failure::InvalidCodeSectionSize),
        Err(e) => Err(e),
    }
}

/// The encoding that `wasm_encoder` gives a type section that holds this
/// subtype alone (`CoreTypeEncoder::subtype`, `Encode::encode`). The
/// encoder writes down every part of a subtype, so two subtypes have the
/// same encoding only if they are equal part for part.
#[verifier::external_body]
pub(crate) fn sub_type_key(ty: &wasm_encoder::SubType) -> (r: Vec<u8>)
    ensures
        r@ == key_of(*ty),
{
    let mut section = wasm_encoder::TypeSection::new();
    section.ty().subtype(ty);
    let mut key = Vec::new();
    wasm_encoder::Encode::encode(&section, &mut key);
    key
}

/// `CoreTypeEncoder::subtype`: adds a type of its own to the type section.
#[verifier::external_body]
pub(crate) fn push_type(builder: &mut Builder, ty: &wasm_encoder::SubType)
    requires
        old(builder).kind() == SectionKind::Types,
    ensures
        final(builder).kind() == old(builder).kind(),
        final(builder).held() == old(builder).held().push(Entry::Single(key_of(*ty))),
{
    if let Builder::Types(s) = builder {
        s.ty().subtype(ty);
    }
}

/// `CoreTypeEncoder::rec`: adds a recursion group to the type section.
#[verifier::external_body]
pub(crate) fn push_rec_group(builder: &mut Builder, group: Vec<wasm_encoder::SubType>)
    requires
        old(builder).kind() == SectionKind::Types,
    ensures
        final(builder).kind() == old(builder).kind(),
        final(builder).held() == old(builder).held().push(Entry::Group(keys_of(group@))),
{
    if let Builder::Types(s) = builder {
        s.ty().rec(group);
    }
}

/// What `reencode::utils::instruction` and `Encode::encode` make of an
/// instruction: its encoding with its indices renumbered, or why there
/// is none.
pub uninterp spec fn operator_encoded(op: wasmparser::Operator, maps: IndexMaps) -> Result<
    Seq<u8>,
    Failure,
>;

/// `reencode::utils::instruction` and `Encode::encode`: the encoding of an
/// instruction with its indices renumbered, which is what
/// [`operator_encoded`] names.
#[verifier::external_body]
pub(crate) fn encode_operator<T: Renumber>(op: &wasmparser::Operator, renumber: &T) -> (r: Result<
    Vec<u8>,
    Failure,
>)
    ensures
        match r {
            Ok(bytes) => operator_encoded(*op, renumber.maps()) == Ok::<Seq<u8>, Failure>(bytes@),
            Err(e) => operator_encoded(*op, renumber.maps()) == Err::<Seq<u8>, Failure>(e),
        },
{
    let mut a = Adapter { inner: renumber };
    match wasm_encoder::reencode::utils::instruction(&mut a, op.clone()) {
        Ok(instruction) => {
            let mut out = Vec::new();
            wasm_encoder::Encode::encode(&instruction, &mut out);
            Ok(out)
        },
        Err(e) => Err(failure_from(e)),
    }
}

/// Whether a value type has a counterpart in the encoder: every type has
/// one but a reference to a type that no index stands for.
pub open spec fn encodable(ty: ValueType) -> bool {
    !(ty matches ValueType::Ref(r) && r.heap_type is Canonical)
}

/// Whether every value type of a list has a counterpart in the encoder.
pub open spec fn all_encodable_types(list: Seq<ValueType>) -> bool {
    forall|i: int| 0 <= i < list.len() ==> encodable(#[trigger] list[i])
}

/// The bytes with which `wasm_encoder::Function::new` begins a function
/// body that declares these locals.
pub uninterp spec fn locals_written(locals: Seq<(u32, ValueType)>) -> Seq<u8>;

/// The bytes that `wasm_encoder::Function::instruction` adds to a function
/// body for an instruction that the weaver writes itself.
pub uninterp spec fn instr_written(instr: Instr) -> Seq<u8>;

/// Whether an instruction steers control: `return`, `br`, `call`, `block`,
/// `end`.
pub open spec fn steers(instr: Instr) -> bool {
    instr is Return || instr is Br || instr is Call || instr is Block || instr is End
}

/// Whether an instruction reads or writes a local or a table: `local.get`,
/// `local.set`, `local.tee`, `table.get`, `extern.convert_any`.
pub open spec fn accesses(instr: Instr) -> bool {
    instr is LocalGet || instr is LocalSet || instr is LocalTee || instr is TableGet
        || instr is ExternConvertAny
}

/// The bytes that an instruction adds to a function body: its own bytes
/// where it is encoded already, what the encoder writes for it otherwise.
pub open spec fn instr_bytes(instr: Instr) -> Seq<u8> {
    match instr {
        Instr::Raw(bytes) => bytes@,
        _ => instr_written(instr),
    }
}

/// `wasm_encoder::Function::new`: a function with these locals and no
/// instructions yet. Nothing comes back where the type of a local has no
/// counterpart in the encoder.
#[verifier::external_body]
pub(crate) fn function_new(locals: &Vec<(u32, ValueType)>) -> (r: Option<wasm_encoder::Function>)
    ensures
        r is Some <==> forall|i: int| 0 <= i < locals@.len() ==> encodable(#[trigger] locals@[i].1),
        r matches Some(function) ==> function_bytes(function) == locals_written(locals@),
{
    let locals = locals.iter().map(|(n, t)| val_type_to(t).map(|t| (*n, t)));
    Some(wasm_encoder::Function::new(locals.collect::<Option<Vec<_>>>()?))
}

/// `wasm_encoder::Function::instruction` with an instruction that steers
/// control: `return`, `br`, `call`, `block` with a function type, `end`.
/// Any other instruction adds nothing.
#[verifier::external_body]
fn push_control(function: &mut wasm_encoder::Function, instr: &Instr)
    ensures
        function_bytes(*final(function)) == if steers(*instr) {
            function_bytes(*old(function)) + instr_written(*instr)
        } else {
            function_bytes(*old(function))
        },
{
    let instruction = match instr {
        Instr::Return => wasm_encoder::Instruction::Return,
        Instr::Br(depth) => wasm_encoder::Instruction::Br(*depth),
        Instr::Call(f) => wasm_encoder::Instruction::Call(*f),
        Instr::Block(ty) => wasm_encoder::Instruction::Block(wasm_encoder::BlockType::FunctionType(*ty)),
        Instr::End => wasm_encoder::Instruction::End,
        _ => return,
    };
    function.instruction(&instruction);
}

/// `wasm_encoder::Function::instruction` with an instruction that reads
/// or writes a local or a table: `local.get`, `local.set`, `local.tee`,
/// `table.get`, `extern.convert_any`. Any other instruction adds nothing.
#[verifier::external_body]
fn push_access(function: &mut wasm_encoder::Function, instr: &Instr)
    ensures
        function_bytes(*final(function)) == if accesses(*instr) {
            function_bytes(*old(function)) + instr_written(*instr)
        } else {
            function_bytes(*old(function))
        },
{
    let instruction = match instr {
        Instr::LocalGet(i) => wasm_encoder::Instruction::LocalGet(*i),
        Instr::LocalSet(i) => wasm_encoder::Instruction::LocalSet(*i),
        Instr::LocalTee(i) => wasm_encoder::Instruction::LocalTee(*i),
        Instr::TableGet(t) => wasm_encoder::Instruction::TableGet(*t),
        Instr::ExternConvertAny => wasm_encoder::Instruction::ExternConvertAny,
        _ => return,
    };
    function.instruction(&instruction);
}

/// `wasm_encoder::Function::raw`: adds an instruction that is encoded
/// already to a function.
#[verifier::external_body]
fn push_raw(function: &mut wasm_encoder::Function, bytes: &Vec<u8>)
    ensures
        function_bytes(*final(function)) == function_bytes(*old(function)) + bytes@,
{
    function.raw(bytes.iter().copied());
}

/// Adds an instruction to a function.
pub fn function_push(function: &mut wasm_encoder::Function, instr: &Instr)
    ensures
        function_bytes(*final(function)) == function_bytes(*old(function)) + instr_bytes(*instr),
{
    match instr {
        Instr::Return => push_control(function, instr),
        Instr::Br(_) => push_control(function, instr),
        Instr::Call(_) => push_control(function, instr),
        Instr::Block(_) => push_control(function, instr),
        Instr::End => push_control(function, instr),
        Instr::LocalGet(_) => push_access(function, instr),
        Instr::LocalSet(_) => push_access(function, instr),
        Instr::LocalTee(_) => push_access(function, instr),
        Instr::TableGet(_) => push_access(function, instr),
        Instr::ExternConvertAny => push_access(function, instr),
        Instr::Raw(bytes) => push_raw(function, bytes),
    }
}

/// `CodeSection::function`: adds a function body to the code section.
#[verifier::external_body]
pub(crate) fn push_code(builder: &mut Builder, function: &wasm_encoder::Function)
    requires
        old(builder).kind() == SectionKind::Code,
    ensures
        final(builder).kind() == old(builder).kind(),
        final(builder).held() == old(builder).held().push(Entry::Body(function_bytes(*function))),
{
    if let Builder::Code(s) = builder {
        s.function(function);
    }
}

/// The identifiers of the sections of a module, in the order in which they
/// were added.
pub uninterp spec fn module_sections(module: wasm_encoder::Module) -> Seq<u8>;

/// The bytes of a module: what `wasm_encoder::Module::finish` returns for
/// it.
pub uninterp spec fn module_bytes(module: wasm_encoder::Module) -> Seq<u8>;

/// The eight bytes that every module starts with.
pub open spec fn header() -> Seq<u8> {
    seq![0x00u8, 0x61u8, 0x73u8, 0x6du8, 0x01u8, 0x00u8, 0x00u8, 0x00u8]
}

/// `wasm_encoder::Module::new`: a module that holds the header and no
/// section.
#[verifier::external_body]
pub fn module_new() -> (r: wasm_encoder::Module)
    ensures
        module_sections(r) == Seq::<u8>::empty(),
        module_held(r) == Seq::<Part>::empty(),
        module_bytes(r) == header(),
{
    wasm_encoder::Module::new()
}

/// `wasm_encoder::Module::section`: adds a section to a module.
#[verifier::external_body]
pub(crate) fn module_append(module: &mut wasm_encoder::Module, builder: &Builder)
    ensures
        module_sections(*final(module)) == module_sections(*old(module)).push(builder.kind().id()),
        module_held(*final(module)) == module_held(*old(module)).push(
            Part::Section(builder.kind().id(), builder.held()),
        ),
{
    let _ = match builder {
        Builder::Types(s) => module.section(s),
        Builder::Imports(s) => module.section(s),
        Builder::Functions(s) => module.section(s),
        Builder::Tables(s) => module.section(s),
        Builder::Memories(s) => module.section(s),
        Builder::Tags(s) => module.section(s),
        Builder::Globals(s) => module.section(s),
        Builder::Exports(s) => module.section(s),
        Builder::Elements(s) => module.section(s),
        Builder::Code(s) => module.section(s),
        Builder::Data(s) => module.section(s),
    };
}

/// `wasm_encoder::Module::section` with a `StartSection`, whose identifier
/// is 8.
#[verifier::external_body]
pub(crate) fn module_append_start(module: &mut wasm_encoder::Module, function_index: u32)
    ensures
        module_sections(*final(module)) == module_sections(*old(module)).push(8u8),
        module_held(*final(module)) == module_held(*old(module)).push(Part::Start(function_index)),
{
    module.section(&wasm_encoder::StartSection { function_index });
}

/// `wasm_encoder::Module::section` with a `DataCountSection`, whose
/// identifier is 12.
#[verifier::external_body]
pub(crate) fn module_append_data_count(module: &mut wasm_encoder::Module, count: u32)
    ensures
        module_sections(*final(module)) == module_sections(*old(module)).push(12u8),
        module_held(*final(module)) == module_held(*old(module)).push(Part::DataCount(count)),
{
    module.section(&wasm_encoder::DataCountSection { count });
}

/// `wasm_encoder::Module::finish`: the bytes of a module, which are what
/// [`module_bytes`] names.
#[verifier::external_body]
pub fn module_finish(module: wasm_encoder::Module) -> (r: Vec<u8>)
    ensures
        r@ == module_bytes(module),
{
    module.finish()
}

} // verus!
