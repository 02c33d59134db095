//! The sections of the module that the weaver puts together, and the order
//! in which they are written.

use crate::encoder::{
    entity_written, export_kind_of, function_bytes, instr_bytes, item_written, locals_written,
    module_held, Entry, Part,
    builder_new, encodable, entity_refused, function_new, item_refused, function_push, module_append,
    module_append_data_count, module_append_start, module_sections, push_code, push_data,
    push_element, push_export, push_function, push_global, push_import, push_memory, push_table,
    push_tag, Builder, Instr, SectionKind,
};
use crate::error::{Failure, ReadError};
use crate::parse::{Export, Span};
use crate::renumber::Renumber;
use crate::types::ValueType;
use vstd::prelude::*;

verus! {

/// An import of the output.
#[derive(Debug)]
pub struct ImportOut {
    pub module: String,
    pub name: String,
    /// The encoded type of the imported item, with the indices of the
    /// output.
    pub entity: Vec<u8>,
}

/// A function body of the output.
#[derive(Debug)]
pub struct FunctionOut {
    /// The locals that the body declares, each with its count.
    pub locals: Vec<(u32, ValueType)>,
    pub body: Vec<Instr>,
}

/// A section whose entries the encoder took in one by one.
pub struct ItemSection {
    pub builder: Builder,
    /// How many entries the section took in.
    pub count: u32,
}

impl ItemSection {
    /// The section is one of the given kind.
    pub open spec fn is(&self, kind: SectionKind) -> bool {
        self.builder.kind() == kind
    }

    /// The entries that the section holds, in the order in which they
    /// were added.
    pub open spec fn held(&self) -> Seq<Entry> {
        self.builder.held()
    }

    /// An empty section of the given kind.
    pub fn new(kind: SectionKind) -> (r: Self)
        ensures
            r.is(kind),
            r.count == 0,
            r.held() == Seq::<Entry>::empty(),
    {
        ItemSection { builder: builder_new(kind), count: 0 }
    }

    /// Whether the section is one whose entries hold indices of tables,
    /// globals, functions or types.
    pub open spec fn renumbered(&self) -> bool {
        self.is(SectionKind::Tables) || self.is(SectionKind::Globals) || self.is(
            SectionKind::Elements,
        ) || self.is(SectionKind::Data)
    }

    /// Hands the entry that stands between `start` and `end` of the input
    /// to the encoder, which adds it to the section with its indices
    /// renumbered. On an error the section counts no entry more.
    pub fn add<T: Renumber>(&mut self, data: &[u8], span: Span, renumber: &T) -> (r: Result<
        (),
        Failure,
    >)
        requires
            span.within(data@.len()),
            old(self).renumbered() || old(self).is(SectionKind::Memories) || old(self).is(
                SectionKind::Tags,
            ),
        ensures
            final(self).builder.kind() == old(self).builder.kind(),
            match r {
                Ok(()) => final(self).count == old(self).count + 1,
                Err(_) => final(self).count == old(self).count,
            },
            old(self).count == u32::MAX ==> {
                &&& r == Err::<(), Failure>(Failure::Read(ReadError::Malformed))
                &&& *final(self) == *old(self)
            },
            old(self).count < u32::MAX ==> match item_written(
                old(self).builder.kind(),
                data@,
                span.start as int,
                span.end as int,
                renumber.maps(),
            ) {
                Ok(bytes) => r is Ok && final(self).held() == old(self).held().push(
                    Entry::Item(bytes),
                ),
                Err(e) => r == Err::<(), Failure>(e),
            },
            old(self).count < u32::MAX ==> match item_refused(
                old(self).builder.kind(),
                data@,
                span.start as int,
                span.end as int,
                renumber.maps(),
            ) {
                Some(e) => r == Err::<(), Failure>(e),
                None => r is Ok,
            },
            r is Err ==> final(self).held() == old(self).held(),
    {
        if self.count == u32::MAX {
            return Err(Failure::Read(ReadError::Malformed));
        }
        match self.builder {
            Builder::Memories(_) => push_memory(&mut self.builder, data, span.start, span.end)?,
            Builder::Tags(_) => push_tag(&mut self.builder, data, span.start, span.end, renumber)?,
            Builder::Tables(_) => push_table(&mut self.builder, data, span.start, span.end, renumber)?,
            Builder::Globals(_) => push_global(
                &mut self.builder,
                data,
                span.start,
                span.end,
                renumber,
            )?,
            Builder::Elements(_) => push_element(
                &mut self.builder,
                data,
                span.start,
                span.end,
                renumber,
            )?,
            Builder::Data(_) => push_data(&mut self.builder, data, span.start, span.end, renumber)?,
            _ => {
                assert(false);
            },
        }
        self.count = self.count + 1;
        Ok(())
    }
}

/// Whether an optional section, if it is there, is one of the given kind.
pub open spec fn section_is(section: Option<ItemSection>, kind: SectionKind) -> bool {
    match section {
        Some(s) => s.is(kind),
        None => true,
    }
}

/// The sections of the output, but for the type section. A section that is
/// `None` is left out of the module.
pub struct Sections {
    pub imports: Option<Vec<ImportOut>>,
    /// The type index of each function that the output defines.
    pub functions: Option<Vec<u32>>,
    pub tables: Option<ItemSection>,
    pub memories: Option<ItemSection>,
    pub tags: Option<ItemSection>,
    pub globals: Option<ItemSection>,
    pub exports: Option<Vec<Export>>,
    pub start: Option<u32>,
    pub elements: Option<ItemSection>,
    pub data_count: Option<u32>,
    pub data: Option<ItemSection>,
    pub code: Option<Vec<FunctionOut>>,
}

/// Joining byte strings does not depend on how they are grouped.
pub proof fn lemma_concat(a: Seq<u8>, b: Seq<u8>, c: Seq<u8>)
    ensures
        (a + b) + c == a + (b + c),
{
    assert((a + b) + c =~= a + (b + c));
}

/// The identifier `id` if the section is there, nothing otherwise.
pub open spec fn id_if(present: bool, id: u8) -> Seq<u8> {
    if present {
        seq![id]
    } else {
        Seq::empty()
    }
}

/// The entries of a section, if it is there.
pub open spec fn entries_of(section: Option<Builder>) -> Option<Seq<Entry>> {
    match section {
        Some(b) => Some(b.held()),
        None => None,
    }
}

/// The part `part` if it is there, nothing otherwise.
pub open spec fn part_if(present: bool, part: Part) -> Seq<Part> {
    if present {
        seq![part]
    } else {
        Seq::empty()
    }
}

/// The entries of a function section that declares these functions.
pub open spec fn declared_entries(functions: Seq<u32>) -> Seq<Entry> {
    Seq::new(functions.len(), |i: int| Entry::Declared(functions[i]))
}

/// The entries of an export section that lists these exports, each with
/// the kind that the encoder exports it as.
pub open spec fn exported_entries(exports: Seq<Export>) -> Seq<Entry> {
    Seq::new(
        exports.len(),
        |i: int| Entry::Exported(exports[i].name@, export_kind_of(exports[i].kind), exports[i].index),
    )
}

/// The entries of an import section that lists these imports, each with
/// its type as the encoder writes it.
pub open spec fn imported_entries(imports: Seq<ImportOut>) -> Seq<Entry> {
    Seq::new(
        imports.len(),
        |i: int|
            Entry::Imported(
                imports[i].module@,
                imports[i].name@,
                entity_written(imports[i].entity@)->Ok_0,
            ),
    )
}

/// The bytes of the first `count` instructions of a list, one behind the
/// other.
pub open spec fn instrs_bytes(instrs: Seq<Instr>, count: int) -> Seq<u8>
    decreases count,
{
    if count <= 0 {
        Seq::empty()
    } else {
        instrs_bytes(instrs, count - 1) + instr_bytes(instrs[count - 1])
    }
}

/// The bytes of a function body: what the encoder writes for its locals,
/// and then its instructions.
pub open spec fn body_bytes(body: FunctionOut) -> Seq<u8> {
    locals_written(body.locals@) + instrs_bytes(body.body@, body.body@.len() as int)
}

/// The entries of a code section that holds these bodies.
pub open spec fn body_entries(code: Seq<FunctionOut>) -> Seq<Entry> {
    Seq::new(code.len(), |i: int| Entry::Body(body_bytes(code[i])))
}

/// The entries of a section that the encoder filled, or none where the
/// section is not there.
pub open spec fn item_entries(section: Option<ItemSection>) -> Seq<Entry> {
    match section {
        Some(s) => s.held(),
        None => Seq::empty(),
    }
}

/// The imports of an import section, or none where the section is not
/// there.
pub open spec fn imported_list(imports: Option<Vec<ImportOut>>) -> Seq<ImportOut> {
    match imports {
        Some(list) => list@,
        None => Seq::empty(),
    }
}

/// Why the encoder refuses the first of the first `count` imports that it
/// refuses, if it refuses one.
pub open spec fn import_failure(imports: Seq<ImportOut>, count: int) -> Option<Failure>
    decreases count,
{
    if count <= 0 {
        None
    } else {
        match import_failure(imports, count - 1) {
            Some(e) => Some(e),
            None => entity_refused(imports[count - 1].entity@),
        }
    }
}

/// An import that is refused among the first `a` is refused among any
/// more.
pub proof fn lemma_import_failure_stays(imports: Seq<ImportOut>, a: int, b: int)
    requires
        0 <= a <= b,
        import_failure(imports, a) is Some,
    ensures
        import_failure(imports, b) == import_failure(imports, a),
    decreases b,
{
    if a < b {
        lemma_import_failure_stays(imports, a, b - 1);
    }
}

/// Whether every local of the first `count` bodies is of a type that the
/// encoder has a counterpart for.
pub open spec fn all_encodable(code: Seq<FunctionOut>, count: int) -> bool {
    forall|i: int, k: int|
        0 <= i < count && 0 <= k < code[i].locals@.len() ==> encodable(
            #[trigger] code[i].locals@[k].1,
        )
}

impl Sections {
    /// Every section that the encoder fills is of the kind that its place
    /// says.
    pub open spec fn wf(&self) -> bool {
        &&& section_is(self.tables, SectionKind::Tables)
        &&& section_is(self.memories, SectionKind::Memories)
        &&& section_is(self.tags, SectionKind::Tags)
        &&& section_is(self.globals, SectionKind::Globals)
        &&& section_is(self.elements, SectionKind::Elements)
        &&& section_is(self.data, SectionKind::Data)
    }

    /// The identifiers of the sections of the module that these sections
    /// make, in the order in which they are written: types, if there is
    /// a type section, then imports, functions, tables, memories, tags,
    /// globals, exports, start, elements, data count, code, data. A
    /// section that is not there has no identifier.
    pub open spec fn ids(&self, typed: bool) -> Seq<u8> {
        id_if(typed, 1) + id_if(self.imports is Some, 2) + id_if(self.functions is Some, 3) + id_if(
            self.tables is Some,
            4,
        ) + id_if(self.memories is Some, 5) + id_if(self.tags is Some, 13) + id_if(
            self.globals is Some,
            6,
        ) + id_if(self.exports is Some, 7) + id_if(self.start is Some, 8) + id_if(
            self.elements is Some,
            9,
        ) + id_if(self.data_count is Some, 12) + id_if(self.code is Some, 10) + id_if(
            self.data is Some,
            11,
        )
    }

    /// No section at all.
    pub fn new() -> (r: Self)
        ensures
            r.wf(),
            r.imports is None,
            r.functions is None,
            r.tables is None,
            r.memories is None,
            r.tags is None,
            r.globals is None,
            r.exports is None,
            r.start is None,
            r.elements is None,
            r.data_count is None,
            r.data is None,
            r.code is None,
    {
        Sections {
            imports: None,
            functions: None,
            tables: None,
            memories: None,
            tags: None,
            globals: None,
            exports: None,
            start: None,
            elements: None,
            data_count: None,
            data: None,
            code: None,
        }
    }

    /// Hands the imports to the encoder. The first import that the encoder
    /// refuses is an error.
    fn encode_imports(imports: &Vec<ImportOut>) -> (r: Result<Builder, Failure>)
        ensures
            r matches Ok(b) ==> b.kind() == SectionKind::Imports && b.held() == imported_entries(
                imports@,
            ),
            match import_failure(imports@, imports@.len() as int) {
                Some(e) => r matches Err(found) && found == e,
                None => r is Ok,
            },
    {
        let mut builder = builder_new(SectionKind::Imports);
        let mut i: usize = 0;
        assert(builder.held() =~= imported_entries(imports@.subrange(0, 0)));
        while i < imports.len()
            invariant
                i <= imports.len(),
                builder.kind() == SectionKind::Imports,
                import_failure(imports@, i as int) is None,
                builder.held() == imported_entries(imports@.subrange(0, i as int)),
            decreases imports.len() - i,
        {
            let import = &imports[i];
            match push_import(
                &mut builder,
                import.module.as_str(),
                import.name.as_str(),
                import.entity.as_slice(),
            ) {
                Ok(()) => {},
                Err(e) => {
                    proof {
                        assert(import_failure(imports@, i + 1) == Some(e));
                        lemma_import_failure_stays(imports@, i + 1, imports@.len() as int);
                    }
                    return Err(e);
                },
            }
            assert(builder.held() =~= imported_entries(imports@.subrange(0, i + 1)));
            i = i + 1;
        }
        assert(imports@.subrange(0, i as int) =~= imports@);
        Ok(builder)
    }

    /// Hands the function declarations to the encoder.
    fn encode_functions(functions: &Vec<u32>) -> (r: Builder)
        ensures
            r.kind() == SectionKind::Functions,
            r.held() == declared_entries(functions@),
    {
        let mut builder = builder_new(SectionKind::Functions);
        let mut i: usize = 0;
        assert(builder.held() =~= declared_entries(functions@.subrange(0, 0)));
        while i < functions.len()
            invariant
                i <= functions.len(),
                builder.kind() == SectionKind::Functions,
                builder.held() == declared_entries(functions@.subrange(0, i as int)),
            decreases functions.len() - i,
        {
            push_function(&mut builder, functions[i]);
            assert(builder.held() =~= declared_entries(functions@.subrange(0, i + 1)));
            i = i + 1;
        }
        assert(functions@.subrange(0, i as int) =~= functions@);
        builder
    }

    /// Hands the exports to the encoder.
    fn encode_exports(exports: &Vec<Export>) -> (r: Builder)
        ensures
            r.kind() == SectionKind::Exports,
            r.held() == exported_entries(exports@),
    {
        let mut builder = builder_new(SectionKind::Exports);
        let mut i: usize = 0;
        assert(builder.held() =~= exported_entries(exports@.subrange(0, 0)));
        while i < exports.len()
            invariant
                i <= exports.len(),
                builder.kind() == SectionKind::Exports,
                builder.held() == exported_entries(exports@.subrange(0, i as int)),
            decreases exports.len() - i,
        {
            let export = &exports[i];
            push_export(&mut builder, export.name.as_str(), export.kind, export.index);
            assert(builder.held() =~= exported_entries(exports@.subrange(0, i + 1)));
            i = i + 1;
        }
        assert(exports@.subrange(0, i as int) =~= exports@);
        builder
    }

    /// Hands the function bodies to the encoder. A local of a type that
    /// the encoder has no counterpart for is an error.
    fn encode_code(code: &Vec<FunctionOut>) -> (r: Result<Builder, Failure>)
        ensures
            r matches Ok(b) ==> b.kind() == SectionKind::Code && b.held() == body_entries(code@),
            if all_encodable(code@, code@.len() as int) {
                r is Ok
            } else {
                r matches Err(Failure::CanonicalizedHeapTypeReference)
            },
    {
        let mut builder = builder_new(SectionKind::Code);
        let mut i: usize = 0;
        assert(builder.held() =~= body_entries(code@.subrange(0, 0)));
        while i < code.len()
            invariant
                i <= code.len(),
                builder.kind() == SectionKind::Code,
                all_encodable(code@, i as int),
                builder.held() == body_entries(code@.subrange(0, i as int)),
            decreases code.len() - i,
        {
            let body = &code[i];
            let mut function = match function_new(&body.locals) {
                Some(function) => function,
                None => {
                    return Err(Failure::CanonicalizedHeapTypeReference);
                },
            };
            let mut k: usize = 0;
            assert(function_bytes(function) =~= locals_written(body.locals@) + instrs_bytes(
                body.body@,
                0,
            ));
            while k < body.body.len()
                invariant
                    k <= body.body.len(),
                    function_bytes(function) == locals_written(body.locals@) + instrs_bytes(
                        body.body@,
                        k as int,
                    ),
                decreases body.body.len() - k,
            {
                function_push(&mut function, &body.body[k]);
                assert(function_bytes(function) =~= locals_written(body.locals@) + instrs_bytes(
                    body.body@,
                    k + 1,
                ));
                k = k + 1;
            }
            push_code(&mut builder, &function);
            assert(builder.held() =~= body_entries(code@.subrange(0, i + 1)));
            i = i + 1;
        }
        assert(code@.subrange(0, i as int) =~= code@);
        Ok(builder)
    }

    /// Adds a section to a module if it is there.
    fn append(module: &mut wasm_encoder::Module, section: &Option<Builder>, Ghost(id): Ghost<u8>)
        requires
            section matches Some(b) ==> b.kind().id() == id,
        ensures
            module_held(*final(module)) == module_held(*old(module)) + part_if(
                section is Some,
                Part::Section(id, section->0.held()),
            ),
            module_sections(*final(module)) == module_sections(*old(module)) + id_if(
                section is Some,
                id,
            ),
            section is None ==> *final(module) == *old(module),
    {
        match section {
            Some(builder) => {
                module_append(module, builder);
                assert(module_sections(*old(module)).push(id) == module_sections(*old(module))
                    + seq![id]);
                assert(module_held(*old(module)).push(Part::Section(id, builder.held()))
                    =~= module_held(*old(module)) + seq![Part::Section(id, builder.held())]);
            },
            None => {
                assert(module_sections(*old(module)) == module_sections(*old(module))
                    + Seq::<u8>::empty());
                assert(module_held(*old(module)) =~= module_held(*old(module))
                    + Seq::<Part>::empty());
            },
        }
    }

    /// Adds a section that the encoder filled to a module if it is there.
    fn append_items(
        module: &mut wasm_encoder::Module,
        section: &Option<ItemSection>,
        Ghost(id): Ghost<u8>,
    )
        requires
            section matches Some(s) ==> s.builder.kind().id() == id,
        ensures
            module_held(*final(module)) == module_held(*old(module)) + part_if(
                section is Some,
                Part::Section(id, section->0.held()),
            ),
            module_sections(*final(module)) == module_sections(*old(module)) + id_if(
                section is Some,
                id,
            ),
            section is None ==> *final(module) == *old(module),
    {
        match section {
            Some(items) => {
                module_append(module, &items.builder);
                assert(module_sections(*old(module)).push(id) == module_sections(*old(module))
                    + seq![id]);
                assert(module_held(*old(module)).push(Part::Section(id, items.held()))
                    =~= module_held(*old(module)) + seq![Part::Section(id, items.held())]);
            },
            None => {
                assert(module_sections(*old(module)) == module_sections(*old(module))
                    + Seq::<u8>::empty());
                assert(module_held(*old(module)) =~= module_held(*old(module))
                    + Seq::<Part>::empty());
            },
        }
    }

    /// Adds the start section to a module if there is a start function.
    fn append_start(module: &mut wasm_encoder::Module, start: Option<u32>)
        ensures
            module_sections(*final(module)) == module_sections(*old(module)) + id_if(
                start is Some,
                8,
            ),
            start is None ==> *final(module) == *old(module),
            module_held(*final(module)) == module_held(*old(module)) + part_if(
                start is Some,
                Part::Start(start->0),
            ),
    {
        match start {
            Some(function_index) => {
                module_append_start(module, function_index);
                assert(module_sections(*old(module)).push(8u8) == module_sections(*old(module))
                    + seq![8u8]);
                assert(module_held(*old(module)).push(Part::Start(function_index))
                    =~= module_held(*old(module)) + seq![Part::Start(function_index)]);
            },
            None => {
                assert(module_sections(*old(module)) == module_sections(*old(module))
                    + Seq::<u8>::empty());
                assert(module_held(*old(module)) =~= module_held(*old(module))
                    + Seq::<Part>::empty());
            },
        }
    }

    /// Adds the data count section to a module if there is a count.
    fn append_data_count(module: &mut wasm_encoder::Module, count: Option<u32>)
        ensures
            module_sections(*final(module)) == module_sections(*old(module)) + id_if(
                count is Some,
                12,
            ),
            count is None ==> *final(module) == *old(module),
            module_held(*final(module)) == module_held(*old(module)) + part_if(
                count is Some,
                Part::DataCount(count->0),
            ),
    {
        match count {
            Some(count) => {
                module_append_data_count(module, count);
                assert(module_held(*old(module)).push(Part::DataCount(count)) =~= module_held(
                    *old(module),
                ) + seq![Part::DataCount(count)]);
                assert(module_sections(*old(module)).push(12u8) == module_sections(*old(module))
                    + seq![12u8]);
            },
            None => {
                assert(module_sections(*old(module)) == module_sections(*old(module))
                    + Seq::<u8>::empty());
                assert(module_held(*old(module)) =~= module_held(*old(module))
                    + Seq::<Part>::empty());
            },
        }
    }

    /// Why the encoder refuses the sections, if it does: because of the
    /// first import whose type it refuses, or else because a body has a
    /// local of a type that it has no counterpart for.
    pub open spec fn refused(&self) -> Option<Failure> {
        let imports = imported_list(self.imports);
        match import_failure(imports, imports.len() as int) {
            Some(e) => Some(e),
            None => match self.code {
                Some(code) => if all_encodable(code@, code@.len() as int) {
                    None
                } else {
                    Some(Failure::CanonicalizedHeapTypeReference)
                },
                None => None,
            },
        }
    }

    /// The parts of a module that holds `start` and then these sections:
    /// the type section with the entries `types`, if it is there, then
    /// the imports, each with its type as the encoder writes it, the
    /// function declarations, the tables, memories, tags and globals as
    /// the encoder took them, the exports, the start function, the
    /// element segments, the count of data segments, the bodies, each as
    /// the bytes of its locals and instructions, and the data segments. A
    /// section that is not there is left out.
    pub open spec fn laid(&self, start: Seq<Part>, types: Option<Seq<Entry>>) -> Seq<Part> {
        start + part_if(types is Some, Part::Section(1, types->0)) + part_if(
            self.imports is Some,
            Part::Section(2, imported_entries(imported_list(self.imports))),
        ) + part_if(
            self.functions is Some,
            Part::Section(3, declared_entries(self.functions->0@)),
        ) + part_if(self.tables is Some, Part::Section(4, item_entries(self.tables))) + part_if(
            self.memories is Some,
            Part::Section(5, item_entries(self.memories)),
        ) + part_if(self.tags is Some, Part::Section(13, item_entries(self.tags))) + part_if(
            self.globals is Some,
            Part::Section(6, item_entries(self.globals)),
        ) + part_if(
            self.exports is Some,
            Part::Section(7, exported_entries(self.exports->0@)),
        ) + part_if(self.start is Some, Part::Start(self.start->0)) + part_if(
            self.elements is Some,
            Part::Section(9, item_entries(self.elements)),
        ) + part_if(self.data_count is Some, Part::DataCount(self.data_count->0)) + part_if(
            self.code is Some,
            Part::Section(10, body_entries(self.code->0@)),
        ) + part_if(self.data is Some, Part::Section(11, item_entries(self.data)))
    }

    /// Adds the sections to a module, in the order of the binary format:
    /// those that the encoder filled as they are, and the others as
    /// `imports`, `functions`, `exports` and `code` hold them.
    #[verifier::rlimit(80)]
    #[verifier::spinoff_prover]
    fn lay(
        &self,
        module: &mut wasm_encoder::Module,
        types: &Option<Builder>,
        imports: &Option<Builder>,
        functions: &Option<Builder>,
        exports: &Option<Builder>,
        code: &Option<Builder>,
    )
        requires
            self.wf(),
            types matches Some(b) ==> b.kind() == SectionKind::Types,
            match imports {
                Some(b) => self.imports is Some && b.kind() == SectionKind::Imports && b.held()
                    == imported_entries(imported_list(self.imports)),
                None => self.imports is None,
            },
            match functions {
                Some(b) => self.functions is Some && b.kind() == SectionKind::Functions && b.held()
                    == declared_entries(self.functions->0@),
                None => self.functions is None,
            },
            match exports {
                Some(b) => self.exports is Some && b.kind() == SectionKind::Exports && b.held()
                    == exported_entries(self.exports->0@),
                None => self.exports is None,
            },
            match code {
                Some(b) => self.code is Some && b.kind() == SectionKind::Code && b.held()
                    == body_entries(self.code->0@),
                None => self.code is None,
            },
        ensures
            module_sections(*final(module)) == self.ids_from(
                module_sections(*old(module)),
                types is Some,
            ),
            module_held(*final(module)) == self.laid(module_held(*old(module)), entries_of(*types)),
            types is None && self.holds_nothing() ==> *final(module) == *old(module),
    {
        let ghost start = module_sections(*module);
        let ghost h0 = module_held(*module);
        let ghost typed = entries_of(*types);
        Self::append(module, types, Ghost(1u8));
        let ghost h1 = module_held(*module);
        assert(h1 == h0 + part_if(typed is Some, Part::Section(1, typed->0)));
        Self::append(module, imports, Ghost(2u8));
        let ghost h2 = module_held(*module);
        assert(h2 == h1 + part_if(
            self.imports is Some,
            Part::Section(2, imported_entries(imported_list(self.imports))),
        ));
        Self::append(module, functions, Ghost(3u8));
        let ghost h3 = module_held(*module);
        assert(h3 == h2 + part_if(
            self.functions is Some,
            Part::Section(3, declared_entries(self.functions->0@)),
        ));
        Self::append_items(module, &self.tables, Ghost(4u8));
        let ghost h4 = module_held(*module);
        assert(h4 == h3 + part_if(self.tables is Some, Part::Section(4, item_entries(self.tables))));
        Self::append_items(module, &self.memories, Ghost(5u8));
        let ghost h5 = module_held(*module);
        assert(h5 == h4 + part_if(
            self.memories is Some,
            Part::Section(5, item_entries(self.memories)),
        ));
        Self::append_items(module, &self.tags, Ghost(13u8));
        let ghost h6 = module_held(*module);
        assert(h6 == h5 + part_if(self.tags is Some, Part::Section(13, item_entries(self.tags))));
        Self::append_items(module, &self.globals, Ghost(6u8));
        let ghost h7 = module_held(*module);
        assert(h7 == h6 + part_if(
            self.globals is Some,
            Part::Section(6, item_entries(self.globals)),
        ));
        Self::append(module, exports, Ghost(7u8));
        let ghost h8 = module_held(*module);
        assert(h8 == h7 + part_if(
            self.exports is Some,
            Part::Section(7, exported_entries(self.exports->0@)),
        ));
        Self::append_start(module, self.start);
        let ghost h9 = module_held(*module);
        Self::append_items(module, &self.elements, Ghost(9u8));
        let ghost h10 = module_held(*module);
        assert(h10 == h9 + part_if(
            self.elements is Some,
            Part::Section(9, item_entries(self.elements)),
        ));
        Self::append_data_count(module, self.data_count);
        let ghost h11 = module_held(*module);
        Self::append(module, code, Ghost(10u8));
        let ghost h12 = module_held(*module);
        assert(h12 == h11 + part_if(
            self.code is Some,
            Part::Section(10, body_entries(self.code->0@)),
        ));
        Self::append_items(module, &self.data, Ghost(11u8));
        let ghost h13 = module_held(*module);
        assert(h13 == h12 + part_if(self.data is Some, Part::Section(11, item_entries(self.data))));
        assert(h13 == self.laid(h0, typed));
    }

    /// The identifiers of the sections behind those of `start`.
    pub open spec fn ids_from(&self, start: Seq<u8>, typed: bool) -> Seq<u8> {
        start + id_if(typed, 1) + id_if(self.imports is Some, 2) + id_if(
            self.functions is Some,
            3,
        ) + id_if(self.tables is Some, 4) + id_if(self.memories is Some, 5) + id_if(
            self.tags is Some,
            13,
        ) + id_if(self.globals is Some, 6) + id_if(self.exports is Some, 7) + id_if(
            self.start is Some,
            8,
        ) + id_if(self.elements is Some, 9) + id_if(self.data_count is Some, 12) + id_if(
            self.code is Some,
            10,
        ) + id_if(self.data is Some, 11)
    }

    /// The identifiers behind those of `start` are those of `start` and
    /// then the identifiers of the sections.
    pub proof fn lemma_ids_from(&self, start: Seq<u8>, typed: bool)
        ensures
            self.ids_from(start, typed) == start + self.ids(typed),
    {
        let id0 = id_if(typed, 1);
        let id1 = id_if(self.imports is Some, 2);
        let id2 = id_if(self.functions is Some, 3);
        let id3 = id_if(self.tables is Some, 4);
        let id4 = id_if(self.memories is Some, 5);
        let id5 = id_if(self.tags is Some, 13);
        let id6 = id_if(self.globals is Some, 6);
        let id7 = id_if(self.exports is Some, 7);
        let id8 = id_if(self.start is Some, 8);
        let id9 = id_if(self.elements is Some, 9);
        let id10 = id_if(self.data_count is Some, 12);
        let id11 = id_if(self.code is Some, 10);
        let id12 = id_if(self.data is Some, 11);
        let q1 = id0;
        let q2 = q1 + id1;
        let q3 = q2 + id2;
        let q4 = q3 + id3;
        let q5 = q4 + id4;
        let q6 = q5 + id5;
        let q7 = q6 + id6;
        let q8 = q7 + id7;
        let q9 = q8 + id8;
        let q10 = q9 + id9;
        let q11 = q10 + id10;
        let q12 = q11 + id11;
        let q13 = q12 + id12;
        lemma_concat(start, q1, id1);
        assert(start + q1 + id1 == start + q2);
        lemma_concat(start, q2, id2);
        assert(start + q2 + id2 == start + q3);
        lemma_concat(start, q3, id3);
        assert(start + q3 + id3 == start + q4);
        lemma_concat(start, q4, id4);
        assert(start + q4 + id4 == start + q5);
        lemma_concat(start, q5, id5);
        assert(start + q5 + id5 == start + q6);
        lemma_concat(start, q6, id6);
        assert(start + q6 + id6 == start + q7);
        lemma_concat(start, q7, id7);
        assert(start + q7 + id7 == start + q8);
        lemma_concat(start, q8, id8);
        assert(start + q8 + id8 == start + q9);
        lemma_concat(start, q9, id9);
        assert(start + q9 + id9 == start + q10);
        lemma_concat(start, q10, id10);
        assert(start + q10 + id10 == start + q11);
        lemma_concat(start, q11, id11);
        assert(start + q11 + id11 == start + q12);
        lemma_concat(start, q12, id12);
        assert(start + q12 + id12 == start + q13);
        assert(self.ids(typed) == q13);
    }

    /// Whether none of the sections is there.
    pub open spec fn holds_nothing(&self) -> bool {
        &&& self.imports is None
        &&& self.functions is None
        &&& self.tables is None
        &&& self.memories is None
        &&& self.tags is None
        &&& self.globals is None
        &&& self.exports is None
        &&& self.start is None
        &&& self.elements is None
        &&& self.data_count is None
        &&& self.code is None
        &&& self.data is None
    }

    /// Where no identifier is listed, no section is there.
    pub proof fn lemma_no_ids(&self, typed: bool)
        ensures
            self.ids(typed).len() == 0 ==> !typed && self.holds_nothing(),
    {
        let id0 = id_if(typed, 1);
        let id1 = id_if(self.imports is Some, 2);
        let id2 = id_if(self.functions is Some, 3);
        let id3 = id_if(self.tables is Some, 4);
        let id4 = id_if(self.memories is Some, 5);
        let id5 = id_if(self.tags is Some, 13);
        let id6 = id_if(self.globals is Some, 6);
        let id7 = id_if(self.exports is Some, 7);
        let id8 = id_if(self.start is Some, 8);
        let id9 = id_if(self.elements is Some, 9);
        let id10 = id_if(self.data_count is Some, 12);
        let id11 = id_if(self.code is Some, 10);
        let id12 = id_if(self.data is Some, 11);
        let q1 = id0;
        let q2 = q1 + id1;
        let q3 = q2 + id2;
        let q4 = q3 + id3;
        let q5 = q4 + id4;
        let q6 = q5 + id5;
        let q7 = q6 + id6;
        let q8 = q7 + id7;
        let q9 = q8 + id8;
        let q10 = q9 + id9;
        let q11 = q10 + id10;
        let q12 = q11 + id11;
        let q13 = q12 + id12;
        assert(q2.len() == q1.len() + id1.len());
        assert(q3.len() == q2.len() + id2.len());
        assert(q4.len() == q3.len() + id3.len());
        assert(q5.len() == q4.len() + id4.len());
        assert(q6.len() == q5.len() + id5.len());
        assert(q7.len() == q6.len() + id6.len());
        assert(q8.len() == q7.len() + id7.len());
        assert(q9.len() == q8.len() + id8.len());
        assert(q10.len() == q9.len() + id9.len());
        assert(q11.len() == q10.len() + id10.len());
        assert(q12.len() == q11.len() + id11.len());
        assert(q13.len() == q12.len() + id12.len());
        assert(self.ids(typed) == q13);
    }

    /// Writes the type section, if there is one, and then these sections
    /// to a module, in the order of the binary format, and leaves out
    /// every section that is not there. On an error the module is left as
    /// it was.
    pub fn encode(self, module: &mut wasm_encoder::Module, types: Option<Builder>) -> (r: Result<
        (),
        Failure,
    >)
        requires
            self.wf(),
            types matches Some(b) ==> b.kind() == SectionKind::Types,
        ensures
            match r {
                Ok(()) => module_sections(*final(module)) == module_sections(*old(module))
                    + self.ids(types is Some) && module_held(*final(module)) == self.laid(
                    module_held(*old(module)),
                    entries_of(types),
                ),
                Err(_) => *final(module) == *old(module),
            },
            match self.refused() {
                Some(e) => r matches Err(found) && found == e,
                None => r is Ok,
            },
            types is None && self.holds_nothing() ==> *final(module) == *old(module),
    {
        let imports = match &self.imports {
            Some(imports) => Some(Self::encode_imports(imports)?),
            None => None,
        };
        let functions = match &self.functions {
            Some(functions) => Some(Self::encode_functions(functions)),
            None => None,
        };
        let exports = match &self.exports {
            Some(exports) => Some(Self::encode_exports(exports)),
            None => None,
        };
        let code = match &self.code {
            Some(code) => Some(Self::encode_code(code)?),
            None => None,
        };
        proof {
            self.lemma_ids_from(module_sections(*module), types is Some);
        }
        self.lay(module, &types, &imports, &functions, &exports, &code);
        Ok(())
    }
}

} // verus!
