//! A woven module: what the passes over a module leave behind, and what
//! holds of it.

use crate::error::{Failure, WeaveError};
use crate::function::asks_for_externref;
use crate::import_pass::{
    imports_in, is_slab_import, is_stub, kept_in, kept_positions, slab_positions, space_of,
    Deferred, ImportCounts, Space,
};
use crate::parse::ParsedModule;
use crate::progress::{binds_run, identity_to};
use crate::encoder::SectionKind;
use crate::sections::{id_if, item_entries, ImportOut, Sections};
use crate::signature::SignatureKeyView;
use crate::slab::{bodies, declared, entries};
use crate::table_slab::TableSlabApi;
use crate::weaver::Weaver;
use vstd::prelude::*;

verus! {

/// The imports of an import section, or an empty list where the section
/// is not there.
pub open spec fn imported(imports: Option<Vec<ImportOut>>) -> Seq<ImportOut> {
    match imports {
        Some(list) => list@,
        None => Seq::empty(),
    }
}

/// A module that is woven: the sections of the output but for the types,
/// which the weaver holds, and the weaver that wove them.
pub struct Woven<'a> {
    pub sections: Sections,
    pub weaver: Weaver<'a>,
    /// The index of the first function, table and global that the module
    /// defines itself.
    pub counts: ImportCounts,
}

impl<'a> Woven<'a> {
    /// The sections of a woven module are those that
    /// [`Weaver::section_ids`] lists, in that order.
    pub proof fn lemma_section_ids(&self, slab: &ParsedModule)
        requires
            self.complete(slab),
        ensures
            self.sections.ids(self.weaver.types_written()) == self.weaver.section_ids(slab),
    {
    }

    /// The parts of a module that holds `start` and then what was woven:
    /// the type section, where the output has one, with the entries of
    /// the weaver's type section, and then the sections as
    /// [`Sections::laid`] lists them.
    pub open spec fn laid_into(&self, start: Seq<crate::encoder::Part>) -> Seq<
        crate::encoder::Part,
    > {
        self.sections.laid(
            start,
            if self.weaver.types_written() {
                Some(self.weaver.interner.section().held())
            } else {
                None
            },
        )
    }

    /// Everything that holds of a module that is woven.
    pub open spec fn complete(&self, slab: &ParsedModule) -> bool {
        let w = &self.weaver;
        let m = w.parsed;
        &&& w.wf()
        &&& self.sections.wf()
        &&& w.slab_ready()
        &&& (w.table_api is Some) == w.slab_needed()
        &&& w.imports_woven(self.sections.imports, self.counts)
        &&& w.functions_woven(self.sections.functions, self.counts, slab)
        &&& w.code_woven(self.sections.code, slab)
        &&& w.items_woven(&self.sections, self.counts, slab)
        &&& w.rest_woven(&self.sections)
        &&& w.untouched(self.counts, m.functions@.len(), m.tables@.len(), m.globals@.len())
        &&& w.placed(slab, m.functions@.len(), m.tables@.len(), m.globals@.len())
    }
}

/// Whether a module needs the slab: one of its signatures asks for a host
/// reference, or one of its imports is of the slab's namespace.
pub open spec fn slab_asked(m: &ParsedModule) -> bool {
    (exists|i: int|
        0 <= i < m.signatures.entries().len() && crate::function::asks_for_externref(
            (#[trigger] m.signatures.entries()[i]).metas@,
        )) || slab_positions(m.imports@, m.imports@.len() as int).len() > 0
}

/// The identifiers of the sections that weaving a module gives, in the
/// order in which they are written: types, imports, functions, tables,
/// memories, tags, globals, exports, start, elements, data count, code and
/// data, each if and only if the module has such a section, or the slab is
/// merged and brings one.
pub open spec fn output_sections(m: &ParsedModule, slab: &ParsedModule) -> Seq<u8> {
    let merged = slab_asked(m);
    id_if(m.types@.len() > 0 || merged, 1) + id_if(m.imports@.len() > 0, 2) + id_if(
        (merged && slab.functions@.len() > 0) || m.functions@.len() > 0,
        3,
    ) + id_if(merged || m.tables@.len() > 0, 4) + id_if(m.memories@.len() > 0, 5) + id_if(
        m.tags@.len() > 0,
        13,
    ) + id_if(merged || m.globals@.len() > 0, 6) + id_if(m.exports@.len() > 0, 7) + id_if(
        m.start is Some,
        8,
    ) + id_if(m.elements@.len() > 0, 9) + id_if(m.data_count is Some, 12) + id_if(
        (merged && slab.code@.len() > 0) || m.code@.len() > 0,
        10,
    ) + id_if(m.data_segments@.len() > 0, 11)
}

impl<'a> Weaver<'a> {
    /// The sections that this weaver writes are those that weaving its
    /// module gives.
    pub proof fn lemma_output_sections(&self, slab: &ParsedModule)
        ensures
            self.slab_needed() == slab_asked(self.parsed),
            self.section_ids(slab) == output_sections(self.parsed, slab),
    {
        assert(self.asks_for_slab(self.parsed.signatures.entries().len() as int) == (exists|i: int|
            0 <= i < self.parsed.signatures.entries().len()
                && crate::function::asks_for_externref(
                (#[trigger] self.parsed.signatures.entries()[i]).metas@,
            )));
    }

    /// Whether the module needs the slab: one of its signatures asks for a
    /// host reference, or one of its imports is of the slab's namespace.
    pub open spec fn slab_needed(&self) -> bool {
        self.asks_for_slab(self.parsed.signatures.entries().len() as int) || slab_positions(
            self.parsed.imports@,
            self.parsed.imports@.len() as int,
        ).len() > 0
    }

    /// Whether the output has a type section: the module has types, or
    /// the slab is merged.
    pub open spec fn types_written(&self) -> bool {
        self.parsed.types@.len() > 0 || self.slab_needed()
    }

    /// The identifiers of the sections of the output, in the order in
    /// which they are written: types, imports, functions, tables,
    /// memories, tags, globals, exports, start, elements, data count, code
    /// and data, each if and only if the module has such a section, or
    /// the slab is merged and brings one.
    pub open spec fn section_ids(&self, slab: &ParsedModule) -> Seq<u8> {
        let m = self.parsed;
        let merged = self.slab_needed();
        id_if(self.types_written(), 1) + id_if(m.imports@.len() > 0, 2) + id_if(
            (merged && slab.functions@.len() > 0) || m.functions@.len() > 0,
            3,
        ) + id_if(merged || m.tables@.len() > 0, 4) + id_if(m.memories@.len() > 0, 5) + id_if(
            m.tags@.len() > 0,
            13,
        ) + id_if(merged || m.globals@.len() > 0, 6) + id_if(m.exports@.len() > 0, 7) + id_if(
            m.start is Some,
            8,
        ) + id_if(m.elements@.len() > 0, 9) + id_if(m.data_count is Some, 12) + id_if(
            (merged && slab.code@.len() > 0) || m.code@.len() > 0,
            10,
        ) + id_if(m.data_segments@.len() > 0, 11)
    }

    /// How many of `count` entries of the slab the output holds: all of
    /// them where the slab was merged, none otherwise.
    pub open spec fn of_slab(&self, count: nat) -> nat {
        if self.table_api is Some {
            count
        } else {
            0
        }
    }

    /// The import section holds the imports that the output keeps, in
    /// order; it is there if and only if the module has imports. The
    /// return stubs are recorded, and the imports of each space are
    /// counted.
    pub open spec fn imports_woven(
        &self,
        section: Option<Vec<ImportOut>>,
        counts: ImportCounts,
    ) -> bool {
        let imports = self.parsed.imports@;
        let kept = kept_positions(imports, imports.len() as int);
        let out = imported(section);
        &&& (section is Some) == (imports.len() > 0)
        &&& out.len() == kept.len()
        &&& forall|k: int| 0 <= k < kept.len() ==> #[trigger] self.kept_at(out, k, kept[k])
        &&& self.stubs_recorded(imports.len() as int)
        &&& counts.funcs == imports_in(imports, Space::Funcs, imports.len() as int)
        &&& counts.tables == imports_in(imports, Space::Tables, imports.len() as int)
        &&& counts.globals == imports_in(imports, Space::Globals, imports.len() as int)
    }

    /// The function section declares the functions of the slab, where it
    /// was merged, and then the functions of the module in order, each
    /// with the type that [`Weaver::declares`] describes. The functions of
    /// the module take the last function indices of the output, in order.
    pub open spec fn functions_woven(
        &self,
        section: Option<Vec<u32>>,
        counts: ImportCounts,
        slab: &ParsedModule,
    ) -> bool {
        let count = self.parsed.functions@.len();
        let base = self.of_slab(slab.functions@.len());
        let list = declared(section);
        &&& self.parsed.code@.len() == count
        &&& list.len() == base + count
        &&& forall|i: int|
            0 <= i < count ==> #[trigger] self.declares(i as u32, list[base + i], self)
        &&& binds_run(
            &self.indices.funcs,
            counts.funcs as int,
            self.indices.funcs.next() - count,
            count as int,
        )
        &&& (section is Some) == (base > 0 || count > 0)
    }

    /// The code section holds the bodies of the slab, where it was merged,
    /// whose locals are of types that the encoder has a counterpart for,
    /// and then the bodies of the module in order, each written as
    /// [`Weaver::wove`] describes.
    pub open spec fn code_woven(
        &self,
        section: Option<Vec<crate::sections::FunctionOut>>,
        slab: &ParsedModule,
    ) -> bool {
        let count = self.parsed.code@.len();
        let base = self.of_slab(slab.code@.len());
        let list = bodies(section);
        &&& list.len() == base + count
        &&& forall|i: int|
            0 <= i < count ==> #[trigger] self.was_woven(i as u32, list[base + i], self)
        &&& (section is Some) == (base > 0 || count > 0)
        &&& crate::sections::all_encodable(list, base as int)
    }

    /// The sections that the encoder fills hold as many entries as the
    /// module has, behind those of the slab where it was merged, each as
    /// the encoder wrote it, see [`Weaver::items_held`], and a section
    /// that would hold nothing is left out. The tables and globals
    /// of the module take the last indices of their space, in order.
    pub open spec fn items_woven(
        &self,
        s: &Sections,
        counts: ImportCounts,
        slab: &ParsedModule,
    ) -> bool {
        let m = self.parsed;
        let merged = self.table_api is Some;
        &&& entries(s.tables) == self.of_slab(slab.tables@.len()) + m.tables@.len()
        &&& entries(s.globals) == self.of_slab(slab.globals@.len()) + m.globals@.len()
        &&& entries(s.memories) == m.memories@.len()
        &&& entries(s.tags) == m.tags@.len()
        &&& entries(s.elements) == m.elements@.len()
        &&& entries(s.data) == m.data_segments@.len()
        &&& (s.tables is Some) == (merged || m.tables@.len() > 0)
        &&& (s.globals is Some) == (merged || m.globals@.len() > 0)
        &&& (s.memories is Some) == (m.memories@.len() > 0)
        &&& (s.tags is Some) == (m.tags@.len() > 0)
        &&& (s.elements is Some) == (m.elements@.len() > 0)
        &&& (s.data is Some) == (m.data_segments@.len() > 0)
        &&& binds_run(
            &self.indices.tables,
            counts.tables as int,
            self.indices.tables.next() - m.tables@.len(),
            m.tables@.len() as int,
        )
        &&& binds_run(
            &self.indices.globals,
            counts.globals as int,
            self.indices.globals.next() - m.globals@.len(),
            m.globals@.len() as int,
        )
        &&& self.items_held(SectionKind::Tables, m.tables@, item_entries(s.tables))
        &&& self.items_held(SectionKind::Memories, m.memories@, item_entries(s.memories))
        &&& self.items_held(SectionKind::Tags, m.tags@, item_entries(s.tags))
        &&& self.items_held(SectionKind::Globals, m.globals@, item_entries(s.globals))
        &&& self.items_held(SectionKind::Elements, m.elements@, item_entries(s.elements))
        &&& self.items_held(SectionKind::Data, m.data_segments@, item_entries(s.data))
    }

    /// The exports are those of the module with the indices of the output,
    /// the start function is the one of the module with its index in the
    /// output, and the count of data segments is announced if and only if
    /// the module announces one.
    pub open spec fn rest_woven(&self, s: &Sections) -> bool {
        let m = self.parsed;
        &&& match s.exports {
            Some(out) => {
                &&& out@.len() == m.exports@.len()
                &&& out@.len() > 0
                &&& forall|k: int| 0 <= k < out@.len() ==> #[trigger] self.export_at(out@, k)
            },
            None => m.exports@.len() == 0,
        }
        &&& match m.start {
            Some(f) => self.indices.funcs.mapping().contains_key(f) && s.start == Some(
                self.indices.funcs.mapping()[f],
            ),
            None => s.start is None,
        }
        &&& match m.data_count {
            Some(_) => s.data_count == Some(m.data_segments@.len() as u32)
                && m.data_segments@.len() <= u32::MAX,
            None => s.data_count is None,
        }
    }

    /// Every index of the output is accounted for: the imports that the
    /// output keeps have the first indices of their spaces, in order;
    /// behind them stand the functions, tables and globals of the slab,
    /// where it was merged; and behind those the `funcs` functions,
    /// `tables` tables and `globals` globals of the module that have an
    /// index so far.
    pub open spec fn placed(&self, slab: &ParsedModule, funcs: nat, tables: nat, globals: nat) -> bool {
        let imports = self.parsed.imports@;
        let n = imports.len() as int;
        &&& self.kept_bound(n)
        &&& self.indices.funcs.next() == kept_in(imports, Space::Funcs, n) + self.of_slab(
            slab.functions@.len(),
        ) + funcs
        &&& self.indices.tables.next() == kept_in(imports, Space::Tables, n) + self.of_slab(
            slab.tables@.len(),
        ) + tables
        &&& self.indices.globals.next() == kept_in(imports, Space::Globals, n) + self.of_slab(
            slab.globals@.len(),
        ) + globals
    }

    /// The imports that the output keeps keep their indices while the
    /// weaver weaves on.
    pub proof fn lemma_kept_stays(a: &Weaver<'a>, b: &Weaver<'a>, count: int)
        requires
            a.kept_bound(count),
            a.woven_on(b),
            a.callable_functions == b.callable_functions,
        ensures
            b.kept_bound(count),
    {
        let imports = a.parsed.imports@;
        assert forall|p: int|
            0 <= p < count && !is_stub(&imports[p]) && !is_slab_import(&imports[p]) implies match space_of(
            #[trigger] &imports[p],
        ) {
            Some(s) => {
                &&& b.mapper(s).mapping().contains_key(imports_in(imports, s, p) as u32)
                &&& b.mapper(s).mapping()[imports_in(imports, s, p) as u32] == kept_in(
                    imports,
                    s,
                    p,
                )
                &&& s == Space::Funcs ==> imports_in(imports, s, p) < b.callable_functions@.len()
                    && b.callable_functions@[imports_in(imports, s, p)]
            },
            None => true,
        } by {
            match space_of(&imports[p]) {
                Some(s) => {
                    assert(a.mapper(s).mapping().contains_key(imports_in(imports, s, p) as u32));
                },
                None => {},
            }
        }
    }

    /// Where the module has no return stub and the slab was not merged,
    /// every function, table and global that has an index so far keeps it,
    /// and code may refer to every function. `funcs`, `tables` and
    /// `globals` say how many of those that the module defines itself have
    /// an index so far.
    pub open spec fn untouched(&self, counts: ImportCounts, funcs: nat, tables: nat, globals: nat) -> bool {
        self.table_api is None && self.returns_lookup@.len() == 0 ==> {
            &&& identity_to(&self.indices.funcs, counts.funcs + funcs)
            &&& identity_to(&self.indices.tables, counts.tables + tables)
            &&& identity_to(&self.indices.globals, counts.globals + globals)
            &&& forall|f: int|
                0 <= f < self.callable_functions@.len() ==> #[trigger] self.callable_functions@[f]
        }
    }

    /// What holds once the imports are gone through and the slab is
    /// merged, if anybody needs it: the imports are woven, the sections
    /// hold what the slab brought and nothing else, and whoever asks for a
    /// host reference finds the slab in place.
    pub open spec fn prepared(&self, s: &Sections, counts: ImportCounts, slab: &ParsedModule) -> bool {
        &&& self.slab_ready()
        &&& (self.table_api is Some) == self.slab_needed()
        &&& self.imports_woven(s.imports, counts)
        &&& declared(s.functions).len() == self.of_slab(slab.functions@.len())
        &&& bodies(s.code).len() == self.of_slab(slab.code@.len())
        &&& crate::sections::all_encodable(bodies(s.code), bodies(s.code).len() as int)
        &&& entries(s.tables) == self.of_slab(slab.tables@.len())
        &&& entries(s.globals) == self.of_slab(slab.globals@.len())
        &&& (s.functions is Some) == (self.of_slab(slab.functions@.len()) > 0)
        &&& (s.code is Some) == (self.of_slab(slab.code@.len()) > 0)
        &&& (s.tables is Some) == (self.table_api is Some)
        &&& (s.globals is Some) == (self.table_api is Some)
        &&& s.memories is None
        &&& s.tags is None
        &&& s.exports is None
        &&& s.start is None
        &&& s.elements is None
        &&& s.data_count is None
        &&& s.data is None
        &&& self.untouched(counts, 0, 0, 0)
        &&& self.placed(slab, 0, 0, 0)
    }

    /// The imports stay woven while the weaver weaves on with the same
    /// stubs.
    pub proof fn lemma_imports_stay(
        a: &Weaver<'a>,
        c: &Weaver<'a>,
        section: Option<Vec<ImportOut>>,
        counts: ImportCounts,
    )
        requires
            a.imports_woven(section, counts),
            a.woven_on(c),
            c.returns_lookup == a.returns_lookup,
            c.callable_functions == a.callable_functions,
        ensures
            c.imports_woven(section, counts),
    {
        let imports = a.parsed.imports@;
        let kept = kept_positions(imports, imports.len() as int);
        Self::lemma_stubs_stay(a, c, imports.len() as int);
        assert forall|k: int| 0 <= k < kept.len() implies #[trigger] c.kept_at(
            imported(section),
            k,
            kept[k],
        ) by {
            assert(a.kept_at(imported(section), k, kept[k]));
        }
    }
}

impl<'a> Weaver<'a> {
    /// The first `count` of the imports that waited for the slab are its
    /// function `free`, and their function indices are bound to it.
    pub open spec fn slab_bound(&self, api: TableSlabApi, deferred: Seq<Deferred>, count: int) -> bool {
        forall|d: int|
            0 <= d < count ==> {
                let import = self.parsed.imports@[(#[trigger] deferred[d]).position as int];
                &&& deferred[d].is_function
                &&& import.name@ == "free"@
                &&& self.indices.funcs.mapping().contains_key(deferred[d].index)
                &&& self.indices.funcs.mapping()[deferred[d].index] == api.free_fn
            }
    }

    /// The first `count` imports that waited for the slab can be bound:
    /// each is a function import named `free`, and its function index is
    /// bound neither by the weaver nor for an import before it.
    pub open spec fn bindable(&self, deferred: Seq<Deferred>, count: int) -> bool {
        forall|d: int|
            0 <= d < count ==> {
                let import = self.parsed.imports@[(#[trigger] deferred[d]).position as int];
                &&& deferred[d].is_function
                &&& import.name@ == "free"@
                &&& !self.indices.funcs.mapping().contains_key(deferred[d].index)
                &&& forall|e: int| 0 <= e < d ==> (#[trigger] deferred[e]).index != deferred[d].index
            }
    }

    /// Binds the imports that waited for the slab to what the slab offers
    /// under their names. An import that the slab does not offer is an
    /// error.
    pub fn bind_deferred(&mut self, api: TableSlabApi, deferred: &Vec<Deferred>) -> (r: Result<
        (),
        Failure,
    >)
        requires
            old(self).wf(),
            api.wf(&old(self).indices),
            forall|d: int|
                0 <= d < deferred@.len() ==> (#[trigger] deferred@[d]).position < old(
                    self,
                ).parsed.imports@.len(),
        ensures
            final(self).wf(),
            api.wf(&final(self).indices),
            old(self).settled(final(self)),
            final(self).indices.types == old(self).indices.types,
            final(self).indices.tables == old(self).indices.tables,
            final(self).indices.globals == old(self).indices.globals,
            final(self).indices.funcs.next() == old(self).indices.funcs.next(),
            final(self).interner == old(self).interner,
            r is Ok ==> final(self).slab_bound(api, deferred@, deferred@.len() as int),
            r is Ok <==> old(self).bindable(deferred@, deferred@.len() as int),
            deferred@.len() == 0 ==> *final(self) == *old(self),
            forall|k: u32| #[trigger]
                final(self).indices.funcs.mapping().contains_key(k) ==> old(
                    self,
                ).indices.funcs.mapping().contains_key(k) || exists|e: int|
                    0 <= e < deferred@.len() && (#[trigger] deferred@[e]).index == k,
    {
        let parsed = self.parsed;
        let mut d: usize = 0;
        proof {
            Self::lemma_woven_on(old(self), old(self), old(self));
        }
        while d < deferred.len()
            invariant
                d <= deferred@.len(),
                parsed == self.parsed,
                self.wf(),
                api.wf(&self.indices),
                old(self).settled(self),
                self.indices.types == old(self).indices.types,
                self.indices.tables == old(self).indices.tables,
                self.indices.globals == old(self).indices.globals,
                self.indices.funcs.next() == old(self).indices.funcs.next(),
                self.interner == old(self).interner,
                d == 0 ==> *self == *old(self),
                self.slab_bound(api, deferred@, d as int),
                old(self).bindable(deferred@, d as int),
                forall|k: u32| #[trigger]
                    self.indices.funcs.mapping().contains_key(k) ==> old(
                        self,
                    ).indices.funcs.mapping().contains_key(k) || exists|e: int|
                        0 <= e < d && (#[trigger] deferred@[e]).index == k,
                forall|d: int|
                    0 <= d < deferred@.len() ==> (#[trigger] deferred@[d]).position
                        < parsed.imports@.len(),
            decreases deferred@.len() - d,
        {
            let waiting = deferred[d];
            let import = &parsed.imports[waiting.position];
            if self.indices.funcs.map(waiting.index).is_some() {
                proof {
                    if old(self).bindable(deferred@, deferred@.len() as int) {
                        assert(!old(self).indices.funcs.mapping().contains_key(
                            deferred@[d as int].index,
                        ));
                        let e = choose|e: int|
                            0 <= e < d && (#[trigger] deferred@[e]).index == waiting.index;
                        assert(deferred@[e].index != deferred@[d as int].index);
                    }
                }
                return Err(
                    Failure::UserError(WeaveError::FunctionIndexOutOfBounds(waiting.index)),
                );
            }
            let ghost before = *self;
            match api.map_import(
                &mut self.indices,
                waiting.index,
                waiting.is_function,
                import.name.as_str(),
            ) {
                Ok(()) => {},
                Err(e) => {
                    proof {
                        Self::lemma_woven_on(&before, &before, &before);
                        Self::lemma_woven_on(old(self), &before, self);
                        if old(self).bindable(deferred@, deferred@.len() as int) {
                            assert(deferred@[d as int].is_function);
                        }
                    }
                    return Err(Failure::UserError(e));
                },
            }
            proof {
                crate::progress::lemma_extended(
                    &before.indices.funcs,
                    &before.indices.funcs,
                    &before.indices.funcs,
                );
                Self::lemma_woven_on(&before, &before, &before);
                Self::lemma_woven_on(old(self), &before, self);
                assert forall|k: int| 0 <= k < d + 1 implies {
                    let import = self.parsed.imports@[(#[trigger] deferred@[k]).position as int];
                    &&& deferred@[k].is_function
                    &&& import.name@ == "free"@
                    &&& self.indices.funcs.mapping().contains_key(deferred@[k].index)
                    &&& self.indices.funcs.mapping()[deferred@[k].index] == api.free_fn
                } by {
                    if k < d {
                        assert(before.indices.funcs.mapping().contains_key(deferred@[k].index));
                    }
                }
                assert forall|k: u32| #[trigger]
                    self.indices.funcs.mapping().contains_key(k) implies old(
                    self,
                ).indices.funcs.mapping().contains_key(k) || exists|e: int|
                    0 <= e < d + 1 && (#[trigger] deferred@[e]).index == k by {
                    if k == waiting.index {
                        assert(deferred@[d as int].index == k);
                    } else {
                        assert(before.indices.funcs.mapping().contains_key(k));
                        if !old(self).indices.funcs.mapping().contains_key(k) {
                            let e = choose|e: int| 0 <= e < d && (#[trigger] deferred@[e]).index == k;
                            assert(deferred@[e].index == k);
                        }
                    }
                }
                assert forall|k: int| 0 <= k < d + 1 implies {
                    let import = old(self).parsed.imports@[(#[trigger] deferred@[k]).position as int];
                    &&& deferred@[k].is_function
                    &&& import.name@ == "free"@
                    &&& !old(self).indices.funcs.mapping().contains_key(deferred@[k].index)
                    &&& forall|e: int|
                        0 <= e < k ==> (#[trigger] deferred@[e]).index != deferred@[k].index
                } by {
                    if k == d {
                        assert forall|e: int| 0 <= e < d implies (#[trigger] deferred@[e]).index
                            != deferred@[d as int].index by {
                            assert(before.indices.funcs.mapping().contains_key(deferred@[e].index));
                        }
                    }
                }
            }
            d = d + 1;
        }
        Ok(())
    }

    /// Where no signature asks for a host reference, nobody needs the
    /// slab.
    pub proof fn lemma_slab_ready(&self)
        requires
            self.table_api is None ==> !self.asks_for_slab(
                self.parsed.signatures.entries().len() as int,
            ),
        ensures
            self.slab_ready(),
    {
        if self.table_api is None {
            assert forall|key: SignatureKeyView| #[trigger]
                self.parsed.signatures.contains(key) implies !asks_for_externref(
                self.parsed.signatures.metas(key),
            ) by {
                let p = self.parsed.signatures.position(key);
                assert(self.parsed.signatures.at(key, p));
                if asks_for_externref(self.parsed.signatures.entries()[p].metas@) {
                    assert(self.asks_for_slab(self.parsed.signatures.entries().len() as int));
                }
            }
        }
    }
}

} // verus!
