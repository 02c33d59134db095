//! Weaving a whole module, from its record to the sections of the output.

use crate::encoder::{
    entity_refused, header, module_bytes, module_finish, module_held, module_new,
    module_sections, SectionKind,
};
use crate::error::{Failure, ReadError, WeaveError};
use crate::import_pass::{
    imports_in, is_slab_import, kept_positions, lemma_imports_in, lemma_imports_in_grows,
    lemma_positions, lemma_positions_hold, lemma_positions_rise, slab_positions, written_as,
    ImportCounts, ImportPass, Space,
};
use crate::lookup::{is_weavable, weavable};
use crate::parse::{ends_at, readable, Import, ParsedModule};
use crate::progress::{bound_run, keys_below, lemma_bound_run};
use crate::reader::{chunks_of, validate, validates};
use crate::sections::{item_entries, Sections};
use crate::parse::types_before;
use crate::slab::{
    bodies, declared, is_slab_accepted, missing_export, slab_accepted, slab_function, slab_taken,
};
use crate::table_slab::TableSlabApi;
use crate::weaver::Weaver;
use crate::woven::{output_sections, Woven};
use vstd::prelude::*;

verus! {

impl<'a> Weaver<'a> {
    /// Whether nothing of the module is handed to the encoder: every
    /// import is a return stub, the slab is not needed, the module defines
    /// no function, table, memory, tag, global, element segment or data
    /// segment and has no start function, and it exports memories and tags
    /// at most.
    pub open spec fn bare(&self) -> bool {
        let m = self.parsed;
        &&& kept_positions(m.imports@, m.imports@.len() as int).len() == 0
        &&& !self.slab_needed()
        &&& m.functions@.len() == 0
        &&& m.tables@.len() == 0
        &&& m.memories@.len() == 0
        &&& m.tags@.len() == 0
        &&& m.globals@.len() == 0
        &&& m.elements@.len() == 0
        &&& m.data_segments@.len() == 0
        &&& m.start is None
        &&& forall|k: int|
            0 <= k < m.exports@.len() ==> (#[trigger] m.exports@[k]).kind is Memory
                || m.exports@[k].kind is Tag
    }

    /// Whether the module imports nothing and defines nothing, and the
    /// slab is not needed: there is nothing to weave but its exports and
    /// its start function.
    pub open spec fn idle(&self) -> bool {
        let m = self.parsed;
        &&& m.imports@.len() == 0
        &&& !self.slab_needed()
        &&& m.functions@.len() == 0
        &&& m.code@.len() == 0
        &&& m.tables@.len() == 0
        &&& m.memories@.len() == 0
        &&& m.tags@.len() == 0
        &&& m.globals@.len() == 0
        &&& m.elements@.len() == 0
        &&& m.data_segments@.len() == 0
    }

    /// `w` is this weaver while the module is woven, after its functions
    /// were declared and `tables` of its tables and `globals` of its
    /// globals were handed on: the types of the functions are written,
    /// more types may be written, as many as [`Weaver::type_room`] says at
    /// most, and those functions, tables and globals have their indices.
    pub open spec fn during(
        &self,
        w: &Weaver<'a>,
        counts: ImportCounts,
        tables: int,
        globals: int,
    ) -> bool {
        &&& self.settled(w)
        &&& bound_run(
            &self.indices.funcs,
            &w.indices.funcs,
            counts.funcs as int,
            self.parsed.functions@.len() as int,
        )
        &&& bound_run(&self.indices.tables, &w.indices.tables, counts.tables as int, tables)
        &&& bound_run(&self.indices.globals, &w.indices.globals, counts.globals as int, globals)
        &&& self.grown_within(w, self.type_room())
        &&& forall|i: int|
            0 <= i < self.parsed.functions@.len() && self.keeps_type(i as u32)
                ==> w.indices.types.mapping().contains_key(#[trigger] self.parsed.functions@[i])
    }

    /// How many type indices weaving the module may take: for every
    /// function as many as the module has types and one more, and one for
    /// every body.
    pub open spec fn type_room(&self) -> int {
        (self.parsed.functions@.len() * (self.ty_lookup.entries().len() + 1)
            + self.parsed.code@.len()) as int
    }

    /// Whether what follows the imports can be woven at once, where
    /// `counts` tells how many functions, tables and globals the module
    /// imports and the output holds `tables` tables and `globals` globals
    /// of the slab: its functions can be declared at once; enough type
    /// indices are free; when their turn comes, its tables, memories,
    /// tags, globals, element segments and data segments can be handed to
    /// the encoder at once and its bodies can be written at once; and in
    /// the end its exports and its start function name what has an index
    /// in the output.
    pub open spec fn rest_ready(&self, counts: ImportCounts, tables: int, globals: int) -> bool {
        let m = self.parsed;
        let t = m.tables@.len() as int;
        let g = m.globals@.len() as int;
        &&& self.functions_ready(counts.funcs)
        &&& self.indices.types.next() + self.type_room() + m.code@.len() < u32::MAX
        &&& forall|w: Weaver<'a>| #[trigger]
            self.during(&w, counts, 0, 0) ==> w.items_ready(
                tables,
                SectionKind::Tables,
                m.tables@,
                Some(Space::Tables),
                counts.tables,
            )
        &&& forall|w: Weaver<'a>| #[trigger]
            self.during(&w, counts, t, 0) ==> {
                &&& w.items_ready(0, SectionKind::Memories, m.memories@, None, 0)
                &&& w.items_ready(0, SectionKind::Tags, m.tags@, None, 0)
                &&& w.items_ready(
                    globals,
                    SectionKind::Globals,
                    m.globals@,
                    Some(Space::Globals),
                    counts.globals,
                )
            }
        &&& forall|w: Weaver<'a>| #[trigger]
            self.during(&w, counts, t, g) ==> {
                &&& w.code_ready()
                &&& w.items_ready(0, SectionKind::Elements, m.elements@, None, 0)
                &&& w.items_ready(0, SectionKind::Data, m.data_segments@, None, 0)
                &&& w.closing_error() is None
            }
    }

    /// `b` is this weaver after it went through the imports of a module
    /// that needs no slab: the return stubs are recorded, the imports
    /// that the output keeps have their indices, code may refer to them
    /// and to every function that the module defines, types may be
    /// written, for each import at most as many as the module has, and
    /// `counts` tells how many functions, tables and globals the module
    /// imports.
    pub open spec fn after_imports(&self, b: &Weaver<'a>, counts: ImportCounts) -> bool {
        let imports = self.parsed.imports@;
        &&& b.wf()
        &&& b.parsed == self.parsed
        &&& b.ty_lookup == self.ty_lookup
        &&& b.fn_lookup == self.fn_lookup
        &&& b.table_api is None
        &&& self.woven_on(b)
        &&& self.grown_within(b, (imports.len() * self.ty_lookup.entries().len()) as int)
        &&& b.stubs_recorded(imports.len() as int)
        &&& b.kept_bound(imports.len() as int)
        &&& counts.funcs == imports_in(imports, Space::Funcs, imports.len() as int)
        &&& counts.tables == imports_in(imports, Space::Tables, imports.len() as int)
        &&& counts.globals == imports_in(imports, Space::Globals, imports.len() as int)
        &&& keys_below(&b.indices.funcs, counts.funcs as int)
        &&& keys_below(&b.indices.tables, counts.tables as int)
        &&& keys_below(&b.indices.globals, counts.globals as int)
        &&& b.indices.funcs.next() <= counts.funcs
        &&& b.indices.tables.next() <= counts.tables
        &&& b.indices.globals.next() <= counts.globals
        &&& forall|f: int|
            counts.funcs <= f < b.callable_functions@.len() ==> #[trigger] b.callable_functions@[f]
    }

    /// Whether the encoder reads again what it writes for the type of
    /// every import of the module.
    pub open spec fn takes_back(&self) -> bool {
        forall|p: int, out: Seq<u8>|
            0 <= p < self.parsed.imports@.len() && #[trigger] written_as(
                self.parsed.imports@[p].entity@,
                out,
            ) ==> entity_refused(out) is None
    }

    /// Whether the slab can be merged into the output of this weaver,
    /// whose sections hold nothing yet: it exports what the weaver uses,
    /// the encoder takes everything of it, and the output has room for
    /// its types, functions, tables and globals.
    pub open spec fn slab_fits(&self, slab: &ParsedModule) -> bool {
        &&& missing_export(slab) is None
        &&& slab_taken(slab)
        &&& self.indices.types.next() + types_before(slab.types@, slab.types@.len() as int)
            <= u32::MAX
        &&& self.indices.funcs.next() + slab.functions@.len() <= u32::MAX
        &&& self.indices.tables.next() + slab.tables@.len() <= u32::MAX
        &&& self.indices.globals.next() + slab.globals@.len() <= u32::MAX
    }

    /// Whether the slab offers every import of its namespace: each is a
    /// function named `free`.
    pub open spec fn slab_offered(&self) -> bool {
        let imports = self.parsed.imports@;
        forall|p: int|
            0 <= p < imports.len() && #[trigger] is_slab_import(&imports[p])
                ==> imports[p].type_index is Some && imports[p].name@ == "free"@
    }

    /// `b` is this weaver, which has gone through the imports of a
    /// module, after it merged the slab: the stubs are recorded, the
    /// imports that the output keeps have their indices, the imports of
    /// the slab's namespace have the index of the function `free` of the
    /// slab, code may refer to the imports that the output keeps and to
    /// every function that the module defines, the types, functions,
    /// tables and globals of the slab have their places, nothing else is
    /// bound, and `counts` tells how many functions, tables and globals
    /// the module imports.
    pub open spec fn after_merge(&self, b: &Weaver<'a>, counts: ImportCounts, slab: &ParsedModule)
        -> bool {
        let imports = self.parsed.imports@;
        &&& b.wf()
        &&& b.parsed == self.parsed
        &&& b.ty_lookup == self.ty_lookup
        &&& b.fn_lookup == self.fn_lookup
        &&& b.table_api is Some
        &&& b.stubs_recorded(imports.len() as int)
        &&& b.kept_bound(imports.len() as int)
        &&& counts.funcs == imports_in(imports, Space::Funcs, imports.len() as int)
        &&& counts.tables == imports_in(imports, Space::Tables, imports.len() as int)
        &&& counts.globals == imports_in(imports, Space::Globals, imports.len() as int)
        &&& forall|f: int|
            counts.funcs <= f < b.callable_functions@.len() ==> #[trigger] b.callable_functions@[f]
        &&& b.indices.types.mapping() == self.indices.types.mapping()
        &&& forall|k: u32| #[trigger]
            self.indices.funcs.mapping().contains_key(k) ==> b.indices.funcs.mapping().contains_key(
                k,
            ) && b.indices.funcs.mapping()[k] == self.indices.funcs.mapping()[k]
        &&& forall|p: int|
            0 <= p < imports.len() && #[trigger] is_slab_import(&imports[p]) ==> {
                let k = imports_in(imports, Space::Funcs, p) as u32;
                &&& !self.indices.funcs.mapping().contains_key(k)
                &&& b.indices.funcs.mapping().contains_key(k)
                &&& b.indices.funcs.mapping()[k] == self.indices.funcs.next() + slab_function(
                    slab,
                    "free"@,
                )->0
            }
        &&& keys_below(&b.indices.funcs, counts.funcs as int)
        &&& slab_positions(imports, imports.len() as int).len() == 0
            ==> b.indices.funcs.mapping() == self.indices.funcs.mapping()
        &&& b.indices.tables.mapping() == self.indices.tables.mapping()
        &&& b.indices.globals.mapping() == self.indices.globals.mapping()
        &&& self.grown_within(b, types_before(slab.types@, slab.types@.len() as int))
        &&& b.indices.funcs.next() == self.indices.funcs.next() + slab.functions@.len()
        &&& b.indices.tables.next() == self.indices.tables.next() + slab.tables@.len()
        &&& b.indices.globals.next() == self.indices.globals.next() + slab.globals@.len()
    }

    /// Whether the module can be woven at once: every return stub among
    /// its imports is a function whose type is a function type; the
    /// slab offers every import of its namespace; the imports that the
    /// output keeps can be written; the slab, where the module needs it,
    /// can be merged behind them; and what follows can be woven at once,
    /// see [`Weaver::rest_ready`].
    pub open spec fn all_ready(&self, slab: &ParsedModule) -> bool {
        let imports = self.parsed.imports@;
        &&& self.stubs_typed(imports.len() as int)
        &&& self.slab_offered()
        &&& if self.slab_needed() {
            &&& self.imports_ready()
            &&& forall|mid: Weaver<'a>, counts: ImportCounts| #[trigger]
                self.after_imports(&mid, counts) ==> mid.slab_fits(slab)
            &&& forall|mid: Weaver<'a>, b: Weaver<'a>, counts: ImportCounts|
                #![trigger self.after_imports(&mid, counts), mid.after_merge(&b, counts, slab)]
                self.after_imports(&mid, counts) && mid.after_merge(&b, counts, slab)
                    ==> b.rest_ready(
                    counts,
                    slab.tables@.len() as int,
                    slab.globals@.len() as int,
                )
        } else {
            &&& self.imports_ready()
            &&& forall|b: Weaver<'a>, counts: ImportCounts| #[trigger]
                self.after_imports(&b, counts) ==> b.rest_ready(counts, 0, 0)
        }
    }

    /// Goes through the imports, as [`Weaver::weave_imports`] says, and
    /// merges the slab if a signature asks for a host reference or an
    /// import is of the slab's namespace. The imports of that namespace
    /// are then bound to what the slab offers.
    pub fn prepare(&mut self, slab: &ParsedModule) -> (r: Result<(Sections, ImportCounts), Failure>)
        requires
            old(self).wf(),
            old(self).fresh(),
            slab.wf(),
            slab_accepted(slab),
        ensures
            final(self).wf(),
            final(self).parsed == old(self).parsed,
            r matches Ok((sections, counts)) ==> sections.wf() && final(self).prepared(
                &sections,
                counts,
                slab,
            ),
            !old(self).stubs_typed(old(self).parsed.imports@.len() as int) ==> r is Err,
            old(self).stubs_typed(old(self).parsed.imports@.len() as int) && kept_positions(
                old(self).parsed.imports@,
                old(self).parsed.imports@.len() as int,
            ).len() == 0 && !old(self).slab_needed() ==> r is Ok,
            forall|p: int| #[trigger]
                old(self).stub_refused(p) ==> (r matches Err(e) && e == old(self).stub_error(p)),
            old(self).parsed.imports@.len() == 0 && !old(self).slab_needed() ==> *final(self) == *old(
                self,
            ),
            kept_positions(old(self).parsed.imports@, old(self).parsed.imports@.len() as int).len()
                == 0 && !old(self).slab_needed() ==> final(self).indices == old(self).indices
                && final(self).interner == old(self).interner,
            final(self).ty_lookup == old(self).ty_lookup,
            final(self).fn_lookup == old(self).fn_lookup,
            old(self).stubs_typed(old(self).parsed.imports@.len() as int) && old(
                self,
            ).slab_offered() && old(self).slab_needed() && old(self).imports_ready() && (forall|
                mid: Weaver<'a>,
                counts: ImportCounts,
            | #[trigger]
                old(self).after_imports(&mid, counts) ==> mid.slab_fits(slab)) ==> (r matches Ok(
                (_, counts),
            ) && exists|mid: Weaver<'a>| #[trigger]
                old(self).after_imports(&mid, counts) && mid.after_merge(final(self), counts, slab)),
            r matches Ok((_, counts)) ==> forall|f: int|
                counts.funcs <= f < final(self).callable_functions@.len()
                    ==> #[trigger] final(self).callable_functions@[f],
            old(self).stubs_typed(old(self).parsed.imports@.len() as int) && slab_positions(
                old(self).parsed.imports@,
                old(self).parsed.imports@.len() as int,
            ).len() == 0 && !old(self).slab_needed() && old(self).imports_ready() ==> (r matches Ok(
                (_, counts),
            ) && old(self).after_imports(final(self), counts)),
    {
        let parsed = self.parsed;
        let mut sections = Sections::new();
        let pass = match self.weave_imports() {
            Ok(pass) => pass,
            Err(e) => {
                return Err(e);
            },
        };
        proof {
            assert forall|p: int| #[trigger] old(self).stub_refused(p) implies false by {}
        }
        let ghost read = *self;
        let ghost imports = parsed.imports@;
        let ghost count = imports.len() as int;
        proof {
            assert(read.imports_done(&pass, count));
        }
        let ImportPass { counts, deferred, kept } = pass;
        if parsed.imports.len() > 0 {
            sections.imports = Some(kept);
        }
        proof {
            Self::lemma_woven_on(&read, &read, &read);
            assert(read.imports_woven(sections.imports, counts));
        }
        let asks = self.needs_slab();
        if asks || deferred.len() > 0 {
            proof {
                lemma_positions(imports, |import: &Import| is_slab_import(import), count);
                assert forall|d: int| 0 <= d < deferred@.len() implies (#[trigger] deferred@[d]).position
                    < imports.len() by {
                    assert(read.deferred_at(deferred@, d, slab_positions(imports, count)[d]));
                }
                if old(self).stubs_typed(count) && old(self).imports_ready() {
                    lemma_imports_in(imports, Space::Funcs, count);
                    lemma_imports_in(imports, Space::Tables, count);
                    lemma_imports_in(imports, Space::Globals, count);
                    assert(old(self).after_imports(&read, counts));
                }
            }
            let api = match TableSlabApi::merge(self, &mut sections, slab) {
                Ok(api) => api,
                Err(e) => {
                    return Err(e);
                },
            };
            let ghost merged = *self;
            self.table_api = Some(api);
            let ghost with_api = *self;
            proof {
                if old(self).slab_offered() {
                    let waiting = slab_positions(imports, count);
                    lemma_positions_rise(imports, |import: &Import| is_slab_import(import), count);
                    assert forall|d: int| 0 <= d < deferred@.len() implies {
                        let import = imports[(#[trigger] deferred@[d]).position as int];
                        &&& deferred@[d].is_function
                        &&& import.name@ == "free"@
                        &&& !with_api.indices.funcs.mapping().contains_key(deferred@[d].index)
                        &&& forall|e: int|
                            0 <= e < d ==> (#[trigger] deferred@[e]).index != deferred@[d].index
                    } by {
                        let p = waiting[d];
                        assert(read.deferred_at(deferred@, d, p));
                        assert(is_slab_import(&imports[p]));
                        lemma_imports_in(imports, Space::Funcs, p);
                        assert forall|e: int| 0 <= e < d implies (#[trigger] deferred@[e]).index
                            != deferred@[d].index by {
                            let q = waiting[e];
                            assert(read.deferred_at(deferred@, e, q));
                            assert(is_slab_import(&imports[q]));
                            lemma_imports_in(imports, Space::Funcs, q);
                            lemma_imports_in(imports, Space::Funcs, q + 1);
                            lemma_imports_in_grows(imports, Space::Funcs, q + 1, p);
                        }
                    }
                    assert(with_api.bindable(deferred@, deferred@.len() as int));
                }
            }
            match self.bind_deferred(api, &deferred) {
                Ok(()) => {},
                Err(e) => {
                    return Err(e);
                },
            }
            proof {
                assert(deferred@.len() == slab_positions(imports, count).len());
                Self::lemma_woven_on(&read, &merged, &merged);
                assert(merged.woven_on(&with_api));
                Self::lemma_woven_on(&read, &merged, &with_api);
                Self::lemma_woven_on(&read, &with_api, self);
                Self::lemma_imports_stay(&read, self, sections.imports, counts);
                Self::lemma_kept_stays(&read, self, count);
                self.lemma_slab_ready();
                if old(self).stubs_typed(count) && old(self).imports_ready() && old(
                    self,
                ).slab_offered() && read.slab_fits(slab) {
                    let waiting = slab_positions(imports, count);
                    assert(self.stubs_recorded(count));
                    assert(self.kept_bound(count));
                    lemma_imports_in(imports, Space::Funcs, count);
                    assert forall|p: int|
                        0 <= p < imports.len() && #[trigger] is_slab_import(&imports[p]) implies {
                        let k = imports_in(imports, Space::Funcs, p) as u32;
                        &&& !read.indices.funcs.mapping().contains_key(k)
                        &&& self.indices.funcs.mapping().contains_key(k)
                        &&& self.indices.funcs.mapping()[k] == read.indices.funcs.next()
                            + slab_function(slab, "free"@)->0
                    } by {
                        let d = lemma_positions_hold(
                            imports,
                            |import: &Import| is_slab_import(import),
                            p,
                            count,
                        );
                        assert(read.deferred_at(deferred@, d, waiting[d]));
                        lemma_imports_in(imports, Space::Funcs, p);
                    }
                    assert forall|k: u32| #[trigger]
                        self.indices.funcs.mapping().contains_key(k) implies k < counts.funcs by {
                        if !with_api.indices.funcs.mapping().contains_key(k) {
                            let e = choose|e: int|
                                0 <= e < deferred@.len() && (#[trigger] deferred@[e]).index == k;
                            let q = waiting[e];
                            assert(read.deferred_at(deferred@, e, q));
                            assert(is_slab_import(&imports[q]));
                            lemma_imports_in(imports, Space::Funcs, q);
                            lemma_imports_in(imports, Space::Funcs, q + 1);
                            lemma_imports_in_grows(imports, Space::Funcs, q + 1, count);
                        }
                    }
                    assert(read.after_merge(self, counts, slab));
                }
            }
        } else {
            proof {
                assert(deferred@.len() == slab_positions(imports, count).len());
                self.lemma_slab_ready();
                lemma_imports_in(imports, Space::Funcs, count);
            }
        }
        proof {
            let r: Result<(Sections, ImportCounts), Failure> = Ok((sections, counts));
            assert(r->Ok_0.1 == counts);
        }
        Ok((sections, counts))
    }

    /// Weaves the module: goes through its imports and merges the slab
    /// where it is needed, declares its functions, hands its tables,
    /// memories, tags and globals on, writes its bodies, hands its element
    /// and data segments on, and lists its exports and its start function
    /// with their indices in the output.
    pub fn weave(self, slab: &ParsedModule) -> (r: Result<Woven<'a>, Failure>)
        requires
            self.wf(),
            self.fresh(),
            slab.wf(),
            slab_accepted(slab),
        ensures
            r matches Ok(woven) ==> woven.weaver.parsed == self.parsed && woven.complete(slab)
                && woven.weaver.closing_error() is None,
            !self.stubs_typed(self.parsed.imports@.len() as int) ==> r is Err,
            self.parsed.functions@.len() != self.parsed.code@.len() ==> r is Err,
            self.stubs_typed(self.parsed.imports@.len() as int) && self.bare() ==> r is Ok,
            forall|p: int| #[trigger]
                self.stub_refused(p) ==> (r matches Err(e) && e == self.stub_error(p)),
            self.idle() ==> match self.closing_error() {
                Some(e) => r matches Err(found) && found == e,
                None => r is Ok,
            },
            self.all_ready(slab) ==> r is Ok,
    {
        let mut weaver = self;
        let parsed = weaver.parsed;
        let ghost ready = self.all_ready(slab);
        let ghost t = parsed.tables@.len() as int;
        let ghost g = parsed.globals@.len() as int;
        let (mut sections, counts) = match weaver.prepare(slab) {
            Ok(prepared) => prepared,
            Err(e) => {
                return Err(e);
            },
        };
        proof {
            assert forall|p: int| #[trigger] self.stub_refused(p) implies false by {}
        }
        let ghost base = weaver;
        let ghost listed = declared(sections.functions);
        let ghost had = bodies(sections.code);
        proof {
            assert(base.prepared(&sections, counts, slab));
            assert(crate::sections::all_encodable(had, had.len() as int));
        }
        proof {
            lemma_imports_in(parsed.imports@, Space::Funcs, parsed.imports@.len() as int);
            lemma_imports_in(parsed.imports@, Space::Tables, parsed.imports@.len() as int);
            lemma_imports_in(parsed.imports@, Space::Globals, parsed.imports@.len() as int);
        }
        proof {
            if ready {
                if self.slab_needed() {
                    let mid = choose|mid: Weaver<'a>| #[trigger]
                        self.after_imports(&mid, counts) && mid.after_merge(&base, counts, slab);
                    assert(self.after_imports(&mid, counts) && mid.after_merge(
                        &base,
                        counts,
                        slab,
                    ));
                    assert(base.rest_ready(
                        counts,
                        slab.tables@.len() as int,
                        slab.globals@.len() as int,
                    ));
                } else {
                    assert(self.after_imports(&base, counts));
                    assert(base.rest_ready(counts, 0, 0));
                }
            }
        }
        weaver.weave_functions(&mut sections.functions, counts.funcs)?;
        let ghost step1 = weaver;
        let ghost list = declared(sections.functions);
        proof {
            if ready {
                assert forall|i: int|
                    0 <= i < parsed.functions@.len() && base.keeps_type(
                        i as u32,
                    ) implies step1.indices.types.mapping().contains_key(
                    #[trigger] parsed.functions@[i],
                ) by {
                    assert(step1.declares(i as u32, list[listed.len() + i], &step1));
                }
                assert(base.during(&step1, counts, 0, 0));
            }
        }
        weaver.weave_items(
            &mut sections.tables,
            SectionKind::Tables,
            &parsed.tables,
            Some(Space::Tables),
            counts.tables,
        )?;
        let ghost step2 = weaver;
        proof {
            if ready {
                Self::lemma_woven_on(&base, &step1, &step2);
                assert(step2.mapper(Space::Funcs) == step1.mapper(Space::Funcs));
                assert(step2.mapper(Space::Globals) == step1.mapper(Space::Globals));
                assert(base.during(&step2, counts, t, 0));
            }
        }
        weaver.weave_items(&mut sections.memories, SectionKind::Memories, &parsed.memories, None, 0)?;
        let ghost step3 = weaver;
        proof {
            if ready {
                Self::lemma_woven_on(&base, &step2, &step3);
                assert(step3.mapper(Space::Funcs) == step2.mapper(Space::Funcs));
                assert(step3.mapper(Space::Tables) == step2.mapper(Space::Tables));
                assert(step3.mapper(Space::Globals) == step2.mapper(Space::Globals));
                assert(base.during(&step3, counts, t, 0));
            }
        }
        weaver.weave_items(&mut sections.tags, SectionKind::Tags, &parsed.tags, None, 0)?;
        let ghost step4 = weaver;
        proof {
            if ready {
                Self::lemma_woven_on(&base, &step3, &step4);
                assert(step4.mapper(Space::Funcs) == step3.mapper(Space::Funcs));
                assert(step4.mapper(Space::Tables) == step3.mapper(Space::Tables));
                assert(step4.mapper(Space::Globals) == step3.mapper(Space::Globals));
                assert(base.during(&step4, counts, t, 0));
            }
        }
        weaver.weave_items(
            &mut sections.globals,
            SectionKind::Globals,
            &parsed.globals,
            Some(Space::Globals),
            counts.globals,
        )?;
        let ghost step5 = weaver;
        proof {
            if ready {
                Self::lemma_woven_on(&base, &step4, &step5);
                assert(step5.mapper(Space::Funcs) == step4.mapper(Space::Funcs));
                assert(step5.mapper(Space::Tables) == step4.mapper(Space::Tables));
                assert(base.during(&step5, counts, t, g));
            }
        }
        weaver.weave_code(&mut sections.code)?;
        let ghost step6 = weaver;
        let ghost code = bodies(sections.code);
        proof {
            if ready {
                Self::lemma_woven_on(&step5, &step6, &step6);
                Self::lemma_woven_on(&base, &step5, &step6);
                assert(base.during(&step6, counts, t, g));
            }
        }
        weaver.weave_items(&mut sections.elements, SectionKind::Elements, &parsed.elements, None, 0)?;
        let ghost step7 = weaver;
        proof {
            if ready {
                Self::lemma_woven_on(&base, &step6, &step7);
                assert(step7.mapper(Space::Funcs) == step6.mapper(Space::Funcs));
                assert(step7.mapper(Space::Tables) == step6.mapper(Space::Tables));
                assert(step7.mapper(Space::Globals) == step6.mapper(Space::Globals));
                assert(base.during(&step7, counts, t, g));
            }
        }
        weaver.weave_items(&mut sections.data, SectionKind::Data, &parsed.data_segments, None, 0)?;
        proof {
            if ready {
                Self::lemma_woven_on(&base, &step7, &weaver);
                assert(weaver.mapper(Space::Funcs) == step7.mapper(Space::Funcs));
                assert(weaver.mapper(Space::Tables) == step7.mapper(Space::Tables));
                assert(weaver.mapper(Space::Globals) == step7.mapper(Space::Globals));
                assert(base.during(&weaver, counts, t, g));
            }
        }
        proof {
            Self::lemma_woven_on(&base, &step1, &step2);
            Self::lemma_woven_on(&base, &step2, &step3);
            Self::lemma_woven_on(&base, &step3, &step4);
            Self::lemma_woven_on(&base, &step4, &step5);
            Self::lemma_woven_on(&step5, &step6, &step6);
            Self::lemma_woven_on(&base, &step5, &step6);
            Self::lemma_woven_on(&base, &step6, &step7);
            Self::lemma_woven_on(&base, &step7, &weaver);
            Self::lemma_woven_on(&step1, &step2, &step3);
            Self::lemma_woven_on(&step1, &step3, &step4);
            Self::lemma_woven_on(&step1, &step4, &step5);
            Self::lemma_woven_on(&step1, &step5, &step6);
            Self::lemma_woven_on(&step1, &step6, &step7);
            Self::lemma_woven_on(&step1, &step7, &weaver);
            Self::lemma_woven_on(&step6, &step7, &weaver);
            assert(step2.mapper(Space::Funcs) == step1.mapper(Space::Funcs));
            assert(step3.mapper(Space::Funcs) == step2.mapper(Space::Funcs));
            assert(step4.mapper(Space::Funcs) == step3.mapper(Space::Funcs));
            assert(step5.mapper(Space::Funcs) == step4.mapper(Space::Funcs));
            assert(step7.mapper(Space::Funcs) == step6.mapper(Space::Funcs));
            assert(weaver.mapper(Space::Funcs) == step7.mapper(Space::Funcs));
            assert(weaver.indices.funcs == step1.indices.funcs);
            assert(step3.mapper(Space::Tables) == step2.mapper(Space::Tables));
            assert(step4.mapper(Space::Tables) == step3.mapper(Space::Tables));
            assert(step5.mapper(Space::Tables) == step4.mapper(Space::Tables));
            assert(step7.mapper(Space::Tables) == step6.mapper(Space::Tables));
            assert(weaver.mapper(Space::Tables) == step7.mapper(Space::Tables));
            assert(weaver.indices.tables == step2.indices.tables);
            assert(step2.mapper(Space::Globals) == step1.mapper(Space::Globals));
            assert(step3.mapper(Space::Globals) == step2.mapper(Space::Globals));
            assert(step4.mapper(Space::Globals) == step3.mapper(Space::Globals));
            assert(step7.mapper(Space::Globals) == step6.mapper(Space::Globals));
            assert(weaver.mapper(Space::Globals) == step7.mapper(Space::Globals));
            assert(weaver.indices.globals == step5.indices.globals);
            assert(step4.indices.globals == base.indices.globals);
            assert(step1.indices.tables == base.indices.tables);
            Self::lemma_imports_stay(&base, &weaver, sections.imports, counts);
            Self::lemma_declared_stays(&step1, &weaver, list, listed.len() as int);
            Self::lemma_bodies_stay(&step6, &weaver, code, had.len() as int);
            lemma_bound_run(
                &base.indices.funcs,
                &step1.indices.funcs,
                counts.funcs as int,
                parsed.functions@.len() as int,
            );
            lemma_bound_run(
                &step1.mapper(Space::Tables),
                &step2.mapper(Space::Tables),
                counts.tables as int,
                parsed.tables@.len() as int,
            );
            lemma_bound_run(
                &step4.mapper(Space::Globals),
                &step5.mapper(Space::Globals),
                counts.globals as int,
                parsed.globals@.len() as int,
            );
        }
        proof {
            if self.bare() {
                assert forall|k: int| 0 <= k < parsed.exports@.len() implies #[trigger] weaver.exported_index(
                    parsed.exports@[k].kind,
                    parsed.exports@[k].index,
                ) is Ok by {
                    assert(parsed.exports@[k].kind is Memory || parsed.exports@[k].kind is Tag);
                }
                weaver.lemma_no_export_error(parsed.exports@.len() as int);
            }
        }
        let rest = match weaver.close() {
            Ok(rest) => rest,
            Err(e) => {
                return Err(e);
            },
        };
        sections.exports = rest.exports;
        sections.start = rest.start;
        sections.data_count = rest.data_count;
        let woven = Woven { sections, weaver, counts };
        proof {
            let w = &woven.weaver;
            assert(w.slab_ready());
            assert(w.imports_woven(woven.sections.imports, woven.counts));
            assert(w.functions_woven(woven.sections.functions, woven.counts, slab));
            assert(crate::sections::all_encodable(code, had.len() as int)) by {
                assert forall|i: int, k: int|
                    0 <= i < had.len() && 0 <= k < code[i].locals@.len() implies crate::encoder::encodable(
                    #[trigger] code[i].locals@[k].1,
                ) by {
                    assert(code.subrange(0, had.len() as int)[i] == had[i]);
                    assert(crate::encoder::encodable(had[i].locals@[k].1));
                }
            }
            assert(bodies(woven.sections.code).subrange(0, had.len() as int) =~= code.subrange(
                0,
                had.len() as int,
            ));
            assert(w.code_woven(woven.sections.code, slab));
            Self::lemma_items_stay(
                &step2,
                w,
                SectionKind::Tables,
                parsed.tables@,
                item_entries(woven.sections.tables),
            );
            Self::lemma_items_stay(
                &step3,
                w,
                SectionKind::Memories,
                parsed.memories@,
                item_entries(woven.sections.memories),
            );
            Self::lemma_items_stay(
                &step4,
                w,
                SectionKind::Tags,
                parsed.tags@,
                item_entries(woven.sections.tags),
            );
            Self::lemma_items_stay(
                &step5,
                w,
                SectionKind::Globals,
                parsed.globals@,
                item_entries(woven.sections.globals),
            );
            Self::lemma_items_stay(
                &step7,
                w,
                SectionKind::Elements,
                parsed.elements@,
                item_entries(woven.sections.elements),
            );
            assert(w.items_woven(&woven.sections, woven.counts, slab));
            assert(w.rest_woven(&woven.sections));
            assert(w.untouched(
                woven.counts,
                parsed.functions@.len(),
                parsed.tables@.len(),
                parsed.globals@.len(),
            ));
        }
        Ok(woven)
    }
    /// Weaves the module and writes the sections of the output into
    /// `module`: the type section first, then the sections that
    /// [`Weaver::section_ids`] lists. On an error nothing is written.
    pub fn encode(self, module: &mut wasm_encoder::Module, slab: &ParsedModule) -> (r: Result<
        (),
        Failure,
    >)
        requires
            self.wf(),
            self.fresh(),
            slab.wf(),
            slab_accepted(slab),
        ensures
            match r {
                Ok(()) => module_sections(*final(module)) == module_sections(*old(module))
                    + self.section_ids(slab),
                Err(_) => *final(module) == *old(module),
            },
            !self.stubs_typed(self.parsed.imports@.len() as int) ==> r is Err,
            self.parsed.functions@.len() != self.parsed.code@.len() ==> r is Err,
            self.stubs_typed(self.parsed.imports@.len() as int) && self.bare() ==> r is Ok,
            forall|p: int| #[trigger]
                self.stub_refused(p) ==> (r matches Err(e) && e == self.stub_error(p)),
            self.idle() ==> match self.closing_error() {
                Some(e) => r matches Err(found) && found == e,
                None => r is Ok,
            },
            self.section_ids(slab).len() == 0 ==> *final(module) == *old(module),
            self.all_ready(slab) && self.takes_back() ==> r is Ok,
            r is Ok ==> exists|woven: Woven<'a>| #[trigger]
                woven.complete(slab) && woven.weaver.parsed == self.parsed
                    && woven.weaver.closing_error() is None && module_held(*final(module))
                    == woven.laid_into(module_held(*old(module))),
    {
        let woven = match self.weave(slab) {
            Ok(woven) => woven,
            Err(e) => {
                return Err(e);
            },
        };
        proof {
            assert forall|p: int| #[trigger] self.stub_refused(p) implies false by {}
        }
        proof {
            woven.lemma_section_ids(slab);
            if self.all_ready(slab) && self.takes_back() {
                woven.lemma_locals_encodable(slab);
                woven.lemma_imports_taken(slab);
            }
        }
        let ghost whole = woven;
        let Woven { sections, weaver, counts: _ } = woven;
        let typed = weaver.parsed.types.len() > 0 || weaver.table_api.is_some();
        let types = if typed {
            Some(weaver.interner.into_section())
        } else {
            None
        };
        proof {
            sections.lemma_no_ids(typed);
        }
        let r = sections.encode(module, types);
        proof {
            if r is Ok {
                assert(whole.complete(slab));
                assert(module_held(*module) == whole.laid_into(module_held(*old(module))));
            }
        }
        r
    }
}

/// `bytes` are the bytes of a module that holds the header and then the
/// sections that weaving `parsed` with the slab gives, with what a woven
/// module holds, see [`Woven::complete`] and [`Woven::laid_into`].
pub open spec fn holds_woven(bytes: Seq<u8>, parsed: &ParsedModule, slab: &ParsedModule) -> bool {
    exists|module: wasm_encoder::Module, woven: Woven|
        #![trigger module_bytes(module), woven.complete(slab)]
        module_bytes(module) == bytes && module_sections(module) == output_sections(parsed, slab)
            && woven.complete(slab) && woven.weaver.parsed == parsed
            && woven.weaver.closing_error() is None && module_held(module) == woven.laid_into(
            Seq::empty(),
        )
}

/// Whether weaving `parsed` with `slab` succeeds at once, whatever weaver
/// sets out on it: the module can be woven at once, see
/// [`Weaver::all_ready`], and the encoder reads again what it writes for
/// the imports.
pub open spec fn weaves(parsed: &ParsedModule, slab: &ParsedModule) -> bool {
    forall|w: Weaver|
        #![trigger w.all_ready(slab)]
        w.wf() && w.fresh() && w.parsed == parsed ==> w.all_ready(slab) && w.takes_back()
}

/// `record` is a record of the module that `data` holds, as
/// [`ParsedModule::read`] returns one.
pub open spec fn record_of(record: &ParsedModule, data: Seq<u8>) -> bool {
    &&& record.wf()
    &&& record.data@ == data
    &&& forall|k: int|
        ends_at(data, chunks_of(data), k) ==> record.gathered(chunks_of(data), k)
}

/// Weaves a module that was read, with a slab that was read, and returns
/// the bytes of the output. A module that has more bodies than
/// declarations is refused, and so is a slab that imports anything, has a
/// memory, a tag, a start function, an element segment or data, or has
/// not as many bodies as declarations. An error of weaving is handed on
/// as it is.
pub fn encode_parsed(parsed: &ParsedModule, slab: &ParsedModule) -> (r: Result<Vec<u8>, Failure>)
    requires
        parsed.wf(),
        slab.wf(),
    ensures
        !weavable(parsed) ==> r matches Err(Failure::InvalidCodeSectionSize),
        weavable(parsed) && !slab_accepted(slab) ==> r matches Err(
            Failure::Read(ReadError::Malformed),
        ),
        weavable(parsed) && slab_accepted(slab) && weaves(parsed, slab) ==> r is Ok,
        r matches Ok(bytes) ==> holds_woven(bytes@, parsed, slab),
        r matches Ok(bytes) ==> (output_sections(parsed, slab).len() == 0 ==> bytes@ == header()),
{
    if !is_weavable(parsed) {
        return Err(Failure::InvalidCodeSectionSize);
    }
    if !is_slab_accepted(slab) {
        return Err(Failure::Read(ReadError::Malformed));
    }
    let weaver = Weaver::new(parsed);
    let mut module = module_new();
    proof {
        weaver.lemma_output_sections(slab);
        if weaves(parsed, slab) {
            assert(weaver.fresh());
            assert(weaver.parsed == parsed);
            assert(weaver.wf());
            assert(weaver.all_ready(slab));
        }
    }
    weaver.encode(&mut module, slab)?;
    assert(module_sections(module) =~= output_sections(parsed, slab));
    let ghost finished = module;
    let bytes = module_finish(module);
    proof {
        let woven = choose|woven: Woven| #[trigger]
            woven.complete(slab) && woven.weaver.parsed == parsed && woven.weaver.closing_error()
                is None && module_held(finished) == woven.laid_into(Seq::empty());
        assert(module_bytes(finished) == bytes@);
        assert(woven.complete(slab));
        assert(holds_woven(bytes@, parsed, slab));
    }
    Ok(bytes)
}

/// Hands the bytes of a module to the validator: they come back where it
/// accepts them, and its refusal is an error of validation.
pub fn validated(bytes: Vec<u8>) -> (r: Result<Vec<u8>, Failure>)
    ensures
        validates(bytes@) ==> r == Ok::<Vec<u8>, Failure>(bytes),
        !validates(bytes@) ==> r matches Err(Failure::Validate(_)),
{
    match validate(bytes.as_slice()) {
        Ok(()) => Ok(bytes),
        Err(e) => Err(Failure::Validate(e)),
    }
}

/// Weaves a module that was read, with a slab that was read, as
/// [`encode_parsed`] says, and hands the bytes of the output to the
/// validator, as [`validated`] says: an error of weaving comes back as it
/// is, a refusal of the validator as an error of validation, and the
/// bytes only where the validator accepts them.
pub fn weave_parsed(parsed: &ParsedModule, slab: &ParsedModule) -> (r: Result<Vec<u8>, Failure>)
    requires
        parsed.wf(),
        slab.wf(),
    ensures
        !weavable(parsed) ==> r matches Err(Failure::InvalidCodeSectionSize),
        weavable(parsed) && !slab_accepted(slab) ==> r matches Err(
            Failure::Read(ReadError::Malformed),
        ),
        weavable(parsed) && slab_accepted(slab) && weaves(parsed, slab) ==> (r is Ok || r matches Err(
            Failure::Validate(_),
        )),
        r matches Ok(bytes) ==> validates(bytes@) && holds_woven(bytes@, parsed, slab),
        r matches Ok(bytes) ==> (output_sections(parsed, slab).len() == 0 ==> bytes@ == header()),
{
    match encode_parsed(parsed, slab) {
        Ok(bytes) => validated(bytes),
        Err(e) => Err(e),
    }
}

/// Weaves the module that `input` holds, with the slab that `slab` holds,
/// and returns the bytes of the output. The input is read; a record with
/// more bodies than declarations is refused; the slab is read; and the
/// module is woven as [`weave_parsed`] says. An input or a slab that
/// cannot be read is an error of reading.
pub fn weave_module(input: &[u8], slab: &[u8]) -> (r: Result<Vec<u8>, Failure>)
    ensures
        r matches Ok(bytes) ==> validates(bytes@) && readable(input@) && readable(slab@),
        !readable(input@) ==> r matches Err(Failure::Read(_)),
        readable(input@) && (forall|p: ParsedModule| #[trigger] record_of(&p, input@) ==> !weavable(&p))
            ==> r matches Err(Failure::InvalidCodeSectionSize),
        readable(input@) && !readable(slab@) && (forall|p: ParsedModule| #[trigger]
            record_of(&p, input@) ==> weavable(&p)) ==> r matches Err(Failure::Read(_)),
        readable(input@) && readable(slab@) && (forall|p: ParsedModule| #[trigger]
            record_of(&p, input@) ==> weavable(&p)) && (forall|s: ParsedModule| #[trigger]
            record_of(&s, slab@) ==> !slab_accepted(&s)) ==> r matches Err(
            Failure::Read(ReadError::Malformed),
        ),
        readable(input@) && readable(slab@) && (forall|p: ParsedModule| #[trigger]
            record_of(&p, input@) ==> weavable(&p)) && (forall|p: ParsedModule, s: ParsedModule|
            #![trigger record_of(&p, input@), record_of(&s, slab@)]
            record_of(&p, input@) && record_of(&s, slab@) ==> slab_accepted(&s) && weaves(&p, &s))
            ==> (r is Ok || r matches Err(Failure::Validate(_))),
{
    let parsed = match ParsedModule::read(input) {
        Ok(parsed) => parsed,
        Err(e) => {
            return Err(Failure::Read(e));
        },
    };
    assert(record_of(&parsed, input@));
    if !is_weavable(&parsed) {
        return Err(Failure::InvalidCodeSectionSize);
    }
    let parsed_slab = match ParsedModule::read(slab) {
        Ok(parsed) => parsed,
        Err(e) => {
            return Err(Failure::Read(e));
        },
    };
    assert(record_of(&parsed_slab, slab@));
    weave_parsed(&parsed, &parsed_slab)
}

} // verus!
