//! What a woven module guarantees to whoever runs it.

use crate::body::{is_externref, meta_at, wire_signature};
use crate::code::follows;
use crate::encoder::Instr;
use crate::function::{asks_for_anything, asks_for_externref, stub_of};
use crate::import_pass::{
    imports_in, is_slab_import, is_stub, kept_in, kept_positions, lemma_positions, slab_positions,
    space_of, stub_positions, Space,
};
use crate::progress::{binds_run, identity_to};
use crate::parse::{Import, ParsedModule};
use crate::reader::OpKind;
use crate::sections::FunctionOut;
use crate::signature::SignatureKeyView;
use crate::types::{FuncTypeView, MetaKind, ValueType, ValueTypeMeta};
use crate::weaver::{ReturnStub, Weaver};
use crate::woven::{imported, output_sections, slab_asked, Woven};
use vstd::prelude::*;

verus! {

/// Every tag is the tag of a plain value.
pub open spec fn all_plain(metas: Seq<ValueTypeMeta>) -> bool {
    forall|k: int| 0 <= k < metas.len() ==> (#[trigger] metas[k]).spec_kind() == MetaKind::Plain
}

impl<'a> Weaver<'a> {
    /// The return stub of the function whose body stands at `body_index`:
    /// the stub that bears the name under which the function is exported.
    pub open spec fn stub_for(&self, body_index: u32) -> Option<ReturnStub<'a>> {
        let entry = self.fn_lookup.entries()[self.fn_lookup.imported() + body_index];
        match entry->Body_export_name {
            Some(name) => stub_of(self.returns_lookup@, name@, self.returns_lookup@.len() as int),
            None => None,
        }
    }

    /// The tags of the function whose body stands at `body_index`: those
    /// of the signature that bears the name under which the function is
    /// exported.
    pub open spec fn tags_for(&self, body_index: u32) -> Option<Seq<ValueTypeMeta>> {
        let entry = self.fn_lookup.entries()[self.fn_lookup.imported() + body_index];
        match entry->Body_export_name {
            Some(name) => if self.parsed.signatures.contains(SignatureKeyView::Export(name@)) {
                Some(self.parsed.signatures.metas(SignatureKeyView::Export(name@)))
            } else {
                None
            },
            None => None,
        }
    }

    /// A function without a return stub whose tags, if it has any, are
    /// those of plain values is left as it is: it is declared with the
    /// index that its own type has in the output, and its body is written
    /// instruction by instruction, without wrapper, return or branch in
    /// place of a call.
    pub proof fn lemma_plain_function_kept(&self, body_index: u32, index: u32, out: FunctionOut)
        requires
            self.declares(body_index, index, self),
            self.was_woven(body_index, out, self),
            self.stub_for(body_index) is None,
            self.tags_for(body_index) matches Some(metas) ==> all_plain(metas),
        ensures
            self.indices.types.mapping().contains_key(self.parsed.functions@[body_index as int]),
            self.indices.types.mapping()[self.parsed.functions@[body_index as int]] == index,
            exists|kinds: Seq<OpKind>| #[trigger]
                follows(out.body@, kinds, None, false, Map::empty(), self.maps()),
    {
        if let Some(metas) = self.tags_for(body_index) {
            assert(!asks_for_externref(metas)) by {
                if asks_for_externref(metas) {
                    let k = choose|k: int|
                        0 <= k < metas.len() && is_externref(#[trigger] meta_at(Some(metas), k));
                    assert(metas[k].spec_kind() == MetaKind::Plain);
                }
            }
            assert(!asks_for_anything(metas));
        }
        let (kinds, map, block, staging, middle) = choose|
            kinds: Seq<OpKind>,
            map: Map<u32, u32>,
            block: u32,
            staging: u32,
            middle: Seq<Instr>,
        | #[trigger] self.wove(body_index, out, kinds, map, block, staging, middle, self);
        assert(self.wove(body_index, out, kinds, map, block, staging, middle, self));
        assert(self.plan(body_index).metas is None);
        assert(self.plan(body_index).marker is None);
        assert(map =~= Map::empty());
        assert(follows(out.body@, kinds, None, false, Map::empty(), self.maps()));
    }

    /// A function without a return stub whose tags, if it has any, are
    /// those of plain values keeps its signature: the type that the
    /// output declares for it has the parameters and results of the type
    /// that the module declares for it, in order, with every type index
    /// that they name renumbered. The copied instructions of its body are
    /// what the encoder made of the instructions of the module, one for
    /// one.
    pub proof fn lemma_plain_signature_kept(&self, body_index: u32, index: u32, out: FunctionOut)
        requires
            self.wf(),
            body_index < self.parsed.functions@.len(),
            self.declares(body_index, index, self),
            self.was_woven(body_index, out, self),
            self.stub_for(body_index) is None,
            self.tags_for(body_index) matches Some(metas) ==> all_plain(metas),
            self.parsed.functions@[body_index as int] < self.ty_lookup.entries().len(),
            self.ty_lookup.entries()[self.parsed.functions@[body_index as int] as int].sub_type.func
                is Some,
        ensures
            ({
                let ty = self.parsed.functions@[body_index as int];
                let func = self.ty_lookup.entries()[ty as int].sub_type.func->0;
                &&& self.maps().val_types_ok(func.params@)
                &&& self.maps().val_types_ok(func.results@)
                &&& self.interner.has_signature(
                    index,
                    (FuncTypeView {
                        params: self.maps().val_types(func.params@),
                        results: self.maps().val_types(func.results@),
                    }),
                )
            }),
            crate::code::copied(
                out.body@,
                crate::reader::ops_at(
                    self.parsed.data@,
                    self.parsed.code@[body_index as int].start as int,
                    self.parsed.code@[body_index as int].end as int,
                ),
                self.maps(),
            ),
    {
        self.lemma_plain_function_kept(body_index, index, out);
        let ty = self.parsed.functions@[body_index as int];
        let func = self.ty_lookup.entries()[ty as int].sub_type.func->0;
        let only = crate::weaver::types_only(self.indices.types.mapping());
        assert(self.indices.types.mapping().contains_key(ty));
        assert(crate::weaver::signed(
            self.indices.types.mapping(),
            self.interner,
            self.indices.types.mapping()[ty],
            func,
        ));
        crate::persist::lemma_val_types_stay(only, self.maps(), func.params@);
        crate::persist::lemma_val_types_stay(only, self.maps(), func.results@);
        let (kinds, map, block, staging, middle) = choose|
            kinds: Seq<OpKind>,
            map: Map<u32, u32>,
            block: u32,
            staging: u32,
            middle: Seq<Instr>,
        | #[trigger] self.wove(body_index, out, kinds, map, block, staging, middle, self);
        assert(self.wove(body_index, out, kinds, map, block, staging, middle, self));
        assert(self.plan(body_index).metas is None) by {
            if let Some(metas) = self.tags_for(body_index) {
                assert(!asks_for_anything(metas)) by {
                    if asks_for_anything(metas) {
                        let k = choose|k: int|
                            0 <= k < metas.len() && (#[trigger] metas[k]).spec_kind()
                                != MetaKind::Plain;
                        assert(metas[k].spec_kind() == MetaKind::Plain);
                    }
                }
            }
        }
    }

    /// A function with a return stub, or with a tag that asks for a host
    /// reference, is declared with the signature that the host sees: its
    /// own parameters, as many results as its stub has parameters, or its
    /// own results where it has no stub, and `externref` in every slot
    /// whose tag asks for a host reference.
    pub proof fn lemma_host_signature(&self, body_index: u32, index: u32)
        requires
            self.wf(),
            body_index < self.parsed.functions@.len(),
            self.declares(body_index, index, self),
            self.stub_for(body_index) is Some || (self.tags_for(body_index) matches Some(metas)
                && asks_for_externref(metas)),
        ensures
            ({
                let ty = self.parsed.functions@[body_index as int];
                let func = self.ty_lookup.entries()[ty as int].sub_type.func.unwrap();
                let results = match self.stub_for(body_index) {
                    Some(stub) => stub.params@,
                    None => func.results@,
                };
                let wire = wire_signature(func.params@, results, self.tags_for(body_index));
                &&& wire.params.len() == func.params@.len()
                &&& wire.results.len() == results.len()
                &&& forall|k: int|
                    0 <= k < wire.params.len() ==> #[trigger] wire.params[k] == if is_externref(
                        meta_at(self.tags_for(body_index), k),
                    ) {
                        ValueType::spec_externref()
                    } else {
                        func.params@[k]
                    }
                &&& forall|k: int|
                    0 <= k < wire.results.len() ==> #[trigger] wire.results[k] == if is_externref(
                        meta_at(self.tags_for(body_index), func.params@.len() + k),
                    ) {
                        ValueType::spec_externref()
                    } else {
                        results[k]
                    }
                &&& self.maps().val_types_ok(wire.params)
                &&& self.maps().val_types_ok(wire.results)
                &&& self.interner.has_signature(
                    index,
                    (FuncTypeView {
                        params: self.maps().val_types(wire.params),
                        results: self.maps().val_types(wire.results),
                    }),
                )
            }),
    {
    }

    /// No instruction that is copied into a body names a return stub: a
    /// `return_call` or a `ref.func` names a function that code may refer
    /// to.
    pub proof fn lemma_no_stub_named(
        &self,
        body_index: u32,
        out: FunctionOut,
        kinds: Seq<OpKind>,
        map: Map<u32, u32>,
        block: u32,
        staging: u32,
        middle: Seq<Instr>,
        at: int,
        stub: int,
    )
        requires
            self.wove(body_index, out, kinds, map, block, staging, middle, self),
            self.stubs_recorded(self.parsed.imports@.len() as int),
            0 <= at < middle.len(),
            middle[at] is Raw,
            0 <= stub < self.returns_lookup@.len(),
            at < crate::reader::ops_at(
                self.parsed.data@,
                self.parsed.code@[body_index as int].start as int,
                self.parsed.code@[body_index as int].end as int,
            ).len(),
        ensures
            crate::reader::function_of(
                crate::reader::ops_at(
                    self.parsed.data@,
                    self.parsed.code@[body_index as int].start as int,
                    self.parsed.code@[body_index as int].end as int,
                )[at],
            ) != Some(self.returns_lookup@[stub].marker),
    {
        let found = stub_positions(self.parsed.imports@, self.parsed.imports@.len() as int);
        assert(self.stub_at(stub, found[stub]));
        let marker = self.returns_lookup@[stub].marker;
        assert(self.maps().function_index(marker) is Err);
        let ops = crate::reader::ops_at(
            self.parsed.data@,
            self.parsed.code@[body_index as int].start as int,
            self.parsed.code@[body_index as int].end as int,
        );
        assert(crate::code::copied(middle, ops, self.maps()));
        assert(crate::code::names_bound(ops[at], self.maps()));
    }

    /// The body of a function that has no return stub and no tag that asks
    /// for anything is the body that the module has, instruction by
    /// instruction, with nothing before and nothing behind: a call calls
    /// what the called function became, an access to a local is the same
    /// access to the same local, and every other instruction is what the
    /// encoder made of the instruction at its place.
    pub proof fn lemma_plain_body_copied(
        &self,
        body_index: u32,
        out: FunctionOut,
        kinds: Seq<OpKind>,
        map: Map<u32, u32>,
        block: u32,
        staging: u32,
        middle: Seq<Instr>,
        at: int,
    )
        requires
            self.wove(body_index, out, kinds, map, block, staging, middle, self),
            self.plan(body_index).metas is None,
            self.plan(body_index).marker is None,
            0 <= at < kinds.len(),
        ensures
            kinds == crate::reader::kinds_at(
                self.parsed.data@,
                self.parsed.code@[body_index as int].start as int,
                self.parsed.code@[body_index as int].end as int,
            ),
            out.body@.len() == kinds.len(),
            match kinds[at] {
                OpKind::Call(f) => (out.body@[at] matches Instr::Call(target)
                    && self.maps().function_index(f) == Ok::<u32, crate::error::WeaveError>(target)),
                OpKind::LocalGet(i) => out.body@[at] == Instr::LocalGet(i),
                OpKind::LocalSet(i) => out.body@[at] == Instr::LocalSet(i),
                OpKind::LocalTee(i) => out.body@[at] == Instr::LocalTee(i),
                _ => (out.body@[at] matches Instr::Raw(bytes) && crate::code::op_written(
                    crate::reader::ops_at(
                        self.parsed.data@,
                        self.parsed.code@[body_index as int].start as int,
                        self.parsed.code@[body_index as int].end as int,
                    )[at],
                    bytes@,
                    self.maps(),
                )),
            },
    {
        let ops = crate::reader::ops_at(
            self.parsed.data@,
            self.parsed.code@[body_index as int].start as int,
            self.parsed.code@[body_index as int].end as int,
        );
        assert(kinds == crate::reader::kinds_of(ops));
        assert(crate::code::copied(middle, ops, self.maps()));
        assert(follows(middle, kinds, None, false, map, self.maps()));
        assert(crate::code::instr_for(
            middle[at],
            crate::body::step_of(
                kinds[at],
                None,
                false,
                crate::body::depth_at(kinds, at) as u32,
                map,
            ),
            self.maps(),
        ));
    }

    /// No call of a return stub is left in a body: where a body calls a
    /// return stub, the stub is the function's own, and what is written in
    /// place of the call is a return or a branch.
    pub proof fn lemma_stub_calls_replaced(
        &self,
        body_index: u32,
        out: FunctionOut,
        kinds: Seq<OpKind>,
        map: Map<u32, u32>,
        block: u32,
        staging: u32,
        middle: Seq<Instr>,
        at: int,
        stub: int,
    )
        requires
            self.wove(body_index, out, kinds, map, block, staging, middle, self),
            self.stubs_recorded(self.parsed.imports@.len() as int),
            0 <= at < kinds.len(),
            0 <= stub < self.returns_lookup@.len(),
            kinds[at] == OpKind::Call(self.returns_lookup@[stub].marker),
        ensures
            self.plan(body_index).marker == Some(self.returns_lookup@[stub].marker),
            middle[at] is Return || middle[at] is Br,
    {
        let found = stub_positions(self.parsed.imports@, self.parsed.imports@.len() as int);
        assert(self.stub_at(stub, found[stub]));
        let marker = self.returns_lookup@[stub].marker;
        assert(self.maps().function_index(marker) is Err);
    }
}

/// Where the encoder refuses none of the first `count` imports, it has no
/// first that it refuses.
pub proof fn lemma_none_refused(list: Seq<crate::sections::ImportOut>, count: int)
    requires
        0 <= count <= list.len(),
        forall|k: int|
            0 <= k < list.len() ==> crate::encoder::entity_refused(#[trigger] list[k].entity@)
                is None,
    ensures
        crate::sections::import_failure(list, count) is None,
    decreases count,
{
    if count > 0 {
        lemma_none_refused(list, count - 1);
    }
}

/// Where none of the first `count` imports is a return stub or of the
/// slab's namespace, the output keeps them all, in their places.
pub proof fn lemma_all_kept(imports: Seq<Import>, count: int)
    requires
        0 <= count,
        stub_positions(imports, count).len() == 0,
        slab_positions(imports, count).len() == 0,
    ensures
        kept_positions(imports, count) =~= Seq::new(count as nat, |i: int| i),
    decreases count,
{
    if count > 0 {
        lemma_all_kept(imports, count - 1);
    }
}

impl<'a> Woven<'a> {
    /// Every type of the module that has an index in the output stands in
    /// the type section of the output at that index, as the encoder wrote
    /// it with type indices of the output.
    pub proof fn lemma_type_written(&self, slab: &ParsedModule, t: u32)
        requires
            self.complete(slab),
            t < self.weaver.ty_lookup.entries().len(),
            self.weaver.indices.types.mapping().contains_key(t),
        ensures
            self.weaver.indices.types.mapping()[t] < crate::type_allocator::keys_held(
                self.weaver.interner.section().held(),
            ).len(),
            crate::weaver::key_made(
                self.weaver.parsed.data@,
                self.weaver.ty_lookup.entries()[t as int].group.span.start as int,
                self.weaver.ty_lookup.entries()[t as int].group.span.end as int,
                t - self.weaver.ty_lookup.entries()[t as int].group_base,
                crate::type_allocator::keys_held(
                    self.weaver.interner.section().held(),
                )[self.weaver.indices.types.mapping()[t] as int],
                self.weaver.indices.types.mapping(),
            ),
    {
    }

    /// A module without a return stub, without an import of the slab's
    /// namespace and without a signature that asks for a host reference
    /// keeps its structure: every import stays in its place, with its
    /// type as the encoder wrote it; no function has a return stub;
    /// every function, table and global keeps its index; every export and the
    /// start function name what they named; the function section and the
    /// code section hold as many entries as before; and the output has
    /// the sections that the module has, in the order of the binary
    /// format.
    pub proof fn lemma_pure_module_kept(&self, slab: &ParsedModule)
        requires
            self.complete(slab),
            stub_positions(
                self.weaver.parsed.imports@,
                self.weaver.parsed.imports@.len() as int,
            ).len() == 0,
            !self.weaver.slab_needed(),
        ensures
            identity_to(
                &self.weaver.indices.funcs,
                self.counts.funcs + self.weaver.parsed.functions@.len(),
            ),
            identity_to(
                &self.weaver.indices.tables,
                self.counts.tables + self.weaver.parsed.tables@.len(),
            ),
            identity_to(
                &self.weaver.indices.globals,
                self.counts.globals + self.weaver.parsed.globals@.len(),
            ),
            imported(self.sections.imports).len() == self.weaver.parsed.imports@.len(),
            forall|k: int|
                0 <= k < self.weaver.parsed.imports@.len() ==> (#[trigger] imported(
                    self.sections.imports,
                )[k]).module@ == self.weaver.parsed.imports@[k].module@ && imported(
                    self.sections.imports,
                )[k].name@ == self.weaver.parsed.imports@[k].name@,
            forall|k: int|
                0 <= k < self.weaver.parsed.imports@.len() ==> crate::import_pass::written_as(
                    self.weaver.parsed.imports@[k].entity@,
                    (#[trigger] imported(self.sections.imports)[k]).entity@,
                ),
            forall|b: u32| (#[trigger] self.weaver.plan(b)).marker is None,
            crate::slab::declared(self.sections.functions).len()
                == self.weaver.parsed.functions@.len(),
            crate::slab::bodies(self.sections.code).len() == self.weaver.parsed.code@.len(),
            match self.sections.exports {
                Some(out) => {
                    &&& out@.len() == self.weaver.parsed.exports@.len()
                    &&& forall|k: int|
                        0 <= k < out@.len() ==> (#[trigger] out@[k]).name@
                            == self.weaver.parsed.exports@[k].name@ && out@[k].kind
                            == self.weaver.parsed.exports@[k].kind && out@[k].index
                            == self.weaver.parsed.exports@[k].index
                },
                None => self.weaver.parsed.exports@.len() == 0,
            },
            self.sections.start == self.weaver.parsed.start,
            self.weaver.section_ids(slab) == output_sections(self.weaver.parsed, slab),
            !slab_asked(self.weaver.parsed),
    {
        let w = &self.weaver;
        let m = w.parsed;
        let imports = m.imports@;
        w.lemma_output_sections(slab);
        lemma_all_kept(imports, imports.len() as int);
        assert(w.returns_lookup@.len() == 0);
        assert(w.table_api is None);
        assert forall|k: int| 0 <= k < imports.len() implies crate::import_pass::written_as(
            imports[k].entity@,
            (#[trigger] imported(self.sections.imports)[k]).entity@,
        ) by {
            assert(w.kept_at(
                imported(self.sections.imports),
                k,
                kept_positions(imports, imports.len() as int)[k],
            ));
        }
        assert forall|k: int| 0 <= k < imports.len() implies (#[trigger] imported(
            self.sections.imports,
        )[k]).module@ == imports[k].module@ && imported(self.sections.imports)[k].name@
            == imports[k].name@ by {
            assert(w.kept_at(
                imported(self.sections.imports),
                k,
                kept_positions(imports, imports.len() as int)[k],
            ));
        }
        match self.sections.exports {
            Some(out) => {
                assert forall|k: int| 0 <= k < out@.len() implies (#[trigger] out@[k]).name@
                    == m.exports@[k].name@ && out@[k].kind == m.exports@[k].kind && out@[k].index
                    == m.exports@[k].index by {
                    assert(w.export_at(out@, k));
                }
            },
            None => {},
        }
    }

    /// Where the encoder reads again what it writes for the type of every
    /// import of the module, it refuses no import of the output.
    pub proof fn lemma_imports_taken(&self, slab: &ParsedModule)
        requires
            self.complete(slab),
            self.weaver.takes_back(),
        ensures
            crate::sections::import_failure(
                crate::sections::imported_list(self.sections.imports),
                crate::sections::imported_list(self.sections.imports).len() as int,
            ) is None,
    {
        let list = crate::sections::imported_list(self.sections.imports);
        assert(list == imported(self.sections.imports));
        let imports = self.weaver.parsed.imports@;
        let kept = kept_positions(imports, imports.len() as int);
        lemma_positions(
            imports,
            |import: &Import| !is_stub(import) && !is_slab_import(import),
            imports.len() as int,
        );
        assert forall|k: int| 0 <= k < list.len() implies crate::encoder::entity_refused(
            #[trigger] list[k].entity@,
        ) is None by {
            assert(self.weaver.kept_at(list, k, kept[k]));
            assert(crate::import_pass::written_as(imports[kept[k]].entity@, list[k].entity@));
        }
        lemma_none_refused(list, list.len() as int);
    }

    /// The function whose body stands at position `i` has, in the output,
    /// the index that tells how many function imports the output keeps and
    /// how many functions the slab brought, and `i` more. Where the slab is
    /// not merged and no import is of its namespace, that is the index
    /// that the function has in the module less the return stubs.
    pub proof fn lemma_body_index(&self, slab: &ParsedModule, i: int)
        requires
            self.complete(slab),
            0 <= i < self.weaver.parsed.functions@.len(),
        ensures
            self.weaver.indices.funcs.mapping().contains_key((self.counts.funcs + i) as u32),
            self.weaver.indices.funcs.mapping()[(self.counts.funcs + i) as u32] == kept_in(
                self.weaver.parsed.imports@,
                Space::Funcs,
                self.weaver.parsed.imports@.len() as int,
            ) + self.weaver.of_slab(slab.functions@.len()) + i,
            self.counts.funcs == imports_in(
                self.weaver.parsed.imports@,
                Space::Funcs,
                self.weaver.parsed.imports@.len() as int,
            ),
    {
        let w = &self.weaver;
        let count = w.parsed.functions@.len();
        assert(w.functions_woven(self.sections.functions, self.counts, slab));
        assert(binds_run(
            &w.indices.funcs,
            self.counts.funcs as int,
            w.indices.funcs.next() - count,
            count as int,
        ));
        assert(w.indices.funcs.mapping().contains_key((self.counts.funcs + i) as u32));
        assert(w.placed(slab, count, w.parsed.tables@.len(), w.parsed.globals@.len()));
    }

    /// The import at position `p`, which the output keeps and which takes
    /// an index of a space, has the index that tells how many imports of
    /// that space the output keeps before it; an import that is a
    /// function has an index below that of every function that the slab
    /// brought or the module defines.
    pub proof fn lemma_import_index(&self, slab: &ParsedModule, p: int, s: Space)
        requires
            self.complete(slab),
            0 <= p < self.weaver.parsed.imports@.len(),
            !is_stub(&self.weaver.parsed.imports@[p]),
            !is_slab_import(&self.weaver.parsed.imports@[p]),
            space_of(&self.weaver.parsed.imports@[p]) == Some(s),
        ensures
            self.weaver.mapper(s).mapping().contains_key(
                imports_in(self.weaver.parsed.imports@, s, p) as u32,
            ),
            self.weaver.mapper(s).mapping()[imports_in(self.weaver.parsed.imports@, s, p) as u32]
                == kept_in(self.weaver.parsed.imports@, s, p),
            kept_in(self.weaver.parsed.imports@, s, p) < kept_in(
                self.weaver.parsed.imports@,
                s,
                self.weaver.parsed.imports@.len() as int,
            ),
    {
        let imports = self.weaver.parsed.imports@;
        crate::import_pass::lemma_kept_in(imports, s, p + 1, imports.len() as int);
        assert(self.weaver.kept_bound(imports.len() as int));
        assert(space_of(&imports[p]) == Some(s));
    }

    /// Two imports of a space that the output keeps have different
    /// indices in the output, the earlier the smaller.
    pub proof fn lemma_imports_apart(&self, slab: &ParsedModule, p: int, q: int, s: Space)
        requires
            self.complete(slab),
            0 <= p < q < self.weaver.parsed.imports@.len(),
            !is_stub(&self.weaver.parsed.imports@[p]),
            !is_slab_import(&self.weaver.parsed.imports@[p]),
            space_of(&self.weaver.parsed.imports@[p]) == Some(s),
        ensures
            kept_in(self.weaver.parsed.imports@, s, p) < kept_in(self.weaver.parsed.imports@, s, q),
    {
        crate::import_pass::lemma_kept_in(self.weaver.parsed.imports@, s, p + 1, q);
    }

    /// Every local of every body of the output is of a type that the
    /// encoder has a counterpart for.
    pub proof fn lemma_locals_encodable(&self, slab: &ParsedModule)
        requires
            self.complete(slab),
        ensures
            crate::sections::all_encodable(
                crate::slab::bodies(self.sections.code),
                crate::slab::bodies(self.sections.code).len() as int,
            ),
    {
        let w = &self.weaver;
        let code = crate::slab::bodies(self.sections.code);
        let base = w.of_slab(slab.code@.len()) as int;
        assert forall|i: int, k: int| 0 <= i < code.len() && 0 <= k < code[i].locals@.len() implies crate::encoder::encodable(
            #[trigger] code[i].locals@[k].1,
        ) by {
            if i >= base {
                let j = i - base;
                assert(w.was_woven(j as u32, code[base + j], w));
                let plan = w.plan(j as u32);
                let body = w.parsed.code@[j];
                let raw = crate::reader::locals_read(
                    w.parsed.data@,
                    body.start as int,
                    body.end as int,
                )->0;
                assert(w.locals_woven(j as u32, code[i].locals@, w));
                assert(w.maps().val_types_ok(crate::code::local_types(raw)));
                if k < raw.len() {
                    assert(w.maps().val_type(crate::code::local_types(raw)[k]) is Ok);
                } else if plan.metas is Some {
                    crate::weaver::lemma_renumbered_encodable(w.maps(), plan.results);
                }
            }
        }
    }

    /// No import of the output is of the namespace of the return stubs or
    /// of the namespace of the slab.
    pub proof fn lemma_no_reserved_import(&self, slab: &ParsedModule, k: int)
        requires
            self.complete(slab),
            0 <= k < imported(self.sections.imports).len(),
        ensures
            imported(self.sections.imports)[k].module@ != "__export_returns"@,
            imported(self.sections.imports)[k].module@ != "__table"@,
    {
        let imports = self.weaver.parsed.imports@;
        let kept = kept_positions(imports, imports.len() as int);
        lemma_positions(
            imports,
            |import: &Import| !is_stub(import) && !is_slab_import(import),
            imports.len() as int,
        );
        assert(self.weaver.kept_at(imported(self.sections.imports), k, kept[k]));
    }

    /// The code section holds one body for each body of the module and,
    /// where the slab is merged, one for each body of the slab; the
    /// function section declares as many functions.
    pub proof fn lemma_body_count(&self, slab: &ParsedModule)
        requires
            self.complete(slab),
        ensures
            crate::slab::bodies(self.sections.code).len() == self.weaver.parsed.code@.len() + if self.weaver.slab_needed() {
                slab.code@.len()
            } else {
                0
            },
            crate::slab::declared(self.sections.functions).len()
                == self.weaver.parsed.functions@.len() + if self.weaver.slab_needed() {
                slab.functions@.len()
            } else {
                0
            },
    {
    }
}

} // verus!
