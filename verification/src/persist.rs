//! What was woven stays woven: what one step has established holds on
//! over the steps that follow.

use crate::body::{step_of, Step};
use crate::code::{follows, instr_for, local_types, retyped};
use crate::encoder::Instr;
use crate::import_pass::stub_positions;
use crate::reader::OpKind;
use crate::renumber::IndexMaps;
use crate::sections::FunctionOut;
use crate::types::ValueType;
use crate::weaver::Weaver;
use vstd::prelude::*;

verus! {

/// Every index that `before` binds, `after` binds to the same target.
pub open spec fn map_extended(before: Map<u32, u32>, after: Map<u32, u32>) -> bool {
    forall|k: u32| #[trigger] before.contains_key(k) ==> after.contains_key(k) && after[k] == before[k]
}

/// Value types that could be renumbered are renumbered in the same way
/// once more types are bound.
pub proof fn lemma_val_types_stay(before: IndexMaps, after: IndexMaps, list: Seq<ValueType>)
    requires
        map_extended(before.types, after.types),
        before.val_types_ok(list),
    ensures
        after.val_types_ok(list),
        after.val_types(list) == before.val_types(list),
{
    assert forall|k: int| 0 <= k < list.len() implies #[trigger] after.val_type(list[k])
        == before.val_type(list[k]) by {
        assert(before.val_type(list[k]) is Ok);
    }
    assert(after.val_types(list) =~= before.val_types(list));
}

/// Locals whose types could be renumbered are renumbered in the same way
/// once more types are bound.
pub proof fn lemma_retyped_stays(raw: Seq<(u32, ValueType)>, before: IndexMaps, after: IndexMaps)
    requires
        map_extended(before.types, after.types),
        before.val_types_ok(local_types(raw)),
    ensures
        after.val_types_ok(local_types(raw)),
        retyped(raw, after) == retyped(raw, before),
{
    lemma_val_types_stay(before, after, local_types(raw));
    assert forall|i: int| 0 <= i < raw.len() implies after.val_type(raw[i].1) == before.val_type(
        raw[i].1,
    ) by {
        assert(before.val_type(local_types(raw)[i]) is Ok);
    }
    assert(retyped(raw, after) =~= retyped(raw, before));
}

/// Instructions that follow a body under one renumbering follow it under
/// every renumbering that binds the same functions to the same targets and
/// lets code refer to the same functions.
pub proof fn lemma_follows_stays(
    middle: Seq<Instr>,
    kinds: Seq<OpKind>,
    marker: Option<u32>,
    wrapped: bool,
    map: Map<u32, u32>,
    before: IndexMaps,
    after: IndexMaps,
)
    requires
        follows(middle, kinds, marker, wrapped, map, before),
        map_extended(before.funcs, after.funcs),
        before.callable == after.callable,
    ensures
        follows(middle, kinds, marker, wrapped, map, after),
{
    assert forall|k: int| 0 <= k < kinds.len() implies instr_for(
        #[trigger] middle[k],
        step_of(kinds[k], marker, wrapped, crate::body::depth_at(kinds, k) as u32, map),
        after,
    ) by {
        let step = step_of(kinds[k], marker, wrapped, crate::body::depth_at(kinds, k) as u32, map);
        assert(instr_for(middle[k], step, before));
        if let Step::Call(f) = step {
            assert(before.function_index(f) is Ok);
            assert(before.funcs.contains_key(f));
        }
    }
}

impl<'a> Weaver<'a> {
    /// The maps of a weaver that has woven on extend the maps of the
    /// weaver that it was.
    pub proof fn lemma_maps_extended(a: &Weaver<'a>, b: &Weaver<'a>)
        requires
            a.woven_on(b),
        ensures
            map_extended(a.maps().types, b.maps().types),
            map_extended(a.maps().funcs, b.maps().funcs),
            map_extended(a.maps().tables, b.maps().tables),
            map_extended(a.maps().globals, b.maps().globals),
    {
    }

    /// What was declared of a function stays declared while the weaver
    /// weaves on.
    pub proof fn lemma_declares_stays(
        a: &Weaver<'a>,
        b: &Weaver<'a>,
        c: &Weaver<'a>,
        body_index: u32,
        index: u32,
    )
        requires
            a.declares(body_index, index, b),
            a.settled(b),
            b.settled(c),
        ensures
            c.declares(body_index, index, c),
    {
        Self::lemma_maps_extended(b, c);
        let entry = a.fn_lookup.entries()[a.fn_lookup.imported() + body_index];
        let ty = a.parsed.functions@[body_index as int];
        let name = entry->Body_export_name;
        let stub = match name {
            Some(name) => crate::function::stub_of(
                a.returns_lookup@,
                name@,
                a.returns_lookup@.len() as int,
            ),
            None => None,
        };
        let metas = match name {
            Some(name) => if a.parsed.signatures.contains(
                crate::signature::SignatureKeyView::Export(name@),
            ) {
                Some(a.parsed.signatures.metas(crate::signature::SignatureKeyView::Export(name@)))
            } else {
                None
            },
            None => None,
        };
        let externref = match metas {
            Some(m) => crate::function::asks_for_externref(m),
            None => false,
        };
        if stub is Some || externref {
            let func = a.ty_lookup.entries()[ty as int].sub_type.func.unwrap();
            let results = match stub {
                Some(stub) => stub.params@,
                None => func.results@,
            };
            let wire = crate::body::wire_signature(func.params@, results, metas);
            lemma_val_types_stay(b.maps(), c.maps(), wire.params);
            lemma_val_types_stay(b.maps(), c.maps(), wire.results);
            let view = crate::types::FuncTypeView {
                params: b.maps().val_types(wire.params),
                results: b.maps().val_types(wire.results),
            };
            assert(b.interner.has_signature(index, view));
            let i = choose|i: int|
                0 <= i < b.interner.records().len() && (#[trigger] b.interner.records()[i]).index
                    == index && crate::type_allocator::signature_view(b.interner.records()[i].func)
                    == Some(view);
            assert(c.interner.records()[i] == b.interner.records()[i]);
            assert(c.interner.has_signature(index, view));
        } else {
            assert(b.indices.types.mapping().contains_key(ty));
        }
    }

    /// A body that was woven stays woven while the weaver weaves on.
    pub proof fn lemma_woven_stays(
        a: &Weaver<'a>,
        b: &Weaver<'a>,
        c: &Weaver<'a>,
        body_index: u32,
        out: FunctionOut,
    )
        requires
            a.was_woven(body_index, out, b),
            a.settled(b),
            b.settled(c),
        ensures
            c.was_woven(body_index, out, c),
    {
        Self::lemma_maps_extended(b, c);
        let (kinds, map, block, staging, middle) = choose|
            kinds: Seq<OpKind>,
            map: Map<u32, u32>,
            block: u32,
            staging: u32,
            middle: Seq<Instr>,
        | #[trigger] a.wove(body_index, out, kinds, map, block, staging, middle, b);
        assert(a.wove(body_index, out, kinds, map, block, staging, middle, b));
        let plan = a.plan(body_index);
        assert(c.plan(body_index) == plan);
        lemma_follows_stays(middle, kinds, plan.marker, plan.metas is Some, map, b.maps(), c.maps());
        crate::code::lemma_copied_stays(
            middle,
            crate::reader::ops_at(
                a.parsed.data@,
                a.parsed.code@[body_index as int].start as int,
                a.parsed.code@[body_index as int].end as int,
            ),
            b.maps(),
            c.maps(),
        );
        let body = a.parsed.code@[body_index as int];
        let raw = crate::reader::locals_read(
            a.parsed.data@,
            body.start as int,
            body.end as int,
        )->0;
        assert(a.locals_woven(body_index, out.locals@, b));
        lemma_retyped_stays(raw, b.maps(), c.maps());
        if plan.metas is Some {
            lemma_val_types_stay(b.maps(), c.maps(), plan.results);
            b.interner.lemma_signature_kept(
                &c.interner,
                block,
                (crate::types::FuncTypeView {
                    params: Seq::empty(),
                    results: b.maps().val_types(plan.results),
                }),
            );
        }
        assert(c.locals_woven(body_index, out.locals@, c));
        assert(c.wove(body_index, out, kinds, map, block, staging, middle, c));
    }

    /// The declarations of a list stay what they are while the weaver
    /// weaves on.
    pub proof fn lemma_declared_stays(a: &Weaver<'a>, c: &Weaver<'a>, list: Seq<u32>, base: int)
        requires
            forall|i: int|
                0 <= i < a.parsed.functions@.len() ==> #[trigger] a.declares(
                    i as u32,
                    list[base + i],
                    a,
                ),
            a.settled(c),
        ensures
            forall|i: int|
                0 <= i < c.parsed.functions@.len() ==> #[trigger] c.declares(
                    i as u32,
                    list[base + i],
                    c,
                ),
    {
        Self::lemma_woven_on(a, a, a);
        assert forall|i: int| 0 <= i < c.parsed.functions@.len() implies #[trigger] c.declares(
            i as u32,
            list[base + i],
            c,
        ) by {
            assert(a.declares(i as u32, list[base + i], a));
            Self::lemma_declares_stays(a, a, c, i as u32, list[base + i]);
        }
    }

    /// The bodies of a list stay what they are while the weaver weaves on.
    pub proof fn lemma_bodies_stay(
        a: &Weaver<'a>,
        c: &Weaver<'a>,
        list: Seq<FunctionOut>,
        base: int,
    )
        requires
            forall|i: int|
                0 <= i < a.parsed.code@.len() ==> #[trigger] a.was_woven(
                    i as u32,
                    list[base + i],
                    a,
                ),
            a.settled(c),
        ensures
            forall|i: int|
                0 <= i < c.parsed.code@.len() ==> #[trigger] c.was_woven(
                    i as u32,
                    list[base + i],
                    c,
                ),
    {
        Self::lemma_woven_on(a, a, a);
        assert forall|i: int| 0 <= i < c.parsed.code@.len() implies #[trigger] c.was_woven(
            i as u32,
            list[base + i],
            c,
        ) by {
            assert(a.was_woven(i as u32, list[base + i], a));
            Self::lemma_woven_stays(a, a, c, i as u32, list[base + i]);
        }
    }

    /// The stubs that were recorded stay recorded while the weaver weaves
    /// on.
    pub proof fn lemma_stubs_stay(a: &Weaver<'a>, b: &Weaver<'a>, count: int)
        requires
            a.stubs_recorded(count),
            a.woven_on(b),
            b.returns_lookup == a.returns_lookup,
            b.callable_functions == a.callable_functions,
        ensures
            b.stubs_recorded(count),
    {
        let found = stub_positions(a.parsed.imports@, count);
        assert forall|s: int| 0 <= s < found.len() implies #[trigger] b.stub_at(s, found[s]) by {
            assert(a.stub_at(s, found[s]));
        }
    }
}

} // verus!
