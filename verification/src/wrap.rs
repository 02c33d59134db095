//! Writing the body of one function of the module that is woven.

use crate::body::{
    bad_parameter, check_results, epilogue, laid_out, loads_of, local_layout, meta_error,
    owned_before, owned_map, prologue, prologue_of, stores_of, tag_error, LayoutError, SlabUse,
};
use crate::code::{copied, follows, local_types, read_of, retyped};
use crate::encoder::Instr;
use crate::error::{DecodeError, Failure, WeaveError};
use crate::function::{
    asks_for_anything, count_locals, has_any_meta, lemma_locals_total_retyped, locals_total, stub_of,
};
use crate::parse::Span;
use crate::reader::{locals_read, OpKind};
use crate::sections::FunctionOut;
use crate::signature::{SignatureKey, SignatureKeyView};
use crate::types::{FuncTypeView, ValueType, ValueTypeMeta};
use crate::weaver::Weaver;
use std::collections::HashMap;
use vstd::prelude::*;
use vstd::string::*;

verus! {

/// What decides how a body is written.
pub struct BodyPlan {
    /// The function index of the return stub of the function, if it has
    /// one.
    pub marker: Option<u32>,
    /// The tags of the function, if one of them asks for anything: the
    /// body is then wrapped.
    pub metas: Option<Seq<ValueTypeMeta>>,
    /// The parameters of the function.
    pub params: Seq<ValueType>,
    /// The results of the function as the host sees them, before any of
    /// them is turned into a host reference: the parameters of the return
    /// stub if there is one, the results of the function's type otherwise.
    pub results: Seq<ValueType>,
}

/// How a body was written.
pub struct BodyWitness {
    /// The kinds of the instructions that were read.
    pub kinds: Seq<OpKind>,
    /// Which local stands in for which parameter.
    pub map: Map<u32, u32>,
    /// The type of the wrapper block.
    pub block: u32,
    /// The first of the locals in which the results wait.
    pub staging: u32,
    /// What became of the instructions that were read.
    pub middle: Seq<Instr>,
}

/// The instructions of a wrapped body: the prologue, the wrapper block
/// around what becomes of the instructions of the body, the stores and
/// loads of the epilogue, and the end of the function.
pub open spec fn wrapped_body(
    map: Map<u32, u32>,
    alloc: u32,
    block: u32,
    middle: Seq<Instr>,
    staging: u32,
    params: int,
    results: int,
    metas: Seq<ValueTypeMeta>,
    slab: SlabUse,
) -> Seq<Instr> {
    prologue_of(map, alloc, params) + seq![Instr::Block(block)] + middle + seq![
        Instr::End,
    ] + stores_of(staging, results, results) + loads_of(staging, params, metas, slab, results)
        + seq![Instr::End]
}

/// The error for a body that would have more locals than 32 bits can
/// count.
pub fn too_many_locals(body: Span) -> (r: Failure)
    ensures
        r matches Failure::ParseError(e) && e.message@ == "too many locals"@ && e.offset
            == body.start,
{
    Failure::ParseError(
        DecodeError { message: String::from_str("too many locals"), offset: body.start as u64 },
    )
}

/// `count` locals of the 32-bit integer type, each declared by itself.
pub open spec fn integers(count: nat) -> Seq<(u32, ValueType)> {
    Seq::new(count, |i: int| (1u32, ValueType::I32))
}

/// One local of each of the given types, each declared by itself.
pub open spec fn singles(types: Seq<ValueType>) -> Seq<(u32, ValueType)> {
    Seq::new(types.len(), |i: int| (1u32, types[i]))
}

/// Adds `count` locals of the 32-bit integer type to a list of locals.
pub fn push_integers(locals: &mut Vec<(u32, ValueType)>, count: u32)
    ensures
        final(locals)@ == old(locals)@ + integers(count as nat),
{
    let mut i: u32 = 0;
    assert(locals@ =~= old(locals)@ + integers(0));
    while i < count
        invariant
            i <= count,
            locals@ == old(locals)@ + integers(i as nat),
        decreases count - i,
    {
        locals.push((1, ValueType::I32));
        assert(locals@ =~= old(locals)@ + integers((i + 1) as nat));
        i = i + 1;
    }
}

/// Adds one local of each of the given types to a list of locals.
pub fn push_each(locals: &mut Vec<(u32, ValueType)>, types: &Vec<ValueType>)
    ensures
        final(locals)@ == old(locals)@ + singles(types@),
{
    let mut i: usize = 0;
    assert(locals@ =~= old(locals)@ + singles(types@.subrange(0, 0)));
    while i < types.len()
        invariant
            i <= types@.len(),
            locals@ == old(locals)@ + singles(types@.subrange(0, i as int)),
        decreases types.len() - i,
    {
        locals.push((1, types[i]));
        assert(locals@ =~= old(locals)@ + singles(types@.subrange(0, i + 1)));
        i = i + 1;
    }
    assert(types@.subrange(0, i as int) =~= types@);
}

impl<'a> Weaver<'a> {
    /// Whoever asks for a host reference finds the slab in place.
    pub open spec fn slab_ready(&self) -> bool {
        self.table_api is None ==> forall|key: SignatureKeyView|
            #[trigger] self.parsed.signatures.contains(key) ==> !crate::function::asks_for_externref(
                self.parsed.signatures.metas(key),
            )
    }

    /// What decides how the body at position `body_index` is written.
    pub open spec fn plan(&self, body_index: u32) -> BodyPlan {
        let entry = self.fn_lookup.entries()[self.fn_lookup.imported() + body_index];
        let ty = self.parsed.functions@[body_index as int];
        let func = self.ty_lookup.entries()[ty as int].sub_type.func.unwrap();
        let name = entry->Body_export_name;
        let stub = match name {
            Some(name) => stub_of(self.returns_lookup@, name@, self.returns_lookup@.len() as int),
            None => None,
        };
        let metas = match name {
            Some(name) => if self.parsed.signatures.contains(SignatureKeyView::Export(name@))
                && asks_for_anything(
                self.parsed.signatures.metas(SignatureKeyView::Export(name@)),
            ) {
                Some(self.parsed.signatures.metas(SignatureKeyView::Export(name@)))
            } else {
                None
            },
            None => None,
        };
        BodyPlan {
            marker: match stub {
                Some(stub) => Some(stub.marker),
                None => None,
            },
            metas,
            params: func.params@,
            results: match stub {
                Some(stub) => stub.params@,
                None => func.results@,
            },
        }
    }

    /// The function of the slab that allocates a slot, and what the
    /// epilogue uses of the slab; zeros where there is no slab.
    pub open spec fn slab_indices(&self) -> (u32, SlabUse) {
        match self.table_api {
            Some(api) => (api.alloc_fn, (SlabUse { take: api.take_fn, items: api.items_table })),
            None => (0, (SlabUse { take: 0, items: 0 })),
        }
    }

    /// How many locals the body at position `body_index` declares itself.
    pub open spec fn declared_count(&self, body_index: u32) -> int {
        let body = self.parsed.code@[body_index as int];
        let raw = locals_read(self.parsed.data@, body.start as int, body.end as int)->0;
        locals_total(raw, raw.len() as int)
    }

    /// Whether the tags of the function whose body stands at position
    /// `body_index` are looked at: its body is wrapped, its type is a
    /// function type, its locals can be read and their types are written,
    /// and its parameters, its results and its locals can be counted.
    pub open spec fn tags_read(&self, body_index: u32) -> bool {
        let plan = self.plan(body_index);
        let body = self.parsed.code@[body_index as int];
        let ty = self.parsed.functions@[body_index as int];
        &&& body_index < self.parsed.code@.len()
        &&& plan.metas is Some
        &&& ty < self.ty_lookup.entries().len()
        &&& self.ty_lookup.entries()[ty as int].sub_type.func is Some
        &&& locals_read(self.parsed.data@, body.start as int, body.end as int) matches Some(raw)
        &&& self.maps().val_types_ok(local_types(raw))
        &&& plan.params.len() <= u32::MAX
        &&& plan.params.len() + plan.results.len() <= usize::MAX
        &&& self.declared_count(body_index) <= u32::MAX
    }

    /// Whether the body at position `body_index`, which is not wrapped, can
    /// be written at once: its locals can be read and their types are
    /// written, and its instructions can be written at once.
    pub open spec fn plain_ready(&self, body_index: u32) -> bool {
        let plan = self.plan(body_index);
        let body = self.parsed.code@[body_index as int];
        &&& body_index < self.parsed.code@.len()
        &&& plan.metas is None
        &&& locals_read(self.parsed.data@, body.start as int, body.end as int) matches Some(raw)
        &&& self.maps().val_types_ok(local_types(raw))
        &&& self.body_ready(body, plan.marker, false, Map::empty())
    }

    /// Whether the body at position `body_index`, which is wrapped, can be
    /// written at once: the tags of the function can be applied, its
    /// locals can be counted, the types of its results are written, an
    /// index is free for the type of the wrapper block, and its
    /// instructions can be written at once.
    pub open spec fn wrap_ready(&self, body_index: u32) -> bool {
        let plan = self.plan(body_index);
        let body = self.parsed.code@[body_index as int];
        let metas = plan.metas->0;
        let params = plan.params.len() as int;
        let declared = self.declared_count(body_index);
        &&& self.tags_read(body_index)
        &&& tag_error(plan.params, plan.results, metas) is None
        &&& params + declared + owned_before(metas, params) + plan.results.len() <= u32::MAX
        &&& self.maps().val_types_ok(plan.results)
        &&& self.indices.types.next() < u32::MAX
        &&& self.body_ready(body, plan.marker, true, owned_map(params, metas, declared))
    }

    /// Whether the body at position `body_index` can be written at once,
    /// wrapped or not.
    pub open spec fn ready(&self, body_index: u32) -> bool {
        self.plain_ready(body_index) || self.wrap_ready(body_index)
    }

    /// A body that can be written at once can still be written at once
    /// after more types were written, as long as no type index was bound
    /// and an index is free.
    pub proof fn lemma_ready_stays(a: &Weaver<'a>, b: &Weaver<'a>, body_index: u32)
        requires
            a.types_grown(b),
            a.maps() == b.maps(),
            b.indices.types.next() < u32::MAX,
            a.ready(body_index),
        ensures
            b.ready(body_index),
    {
        let plan = a.plan(body_index);
        let body = a.parsed.code@[body_index as int];
        let ops = crate::reader::ops_at(a.parsed.data@, body.start as int, body.end as int);
        assert(b.plan(body_index) == plan);
        if a.plain_ready(body_index) {
            assert forall|k: int| 0 <= k < ops.len() implies #[trigger] b.op_ready(
                ops,
                k,
                plan.marker,
                false,
                Map::empty(),
            ) by {
                assert(a.op_ready(ops, k, plan.marker, false, Map::empty()));
            }
        } else {
            let map = owned_map(
                plan.params.len() as int,
                plan.metas->0,
                a.declared_count(body_index),
            );
            assert forall|k: int| 0 <= k < ops.len() - 1 implies #[trigger] b.op_ready(
                ops,
                k,
                plan.marker,
                true,
                map,
            ) by {
                assert(a.op_ready(ops, k, plan.marker, true, map));
            }
        }
    }

    /// `locals` are the locals that the weaver declares for the body at
    /// position `body_index`, where `later` is the weaver afterwards: the
    /// locals that the body declares itself, with their types renumbered;
    /// behind them, in a wrapped body, one 32-bit integer for each
    /// parameter that holds an owned host reference, and then one local
    /// for each result, of the type of the result.
    pub open spec fn locals_woven(
        &self,
        body_index: u32,
        locals: Seq<(u32, ValueType)>,
        later: &Weaver<'a>,
    ) -> bool {
        let plan = self.plan(body_index);
        let body = self.parsed.code@[body_index as int];
        match locals_read(self.parsed.data@, body.start as int, body.end as int) {
            Some(raw) => {
                &&& later.maps().val_types_ok(local_types(raw))
                &&& match plan.metas {
                    None => locals == retyped(raw, later.maps()),
                    Some(metas) => {
                        &&& later.maps().val_types_ok(plan.results)
                        &&& locals == retyped(raw, later.maps()) + integers(
                            owned_before(metas, plan.params.len() as int),
                        ) + singles(later.maps().val_types(plan.results))
                    },
                }
            },
            None => false,
        }
    }

    /// `out` is the body at position `body_index` as the weaver writes it,
    /// where `kinds` are the kinds of the instructions of the body, in a
    /// wrapped body but for its last `end`, and `later` is the weaver
    /// afterwards. Every instruction that is encoded anew is what the
    /// encoder made of the instruction of the body at its place. A body whose function has no tag
    /// that asks for anything is written instruction by instruction. Any
    /// other body is wrapped: `map` says which local stands in for which
    /// parameter, `block` is the type of the wrapper block, and the
    /// results wait for the epilogue in the locals from `staging` on. The
    /// tag of every parameter and result can be applied; the locals are
    /// laid out behind those that the body declares; and the wrapper block
    /// takes nothing and leaves the results as the body computes them.
    pub open spec fn wove(
        &self,
        body_index: u32,
        out: FunctionOut,
        kinds: Seq<OpKind>,
        map: Map<u32, u32>,
        block: u32,
        staging: u32,
        middle: Seq<Instr>,
        later: &Weaver<'a>,
    ) -> bool {
        let plan = self.plan(body_index);
        let body = self.parsed.code@[body_index as int];
        &&& self.locals_woven(body_index, out.locals@, later)
        &&& read_of(kinds, plan.metas is Some, self.parsed.data@, body.start as int, body.end as int)
        &&& copied(
            middle,
            crate::reader::ops_at(self.parsed.data@, body.start as int, body.end as int),
            later.maps(),
        )
        &&& match plan.metas {
            None => {
                &&& map == Map::<u32, u32>::empty()
                &&& middle == out.body@
                &&& follows(middle, kinds, plan.marker, false, map, later.maps())
            },
            Some(metas) => {
                &&& tag_error(plan.params, plan.results, metas) is None
                &&& laid_out(
                    map,
                    staging,
                    plan.params.len() as int,
                    metas,
                    self.declared_count(body_index),
                )
                &&& later.interner.has_signature(
                    block,
                    (FuncTypeView {
                        params: Seq::empty(),
                        results: later.maps().val_types(plan.results),
                    }),
                )
                &&& follows(middle, kinds, plan.marker, true, map, later.maps())
                &&& out.body@ == wrapped_body(
                    map,
                    self.slab_indices().0,
                    block,
                    middle,
                    staging,
                    plan.params.len() as int,
                    plan.results.len() as int,
                    metas,
                    self.slab_indices().1,
                )
            },
        }
    }

    /// Writes the body at position `body_index`. Every call of the
    /// function's own return stub becomes a return, or, in a wrapped body,
    /// a branch to the wrapper block; every other instruction is written
    /// anew with its indices renumbered. The body of a function with a tag
    /// that asks for anything is wrapped in a block, between a prologue
    /// that puts the owned host references among the parameters into
    /// slots and an epilogue that turns the results into what their tags
    /// ask for.
    pub fn parse_function_body(&mut self, body_index: u32) -> (r: Result<FunctionOut, Failure>)
        requires
            old(self).wf(),
        ensures
            final(self).wf(),
            old(self).types_grown(final(self)),
            r matches Ok(out) ==> {
                &&& body_index < old(self).parsed.code@.len()
                &&& old(self).was_woven(body_index, out, final(self))
            },
            body_index >= old(self).parsed.code@.len() ==> r matches Err(
                Failure::UserError(WeaveError::FunctionIndexOutOfBounds(_)),
            ),
            body_index < old(self).parsed.code@.len() && locals_read(
                old(self).parsed.data@,
                old(self).parsed.code@[body_index as int].start as int,
                old(self).parsed.code@[body_index as int].end as int,
            ) is None ==> r matches Err(Failure::ParseError(_)),
            old(self).tags_read(body_index) ==> {
                let plan = old(self).plan(body_index);
                match bad_parameter(plan.params, plan.metas->0, plan.params.len() as int) {
                    Some(i) => r matches Err(Failure::UserError(e)) && e == meta_error(
                        plan.metas->0[i],
                        plan.params[i],
                    ),
                    None => if plan.params.len() + old(self).declared_count(body_index)
                        + owned_before(plan.metas->0, plan.params.len() as int) + plan.results.len()
                        > u32::MAX {
                        r matches Err(Failure::ParseError(e)) && e.message@ == "too many locals"@
                    } else {
                        tag_error(plan.params, plan.results, plan.metas->0) matches Some(error)
                            ==> r matches Err(Failure::UserError(e)) && e == error
                    },
                }
            },
            old(self).plain_ready(body_index) ==> r is Ok && *final(self) == *old(self),
            old(self).wrap_ready(body_index) ==> r is Ok && final(self).maps() == old(self).maps()
                && final(self).indices.types.next() <= old(self).indices.types.next() + 1,
    {
        match self.write_body(body_index) {
            Ok((out, w)) => {
                assert(old(self).wove(
                    body_index,
                    out,
                    w@.kinds,
                    w@.map,
                    w@.block,
                    w@.staging,
                    w@.middle,
                    self,
                ));
                assert(old(self).was_woven(body_index, out, self));
                Ok(out)
            },
            Err(e) => Err(e),
        }
    }

    /// `out` is the body at position `body_index` as the weaver writes
    /// it, for some kinds of instructions that the body holds: see
    /// [`Weaver::wove`].
    pub open spec fn was_woven(&self, body_index: u32, out: FunctionOut, later: &Weaver<'a>) -> bool {
        exists|
            kinds: Seq<OpKind>,
            map: Map<u32, u32>,
            block: u32,
            staging: u32,
            middle: Seq<Instr>,
        | #[trigger] self.wove(body_index, out, kinds, map, block, staging, middle, later)
    }

    /// Writes the body at position `body_index` and tells how it was
    /// written.
    #[verifier::rlimit(40)]
    pub fn write_body(&mut self, body_index: u32) -> (r: Result<
        (FunctionOut, Ghost<BodyWitness>),
        Failure,
    >)
        requires
            old(self).wf(),
        ensures
            final(self).wf(),
            old(self).types_grown(final(self)),
            r matches Ok((out, w)) ==> {
                &&& body_index < old(self).parsed.code@.len()
                &&& old(self).wove(
                    body_index,
                    out,
                    w@.kinds,
                    w@.map,
                    w@.block,
                    w@.staging,
                    w@.middle,
                    final(self),
                )
            },
            body_index >= old(self).parsed.code@.len() ==> r matches Err(
                Failure::UserError(WeaveError::FunctionIndexOutOfBounds(_)),
            ),
            body_index < old(self).parsed.code@.len() && locals_read(
                old(self).parsed.data@,
                old(self).parsed.code@[body_index as int].start as int,
                old(self).parsed.code@[body_index as int].end as int,
            ) is None ==> r matches Err(Failure::ParseError(_)),
            old(self).tags_read(body_index) ==> {
                let plan = old(self).plan(body_index);
                match bad_parameter(plan.params, plan.metas->0, plan.params.len() as int) {
                    Some(i) => r matches Err(Failure::UserError(e)) && e == meta_error(
                        plan.metas->0[i],
                        plan.params[i],
                    ),
                    None => if plan.params.len() + old(self).declared_count(body_index)
                        + owned_before(plan.metas->0, plan.params.len() as int) + plan.results.len()
                        > u32::MAX {
                        r matches Err(Failure::ParseError(e)) && e.message@ == "too many locals"@
                    } else {
                        tag_error(plan.params, plan.results, plan.metas->0) matches Some(error)
                            ==> r matches Err(Failure::UserError(e)) && e == error
                    },
                }
            },
            old(self).plain_ready(body_index) ==> r is Ok && *final(self) == *old(self),
            old(self).wrap_ready(body_index) ==> r is Ok && final(self).maps() == old(self).maps()
                && final(self).indices.types.next() <= old(self).indices.types.next() + 1,
    {
        let (ty, body, export_name) = self.body_entry(body_index)?;
        let (stub, metas) = match export_name {
            Some(name) => {
                let key = SignatureKey::export(name.as_str());
                let metas = self.parsed.signatures.get(&key);
                (self.find_stub(name.as_str()), metas)
            },
            None => (None, None),
        };
        let marker = match stub {
            Some(stub) => Some(stub.marker),
            None => None,
        };
        let wrapping = match metas {
            Some(m) => if has_any_meta(m) {
                Some(m)
            } else {
                None
            },
            None => None,
        };
        let declared = self.declared_locals(body)?;
        let ghost first = *self;
        let ghost raw = locals_read(self.parsed.data@, body.start as int, body.end as int)->0;
        match wrapping {
            None => {
                let map: HashMap<u32, u32> = HashMap::new();
                let (middle, Ghost(kinds)) = self.rewrite_instructions(body, marker, false, &map)?;
                let out = FunctionOut { locals: declared, body: middle };
                proof {
                    Self::lemma_types_grown(old(self), &first, self);
                    Self::lemma_woven_on(&first, self, self);
                    Self::lemma_maps_extended(&first, self);
                    crate::persist::lemma_retyped_stays(raw, first.maps(), self.maps());
                    assert(old(self).plan(body_index).metas is None);
                    assert(old(self).wove(
                        body_index,
                        out,
                        kinds,
                        map@,
                        0,
                        0,
                        out.body@,
                        self,
                    ));
                }
                let ghost w = BodyWitness {
                    kinds,
                    map: map@,
                    block: 0,
                    staging: 0,
                    middle: out.body@,
                };
                Ok((out, Ghost(w)))
            },
            Some(tags) => {
                let (params, own_results) = self.signature_of(ty)?;
                let results = match stub {
                    Some(stub) => stub.params,
                    None => own_results,
                };
                proof {
                    let plan = old(self).plan(body_index);
                    lemma_locals_total_retyped(raw, first.maps(), raw.len() as int);
                    assert(declared@.len() == raw.len());
                    assert(plan.metas == Some(tags@));
                    assert(plan.params == params@);
                    assert(plan.results == results@);
                }
                if params.len() > u32::MAX as usize || params.len() > usize::MAX - results.len() {
                    return Err(too_many_locals(body));
                }
                let declared_total = match count_locals(&declared) {
                    Some(total) => total,
                    None => {
                        return Err(too_many_locals(body));
                    },
                };
                let layout = match local_layout(params, results.len(), tags, declared_total) {
                    Ok(layout) => layout,
                    Err(LayoutError::Meta(e)) => {
                        return Err(Failure::UserError(e));
                    },
                    Err(LayoutError::TooManyLocals) => {
                        return Err(too_many_locals(body));
                    },
                };
                match check_results(results, params.len(), tags) {
                    Ok(()) => {},
                    Err(e) => {
                        return Err(Failure::UserError(e));
                    },
                }
                proof {
                    assert(layout.map@ =~= owned_map(
                        params@.len() as int,
                        tags@,
                        old(self).declared_count(body_index),
                    ));
                }
                let mut locals = declared;
                push_integers(&mut locals, layout.owned);
                let result_types = self.val_types(results)?;
                let ghost second = *self;
                push_each(&mut locals, &result_types);
                let (alloc, slab) = crate::code::slab_use(self);
                let mut out: Vec<Instr> = Vec::new();
                prologue(&mut out, &layout.map, alloc, params.len() as u32);
                let none: Vec<ValueType> = Vec::new();
                let block = self.new_parser_fn_ty(&none, results)?;
                let ghost third = *self;
                out.push(Instr::Block(block));
                let ghost head = out@;
                proof {
                    if old(self).wrap_ready(body_index) {
                        let ops = crate::reader::ops_at(
                            self.parsed.data@,
                            body.start as int,
                            body.end as int,
                        );
                        assert(third.maps() == old(self).maps());
                        assert(old(self).plan(body_index).marker == marker);
                        assert(old(self).body_ready(body, marker, true, layout.map@));
                        assert forall|k: int| 0 <= k < ops.len() - 1 implies #[trigger] third.op_ready(
                            ops,
                            k,
                            marker,
                            true,
                            layout.map@,
                        ) by {
                            assert(old(self).op_ready(ops, k, marker, true, layout.map@));
                        }
                        assert(third.body_ready(body, marker, true, layout.map@));
                    }
                }
                let (mut middle, Ghost(kinds)) = self.rewrite_instructions(
                    body,
                    marker,
                    true,
                    &layout.map,
                )?;
                let ghost written = middle@;
                out.append(&mut middle);
                out.push(Instr::End);
                let ghost closed = out@;
                match epilogue(&mut out, results, params.len(), tags, layout.staging, slab) {
                    Ok(()) => {},
                    Err(e) => {
                        proof {
                            Self::lemma_types_grown(old(self), &first, &second);
                            Self::lemma_types_grown(old(self), &second, &third);
                            Self::lemma_types_grown(old(self), &third, self);
                        }
                        return Err(Failure::UserError(e));
                    },
                }
                let ghost stored = out@;
                out.push(Instr::End);
                let woven = FunctionOut { locals, body: out };
                proof {
                    Self::lemma_types_grown(old(self), &first, &second);
                    Self::lemma_types_grown(old(self), &second, &third);
                    Self::lemma_types_grown(old(self), &third, self);
                    let plan = old(self).plan(body_index);
                    Self::lemma_types_grown(&first, &second, &third);
                    Self::lemma_types_grown(&first, &third, self);
                    Self::lemma_types_grown(&second, &third, self);
                    Self::lemma_woven_on(&first, self, self);
                    Self::lemma_maps_extended(&first, self);
                    crate::persist::lemma_retyped_stays(raw, first.maps(), self.maps());
                    Self::lemma_val_types_kept(&second, self, results@);
                    assert(layout.owned == owned_before(tags@, params@.len() as int));
                    assert(old(self).locals_woven(body_index, woven.locals@, self));
                    assert(plan.metas == Some(tags@));
                    assert(plan.params == params@);
                    assert(plan.results == results@);
                    assert(old(self).slab_indices() == (alloc, slab));
                    lemma_locals_total_retyped(raw, first.maps(), raw.len() as int);
                    assert(laid_out(
                        layout.map@,
                        layout.staging,
                        params@.len() as int,
                        tags@,
                        old(self).declared_count(body_index),
                    ));
                    assert(third.maps().val_types(none@) =~= Seq::<ValueType>::empty());
                    Self::lemma_val_types_kept(&third, self, results@);
                    third.interner.lemma_signature_kept(
                        &self.interner,
                        block,
                        (FuncTypeView {
                            params: Seq::empty(),
                            results: third.maps().val_types(results@),
                        }),
                    );
                    assert(head == prologue_of(layout.map@, alloc, params@.len() as int)
                        + seq![Instr::Block(block)]) by {
                        assert(Seq::<Instr>::empty() + prologue_of(
                            layout.map@,
                            alloc,
                            params@.len() as int,
                        ) == prologue_of(layout.map@, alloc, params@.len() as int));
                        assert(head == prologue_of(layout.map@, alloc, params@.len() as int).push(
                            Instr::Block(block),
                        ));
                    }
                    assert(closed == head + written + seq![Instr::End]) by {
                        assert(closed == (head + written).push(Instr::End));
                    }
                    assert(woven.body@ == stored + seq![Instr::End]) by {
                        assert(woven.body@ == stored.push(Instr::End));
                    }
                    assert(old(self).wove(
                        body_index,
                        woven,
                        kinds,
                        layout.map@,
                        block,
                        layout.staging,
                        written,
                        self,
                    ));
                }
                let ghost w = BodyWitness {
                    kinds,
                    map: layout.map@,
                    block,
                    staging: layout.staging,
                    middle: written,
                };
                Ok((woven, Ghost(w)))
            },
        }
    }
}

} // verus!
