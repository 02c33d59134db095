//! The weaver: copies a module section by section, renumbers what it
//! copies, strips the return stubs and gives each exported function the
//! signature and the body that the host expects.

use crate::encoder::{
    all_encodable_types, encodable, func_sub_type, reencode_sub_type, sub_type_refused,
};
use crate::error::{Failure, WeaveError};
use crate::indices::Indices;
use crate::lookup::{weavable, FunctionLookup, TypeLookup};
use crate::parse::ParsedModule;
use crate::renumber::{renumber_val_types, Renumber, Renumbering};
use crate::table_slab::TableSlabApi;
use crate::type_allocator::TypeInterner;
use crate::types::{FuncType, FuncTypeView, ValueType};
use vstd::prelude::*;

verus! {

/// A return stub: an import through which an exported function hands its
/// results to the host.
#[derive(Clone, Copy, Debug)]
pub struct ReturnStub<'a> {
    /// The name of the export that the stub belongs to.
    pub name: &'a String,
    /// The parameters of the stub, which are the results of the export.
    pub params: &'a Vec<ValueType>,
    /// The function index of the stub in the module that is woven.
    pub marker: u32,
}

/// The state of weaving one module.
pub struct Weaver<'a> {
    pub parsed: &'a ParsedModule<'a>,
    pub ty_lookup: TypeLookup<'a>,
    pub fn_lookup: FunctionLookup<'a>,
    pub indices: Indices,
    pub interner: TypeInterner,
    pub returns_lookup: Vec<ReturnStub<'a>>,
    /// For each function index of the module that is woven, whether code
    /// may refer to the function. A return stub may not be referred to.
    pub callable_functions: Vec<bool>,
    pub table_api: Option<TableSlabApi>,
}

/// The renumbering that binds these types and nothing else.
pub open spec fn types_only(types: Map<u32, u32>) -> crate::renumber::IndexMaps {
    crate::renumber::IndexMaps {
        types,
        funcs: Map::empty(),
        tables: Map::empty(),
        globals: Map::empty(),
        callable: Seq::empty(),
    }
}

/// The type of the output with this index has the signature `func`, with
/// every type index that the signature names renumbered.
pub open spec fn signed(types: Map<u32, u32>, interner: TypeInterner, index: u32, func: FuncType)
    -> bool {
    let maps = types_only(types);
    &&& maps.val_types_ok(func.params@)
    &&& maps.val_types_ok(func.results@)
    &&& interner.has_signature(
        index,
        (FuncTypeView {
            params: maps.val_types(func.params@),
            results: maps.val_types(func.results@),
        }),
    )
}

/// Every function type of the module that is bound to an index of the
/// output has there the signature that it has in the module, with the
/// type indices of the output.
pub open spec fn typed_by(
    entries: Seq<crate::lookup::TypeLookupEntry>,
    types: crate::indices::IndexMapper,
    interner: TypeInterner,
) -> bool {
    forall|t: u32| #[trigger]
        types.mapping().contains_key(t) && t < entries.len() ==> match entries[t as int].sub_type.func {
            Some(func) => signed(types.mapping(), interner, types.mapping()[t], func),
            None => true,
        }
}

/// `made` is the signature `source` with every type index renumbered,
/// where there is one.
pub open spec fn sig_made(
    maps: crate::renumber::IndexMaps,
    source: Option<FuncType>,
    made: Option<FuncType>,
) -> bool {
    match source {
        Some(func) => maps.val_types_ok(func.params@) && maps.val_types_ok(func.results@)
            && made is Some && made->0@ == (FuncTypeView {
            params: maps.val_types(func.params@),
            results: maps.val_types(func.results@),
        }),
        None => made is None,
    }
}

/// The type of the output with this index has the signature `source`,
/// renumbered, where `source` is one.
pub open spec fn member_signed(
    types: Map<u32, u32>,
    interner: TypeInterner,
    index: int,
    source: Option<FuncType>,
) -> bool {
    match source {
        Some(func) => 0 <= index <= u32::MAX && signed(types, interner, index as u32, func),
        None => true,
    }
}

/// `key` is what the encoder made of the member at position `offset` of
/// the recursion group between `start` and `end`, with type indices that
/// `types` binds.
pub open spec fn key_made(
    data: Seq<u8>,
    start: int,
    end: int,
    offset: int,
    key: Seq<u8>,
    types: Map<u32, u32>,
) -> bool {
    exists|m: crate::renumber::IndexMaps| #[trigger]
        crate::persist::map_extended(m.types, types) && crate::encoder::sub_type_written(
            data,
            start,
            end,
            offset,
            m,
        ) == Ok::<Option<Seq<u8>>, Failure>(Some(key))
}

/// What the encoder made of a member with some type indices, it made with
/// type indices that every later renumbering binds.
pub proof fn lemma_key_made_stays(
    data: Seq<u8>,
    start: int,
    end: int,
    offset: int,
    key: Seq<u8>,
    before: Map<u32, u32>,
    after: Map<u32, u32>,
)
    requires
        key_made(data, start, end, offset, key, before),
        crate::persist::map_extended(before, after),
    ensures
        key_made(data, start, end, offset, key, after),
{
    let m = choose|m: crate::renumber::IndexMaps| #[trigger]
        crate::persist::map_extended(m.types, before) && crate::encoder::sub_type_written(
            data,
            start,
            end,
            offset,
            m,
        ) == Ok::<Option<Seq<u8>>, Failure>(Some(key));
    assert(crate::persist::map_extended(m.types, after));
}

/// Every type of the module that is bound to an index of the output is
/// written there: the type section holds at that index what the encoder
/// made of the type, with type indices that are bound.
pub open spec fn keyed_by(
    data: Seq<u8>,
    entries: Seq<crate::lookup::TypeLookupEntry>,
    types: crate::indices::IndexMapper,
    interner: TypeInterner,
) -> bool {
    forall|t: u32| #[trigger]
        types.mapping().contains_key(t) && t < entries.len() ==> {
            let held = crate::type_allocator::keys_held(interner.section().held());
            &&& types.mapping()[t] < held.len()
            &&& key_made(
                data,
                entries[t as int].group.span.start as int,
                entries[t as int].group.span.end as int,
                t - entries[t as int].group_base,
                held[types.mapping()[t] as int],
                types.mapping(),
            )
        }
}

/// What is written stays written while more types are written and bound.
pub proof fn lemma_keyed_kept(
    data: Seq<u8>,
    entries: Seq<crate::lookup::TypeLookupEntry>,
    before: crate::indices::IndexMapper,
    had: TypeInterner,
    after: crate::indices::IndexMapper,
    interner: TypeInterner,
    t: u32,
)
    requires
        keyed_by(data, entries, before, had),
        had.kept_by(&interner),
        crate::persist::map_extended(before.mapping(), after.mapping()),
        before.mapping().contains_key(t),
        t < entries.len(),
    ensures
        after.mapping()[t] < crate::type_allocator::keys_held(interner.section().held()).len(),
        key_made(
            data,
            entries[t as int].group.span.start as int,
            entries[t as int].group.span.end as int,
            t - entries[t as int].group_base,
            crate::type_allocator::keys_held(interner.section().held())[after.mapping()[t] as int],
            after.mapping(),
        ),
{
    let held = crate::type_allocator::keys_held(had.section().held());
    let index = before.mapping()[t];
    assert(crate::type_allocator::keys_held(interner.section().held())[index as int]
        == held[index as int]);
    lemma_key_made_stays(
        data,
        entries[t as int].group.span.start as int,
        entries[t as int].group.span.end as int,
        t - entries[t as int].group_base,
        held[index as int],
        before.mapping(),
        after.mapping(),
    );
}

/// What is typed stays typed while more types are written and bound.
pub proof fn lemma_typed_kept(
    entries: Seq<crate::lookup::TypeLookupEntry>,
    before: crate::indices::IndexMapper,
    had: TypeInterner,
    after: crate::indices::IndexMapper,
    interner: TypeInterner,
    t: u32,
)
    requires
        typed_by(entries, before, had),
        had.kept_by(&interner),
        crate::persist::map_extended(before.mapping(), after.mapping()),
        before.mapping().contains_key(t),
        t < entries.len(),
    ensures
        match entries[t as int].sub_type.func {
            Some(func) => signed(after.mapping(), interner, after.mapping()[t], func),
            None => true,
        },
{
    match entries[t as int].sub_type.func {
        Some(func) => {
            let a = types_only(before.mapping());
            let b = types_only(after.mapping());
            assert(signed(before.mapping(), had, before.mapping()[t], func));
            crate::persist::lemma_val_types_stay(a, b, func.params@);
            crate::persist::lemma_val_types_stay(a, b, func.results@);
            had.lemma_signature_kept(
                &interner,
                before.mapping()[t],
                (FuncTypeView {
                    params: a.val_types(func.params@),
                    results: a.val_types(func.results@),
                }),
            );
        },
        None => {},
    }
}

/// A value type that is renumbered has a counterpart in the encoder.
pub proof fn lemma_renumbered_encodable(maps: crate::renumber::IndexMaps, list: Seq<ValueType>)
    requires
        maps.val_types_ok(list),
    ensures
        all_encodable_types(maps.val_types(list)),
{
    assert forall|i: int| 0 <= i < list.len() implies encodable(
        #[trigger] maps.val_types(list)[i],
    ) by {
        assert(maps.val_type(list[i]) is Ok);
    }
}

/// None of the source indices from `from` up to `to` is bound.
pub open spec fn unbound(mapper: &crate::indices::IndexMapper, from: int, to: int) -> bool {
    forall|k: u32| from <= k < to ==> !#[trigger] mapper.mapping().contains_key(k)
}

impl<'a> Weaver<'a> {
    /// The lookup tables describe the module, every index that was handed
    /// out is accounted for, the slab, if it is there, lies within the
    /// indices that were handed out, every function type that is bound
    /// has its signature in the output, see [`typed_by`], and every type
    /// that is bound is written in the type section, see [`keyed_by`].
    pub open spec fn wf(&self) -> bool {
        &&& self.parsed.wf()
        &&& weavable(self.parsed)
        &&& self.ty_lookup.wf(self.parsed.types@)
        &&& self.fn_lookup.wf(self.parsed)
        &&& self.indices.wf()
        &&& self.interner.wf(&self.indices.types)
        &&& self.callable_functions@.len() == self.fn_lookup.entries().len()
        &&& match self.table_api {
            Some(api) => api.wf(&self.indices),
            None => true,
        }
        &&& typed_by(self.ty_lookup.entries(), self.indices.types, self.interner)
        &&& keyed_by(
            self.parsed.data@,
            self.ty_lookup.entries(),
            self.indices.types,
            self.interner,
        )
    }

    /// `later` is this weaver after more types were written: nothing else
    /// has changed, every type index that was bound is still bound to the
    /// same target, and every record of a type is still in place.
    pub open spec fn types_grown(&self, later: &Weaver<'a>) -> bool {
        &&& later.parsed == self.parsed
        &&& later.ty_lookup == self.ty_lookup
        &&& later.fn_lookup == self.fn_lookup
        &&& later.returns_lookup == self.returns_lookup
        &&& later.callable_functions == self.callable_functions
        &&& later.table_api == self.table_api
        &&& later.indices.funcs == self.indices.funcs
        &&& later.indices.tables == self.indices.tables
        &&& later.indices.globals == self.indices.globals
        &&& self.indices.types.extended_by(&later.indices.types)
        &&& self.interner.kept_by(&later.interner)
    }

    /// Growth is reflexive and transitive.
    pub proof fn lemma_types_grown(a: &Weaver<'a>, b: &Weaver<'a>, c: &Weaver<'a>)
        ensures
            a.types_grown(a),
            a.types_grown(b) && b.types_grown(c) ==> a.types_grown(c),
    {
    }

    /// A weaver for a module; nothing is woven yet.
    pub fn new(parsed: &'a ParsedModule<'a>) -> (r: Self)
        requires
            parsed.wf(),
            weavable(parsed),
        ensures
            r.wf(),
            r.parsed == parsed,
            r.table_api is None,
            r.returns_lookup@.len() == 0,
            r.indices.types.next() == 0,
            r.indices.funcs.next() == 0,
            r.indices.tables.next() == 0,
            r.indices.globals.next() == 0,
            forall|f: int| 0 <= f < r.callable_functions@.len() ==> r.callable_functions@[f],
    {
        let fn_lookup = FunctionLookup::new(parsed);
        let mut callable_functions: Vec<bool> = Vec::new();
        let mut i: usize = 0;
        while i < fn_lookup.count()
            invariant
                i <= fn_lookup.entries().len(),
                callable_functions@.len() == i,
                forall|f: int| 0 <= f < i ==> callable_functions@[f],
            decreases fn_lookup.entries().len() - i,
        {
            callable_functions.push(true);
            i = i + 1;
        }
        Weaver {
            parsed,
            ty_lookup: TypeLookup::new(parsed.types.as_slice()),
            fn_lookup,
            indices: Indices::new(),
            interner: TypeInterner::new(),
            returns_lookup: Vec::new(),
            callable_functions,
            table_api: None,
        }
    }

    /// What is typed stays typed while types are written and none is
    /// bound.
    pub proof fn lemma_typed_on(a: &Weaver<'a>, types: crate::indices::IndexMapper, interner: TypeInterner)
        requires
            typed_by(a.ty_lookup.entries(), a.indices.types, a.interner),
            keyed_by(a.parsed.data@, a.ty_lookup.entries(), a.indices.types, a.interner),
            a.interner.kept_by(&interner),
            types.mapping() == a.indices.types.mapping(),
        ensures
            typed_by(a.ty_lookup.entries(), types, interner),
            keyed_by(a.parsed.data@, a.ty_lookup.entries(), types, interner),
    {
        assert forall|t: u32| #[trigger]
            types.mapping().contains_key(t) && t < a.ty_lookup.entries().len() implies {
            let held = crate::type_allocator::keys_held(interner.section().held());
            &&& types.mapping()[t] < held.len()
            &&& key_made(
                a.parsed.data@,
                a.ty_lookup.entries()[t as int].group.span.start as int,
                a.ty_lookup.entries()[t as int].group.span.end as int,
                t - a.ty_lookup.entries()[t as int].group_base,
                held[types.mapping()[t] as int],
                types.mapping(),
            )
        } by {
            lemma_keyed_kept(
                a.parsed.data@,
                a.ty_lookup.entries(),
                a.indices.types,
                a.interner,
                types,
                interner,
                t,
            );
        }
        assert forall|t: u32| #[trigger]
            types.mapping().contains_key(t) && t < a.ty_lookup.entries().len() implies match a.ty_lookup.entries()[t as int].sub_type.func {
            Some(func) => signed(types.mapping(), interner, types.mapping()[t], func),
            None => true,
        } by {
            lemma_typed_kept(a.ty_lookup.entries(), a.indices.types, a.interner, types, interner, t);
        }
    }

    /// Writes a function type with these parameters and results, unless it
    /// is written already, and returns its index. The value types carry
    /// the indices of the output.
    pub fn new_fn_ty(&mut self, params: Vec<ValueType>, results: Vec<ValueType>) -> (r: Result<
        u32,
        Failure,
    >)
        requires
            old(self).wf(),
        ensures
            final(self).wf(),
            old(self).types_grown(final(self)),
            final(self).indices.types.mapping() == old(self).indices.types.mapping(),
            r matches Ok(index) ==> {
                &&& index < final(self).indices.types.next()
                &&& final(self).interner.has_signature(
                    index,
                    (FuncTypeView { params: params@, results: results@ }),
                )
            },
            all_encodable_types(params@) && all_encodable_types(results@) && old(
                self,
            ).indices.types.next() < u32::MAX ==> r is Ok,
            final(self).indices.types.next() <= old(self).indices.types.next() + 1,
    {
        let sub_type = match func_sub_type(&params, &results, true, false, Vec::new()) {
            Some(sub_type) => sub_type,
            None => {
                return Err(Failure::CanonicalizedHeapTypeReference);
            },
        };
        let func = FuncType::new(params, results);
        let r = self.interner.new_ty(&mut self.indices.types, Some(func), &sub_type);
        proof {
            Self::lemma_typed_on(old(self), self.indices.types, self.interner);
        }
        match r {
            Some(index) => Ok(index),
            None => Err(Failure::UserError(WeaveError::TypeIndexOutOfBounds(u32::MAX))),
        }
    }

    /// Renumbers the value types of a list. A type that a value type names
    /// and that is not written yet is written first.
    pub fn val_types(&mut self, list: &Vec<ValueType>) -> (r: Result<Vec<ValueType>, Failure>)
        requires
            old(self).wf(),
        ensures
            final(self).wf(),
            old(self).types_grown(final(self)),
            r matches Ok(out) ==> {
                let maps = (Renumbering {
                    indices: &final(self).indices,
                    callable: &final(self).callable_functions,
                }).maps();
                maps.val_types_ok(list@) && out@ == maps.val_types(list@)
            },
            old(self).maps().val_types_ok(list@) ==> {
                &&& r matches Ok(out)
                &&& out@ == old(self).maps().val_types(list@)
                &&& *final(self) == *old(self)
            },
    {
        let mut fuel: usize = self.ty_lookup.len();
        loop
            invariant
                self.wf(),
                old(self).types_grown(self),
                old(self).maps().val_types_ok(list@) ==> *self == *old(self),
            decreases fuel,
        {
            let attempt = {
                let renumber = Renumbering {
                    indices: &self.indices,
                    callable: &self.callable_functions,
                };
                renumber_val_types(list, &renumber)
            };
            match attempt {
                Ok(out) => {
                    return Ok(out);
                },
                Err(e) => {
                    proof {
                        if old(self).maps().val_types_ok(list@) {
                            let maps = self.maps();
                            let k = choose|k: int|
                                0 <= k < list@.len() && #[trigger] maps.val_type(list@[k]) == Err::<
                                    ValueType,
                                    Failure,
                                >(e) && maps.val_types_ok(list@.subrange(0, k));
                            assert(maps.val_type(list@[k]) is Ok);
                        }
                    }
                    let missing = Self::missing_type(e)?;
                    if fuel == 0 {
                        return Err(Failure::UserError(WeaveError::TypeIndexOutOfBounds(missing)));
                    }
                    fuel = fuel - 1;
                    let ghost before = *self;
                    self.type_index(missing)?;
                    proof {
                        Self::lemma_types_grown(old(self), &before, self);
                    }
                },
            }
        }
    }

    /// The index of the type that an attempt to renumber found unwritten;
    /// any other error is handed back.
    pub fn missing_type(e: Failure) -> (r: Result<u32, Failure>)
        ensures
            match e {
                Failure::UserError(WeaveError::TypeIndexOutOfBounds(ty)) => r == Ok::<u32, Failure>(
                    ty,
                ),
                _ => r == Err::<u32, Failure>(e),
            },
    {
        match e {
            Failure::UserError(WeaveError::TypeIndexOutOfBounds(ty)) => Ok(ty),
            other => Err(other),
        }
    }

    /// Writes a function type with these parameters and results, which
    /// carry the indices of the module that is woven.
    pub fn new_parser_fn_ty(&mut self, params: &Vec<ValueType>, results: &Vec<ValueType>) -> (r:
        Result<u32, Failure>)
        requires
            old(self).wf(),
        ensures
            final(self).wf(),
            old(self).types_grown(final(self)),
            r matches Ok(index) ==> {
                let maps = (Renumbering {
                    indices: &final(self).indices,
                    callable: &final(self).callable_functions,
                }).maps();
                &&& index < final(self).indices.types.next()
                &&& maps.val_types_ok(params@)
                &&& maps.val_types_ok(results@)
                &&& final(self).interner.has_signature(
                    index,
                    (FuncTypeView {
                        params: maps.val_types(params@),
                        results: maps.val_types(results@),
                    }),
                )
            },
            old(self).maps().val_types_ok(params@) && old(self).maps().val_types_ok(results@) && old(
                self,
            ).indices.types.next() < u32::MAX ==> r is Ok && final(self).maps() == old(self).maps()
                && final(self).indices.types.next() <= old(self).indices.types.next() + 1,
    {
        proof {
            if self.maps().val_types_ok(params@) {
                lemma_renumbered_encodable(self.maps(), params@);
            }
            if self.maps().val_types_ok(results@) {
                lemma_renumbered_encodable(self.maps(), results@);
            }
        }
        let new_params = self.val_types(params)?;
        let ghost middle = *self;
        let new_results = self.val_types(results)?;
        let ghost after = *self;
        proof {
            Self::lemma_types_grown(old(self), &middle, &after);
            Self::lemma_val_types_kept(&middle, &after, params@);
        }
        let r = self.new_fn_ty(new_params, new_results);
        proof {
            Self::lemma_types_grown(old(self), &after, self);
            Self::lemma_val_types_kept(&after, self, params@);
            Self::lemma_val_types_kept(&after, self, results@);
        }
        r
    }

    /// Value types that could be renumbered before more types were written
    /// are renumbered in the same way afterwards.
    pub proof fn lemma_val_types_kept(
        before: &Weaver<'a>,
        after: &Weaver<'a>,
        list: Seq<ValueType>,
    )
        requires
            before.types_grown(after),
            (Renumbering {
                indices: &before.indices,
                callable: &before.callable_functions,
            }).maps().val_types_ok(list),
        ensures
            (Renumbering {
                indices: &after.indices,
                callable: &after.callable_functions,
            }).maps().val_types_ok(list),
            (Renumbering {
                indices: &after.indices,
                callable: &after.callable_functions,
            }).maps().val_types(list) == (Renumbering {
                indices: &before.indices,
                callable: &before.callable_functions,
            }).maps().val_types(list),
    {
        let b = (Renumbering {
            indices: &before.indices,
            callable: &before.callable_functions,
        }).maps();
        let a = (Renumbering {
            indices: &after.indices,
            callable: &after.callable_functions,
        }).maps();
        assert forall|k: int| 0 <= k < list.len() implies #[trigger] a.val_type(list[k])
            == b.val_type(list[k]) by {
            assert(b.val_type(list[k]) is Ok);
        }
        assert(a.val_types(list) =~= b.val_types(list));
    }

    /// Whether the recursion group of the type `ty` can be written at
    /// once: none of its members is bound, the encoder takes every member
    /// with the indices that are bound so far, the value types of every
    /// signature can be renumbered, and as many indices are free as the
    /// group has members.
    pub open spec fn type_ready(&self, ty: u32) -> bool {
        let entry = self.ty_lookup.entries()[ty as int];
        let group = entry.group;
        &&& ty < self.ty_lookup.entries().len()
        &&& self.indices.types.next() + group.types@.len() <= u32::MAX
        &&& entry.group_base + group.types@.len() <= u32::MAX
        &&& group.types@.len() <= self.ty_lookup.entries().len()
        &&& unbound(
            &self.indices.types,
            entry.group_base as int,
            entry.group_base + group.types@.len(),
        )
        &&& forall|k: int|
            0 <= k < group.types@.len() ==> #[trigger] sub_type_refused(
                self.parsed.data@,
                group.span.start as int,
                group.span.end as int,
                k,
                self.maps(),
            ) is None
        &&& forall|k: int|
            0 <= k < group.types@.len() ==> match (#[trigger] group.types@[k]).func {
                Some(func) => self.maps().val_types_ok(func.params@) && self.maps().val_types_ok(
                    func.results@,
                ),
                None => true,
            }
    }

    /// In `later`, the members of the recursion group of the type `ty` are
    /// bound, in their order, to indices that follow one another.
    pub open spec fn group_bound(&self, ty: u32, later: &Weaver<'a>) -> bool {
        let entry = self.ty_lookup.entries()[ty as int];
        &&& ty < self.ty_lookup.entries().len()
        &&& forall|k: u32|
            entry.group_base <= k < entry.group_base + entry.group.types@.len()
                ==> #[trigger] later.indices.types.mapping().contains_key(k)
                && later.indices.types.mapping()[k] == later.indices.types.mapping()[ty] + k - ty
    }

    /// The index that a type of the module has in the output. A type that
    /// is not written yet is written now, together with the recursion
    /// group that it belongs to, and behind every type that the group
    /// refers to. A group may only refer to types that stand before it.
    /// The members of the group are then bound, in their order, to indices
    /// that follow one another.
    pub fn type_index(&mut self, ty: u32) -> (r: Result<u32, Failure>)
        requires
            old(self).wf(),
        ensures
            final(self).wf(),
            old(self).types_grown(final(self)),
            r matches Ok(index) ==> {
                &&& final(self).indices.types.mapping().contains_key(ty)
                &&& final(self).indices.types.mapping()[ty] == index
            },
            r matches Ok(index) && !old(self).indices.types.mapping().contains_key(ty) ==> old(
                self,
            ).group_bound(ty, final(self)),
            r matches Ok(index) ==> !old(self).indices.types.mapping().contains_key(ty) ==> {
                let entry = old(self).ty_lookup.entries()[ty as int];
                key_made(
                    old(self).parsed.data@,
                    entry.group.span.start as int,
                    entry.group.span.end as int,
                    ty - entry.group_base,
                    crate::type_allocator::keys_held(final(self).interner.section().held())[index as int],
                    final(self).indices.types.mapping(),
                )
            },
            old(self).type_ready(ty) ==> r is Ok && final(self).indices.types.next() <= old(
                self,
            ).indices.types.next() + old(self).ty_lookup.entries()[ty as int].group.types@.len(),
            old(self).indices.types.mapping().contains_key(ty) ==> {
                &&& r == Ok::<u32, Failure>(old(self).indices.types.mapping()[ty])
                &&& *final(self) == *old(self)
            },
            !old(self).indices.types.mapping().contains_key(ty) && ty >= old(
                self,
            ).ty_lookup.entries().len() ==> {
                &&& r == Err::<u32, Failure>(
                    Failure::UserError(WeaveError::TypeIndexOutOfBounds(ty)),
                )
                &&& *final(self) == *old(self)
            },
        decreases ty,
    {
        match self.indices.types.map(ty) {
            Some(index) => {
                return Ok(index);
            },
            None => {},
        }
        let entry = match self.ty_lookup.try_get(ty) {
            Ok(entry) => entry,
            Err(e) => {
                return Err(Failure::UserError(e));
            },
        };
        let group = entry.group;
        let base: u32 = entry.group_base;
        let span = group.span;
        let data = self.parsed.data;
        proof {
            assert(entry.describes(self.parsed.types@, ty as int));
            assert(crate::parse::group_spans(self.parsed.types@)[entry.group_index as int].within(
                data@.len(),
            ));
        }
        let members: usize = group.types.len();
        let mut funcs: Vec<Option<FuncType>> = Vec::new();
        let mut encoded: Vec<wasm_encoder::SubType> = Vec::new();
        let mut offset: usize = 0;
        while offset < members
            invariant
                self.wf(),
                old(self).types_grown(self),
                !old(self).indices.types.mapping().contains_key(ty),
                ty < old(self).ty_lookup.entries().len(),
                base == old(self).ty_lookup.entries()[ty as int].group_base,
                members == old(self).ty_lookup.entries()[ty as int].group.types@.len(),
                offset <= members,
                members == group.types@.len(),
                forall|j: int|
                    0 <= j < offset ==> sig_made(
                        self.maps(),
                        (#[trigger] group.types@[j]).func,
                        funcs@[j],
                    ),
                group == old(self).ty_lookup.entries()[ty as int].group,
                span == group.span,
                old(self).type_ready(ty) ==> *self == *old(self),
                base <= ty,
                span.within(data@.len()),
                data == self.parsed.data,
                funcs@.len() == offset,
                encoded@.len() == offset,
                forall|j: int|
                    0 <= j < offset ==> key_made(
                        data@,
                        span.start as int,
                        span.end as int,
                        j,
                        crate::encoder::key_of(#[trigger] encoded@[j]),
                        self.indices.types.mapping(),
                    ),
            decreases members - offset,
        {
            if offset > u32::MAX as usize {
                return Err(Failure::UserError(WeaveError::TypeIndexOutOfBounds(ty)));
            }
            let mut fuel: u32 = base;
            let mut found: Option<wasm_encoder::SubType> = None;
            while found.is_none()
                invariant
                    self.wf(),
                    old(self).types_grown(self),
                    !old(self).indices.types.mapping().contains_key(ty),
                    ty < old(self).ty_lookup.entries().len(),
                    base == old(self).ty_lookup.entries()[ty as int].group_base,
                    members == old(self).ty_lookup.entries()[ty as int].group.types@.len(),
                    offset <= u32::MAX,
                    offset < members,
                    funcs@.len() == offset,
                    members == group.types@.len(),
                    forall|j: int|
                        0 <= j < offset ==> sig_made(
                            self.maps(),
                            (#[trigger] group.types@[j]).func,
                            funcs@[j],
                        ),
                    group == old(self).ty_lookup.entries()[ty as int].group,
                    span == group.span,
                    old(self).type_ready(ty) ==> *self == *old(self),
                    base <= ty,
                    span.within(data@.len()),
                    data == self.parsed.data,
                    encoded@.len() == offset,
                    forall|j: int|
                        0 <= j < offset ==> key_made(
                            data@,
                            span.start as int,
                            span.end as int,
                            j,
                            crate::encoder::key_of(#[trigger] encoded@[j]),
                            self.indices.types.mapping(),
                        ),
                    found matches Some(t) ==> key_made(
                        data@,
                        span.start as int,
                        span.end as int,
                        offset as int,
                        crate::encoder::key_of(t),
                        self.indices.types.mapping(),
                    ),
                decreases
                        if found is None {
                            fuel + 1
                        } else {
                            0
                        },
            {
                let attempt = {
                    let renumber = Renumbering {
                        indices: &self.indices,
                        callable: &self.callable_functions,
                    };
                    reencode_sub_type(data, span.start, span.end, offset as u32, &renumber)
                };
                match attempt {
                    Ok(sub_type) => {
                        proof {
                            assert(crate::persist::map_extended(
                                self.maps().types,
                                self.indices.types.mapping(),
                            ));
                        }
                        found = Some(sub_type);
                    },
                    Err(e) => {
                        let missing = Self::missing_type(e)?;
                        if missing >= base || fuel == 0 {
                            return Err(
                                Failure::UserError(WeaveError::TypeIndexOutOfBounds(missing)),
                            );
                        }
                        fuel = fuel - 1;
                        let ghost before = *self;
                        self.type_index(missing)?;
                        proof {
                            assert forall|j: int| 0 <= j < offset implies key_made(
                                data@,
                                span.start as int,
                                span.end as int,
                                j,
                                crate::encoder::key_of(#[trigger] encoded@[j]),
                                self.indices.types.mapping(),
                            ) by {
                                lemma_key_made_stays(
                                    data@,
                                    span.start as int,
                                    span.end as int,
                                    j,
                                    crate::encoder::key_of(encoded@[j]),
                                    before.indices.types.mapping(),
                                    self.indices.types.mapping(),
                                );
                            }
                            Self::lemma_types_grown(old(self), &before, self);
                            assert forall|j: int| 0 <= j < offset implies sig_made(
                                self.maps(),
                                (#[trigger] group.types@[j]).func,
                                funcs@[j],
                            ) by {
                                assert(sig_made(before.maps(), group.types@[j].func, funcs@[j]));
                                if let Some(func) = group.types@[j].func {
                                    Self::lemma_val_types_kept(&before, self, func.params@);
                                    Self::lemma_val_types_kept(&before, self, func.results@);
                                }
                            }
                        }
                    },
                }
            }
            let sub_type = found.unwrap();
            let func = match &group.types[offset].func {
                Some(func) => {
                    let renumber = Renumbering {
                        indices: &self.indices,
                        callable: &self.callable_functions,
                    };
                    let params = renumber_val_types(&func.params, &renumber)?;
                    let results = renumber_val_types(&func.results, &renumber)?;
                    Some(FuncType::new(params, results))
                },
                None => None,
            };
            funcs.push(func);
            encoded.push(sub_type);
            offset = offset + 1;
        }
        let ghost middle = *self;
        let ghost made = funcs@;
        let ghost keys = crate::encoder::keys_of(encoded@);
        let written = if !group.explicit && members == 1 {
            let func = funcs.pop().unwrap();
            self.interner.new_ty(&mut self.indices.types, func, &encoded[0])
        } else {
            self.interner.new_rec_group(&mut self.indices.types, funcs, encoded)
        };
        let target: u32 = match written {
            Some(target) => target,
            None => {
                return Err(Failure::UserError(WeaveError::TypeIndexOutOfBounds(u32::MAX)));
            },
        };
        proof {
            assert forall|j: int| 0 <= j < members implies key_made(
                data@,
                span.start as int,
                span.end as int,
                j,
                #[trigger] crate::type_allocator::keys_held(self.interner.section().held())[target
                    + j],
                self.indices.types.mapping(),
            ) by {
                assert(key_made(
                    data@,
                    span.start as int,
                    span.end as int,
                    j,
                    keys[j],
                    middle.indices.types.mapping(),
                ));
                if !group.explicit && members == 1 {
                    assert(self.interner.knows(keys[0], crate::type_allocator::signature_view(made[0])));
                } else {
                    let at = middle.interner.records().len() + j;
                    assert(self.interner.records()[at].index == target + j);
                    assert(self.interner.records()[at].key@ == keys[j]);
                }
                assert(crate::type_allocator::keys_held(self.interner.section().held())[target + j]
                    == keys[j]);
            }
        }
        proof {
            assert(self.interner.emitted() == self.indices.types.next());
            assert(middle.interner.emitted() == middle.indices.types.next());
            Self::lemma_typed_on(&middle, self.indices.types, self.interner);
            assert forall|j: int| 0 <= j < members implies member_signed(
                self.indices.types.mapping(),
                self.interner,
                target + j,
                (#[trigger] group.types@[j]).func,
            ) by {
                assert(sig_made(middle.maps(), group.types@[j].func, made[j]));
                if let Some(func) = group.types@[j].func {
                    let only = types_only(self.indices.types.mapping());
                    crate::persist::lemma_val_types_stay(middle.maps(), only, func.params@);
                    crate::persist::lemma_val_types_stay(middle.maps(), only, func.results@);
                    self.indices.types.lemma_next_bounded();
                    if !group.explicit && members == 1 {
                        assert(j == 0);
                        assert(self.interner.has_signature(target, made[0]->0@));
                    } else {
                        let at = middle.interner.records().len() + j;
                        let record = self.interner.records()[at];
                        assert(record.index == target + j);
                        assert(record.matches_type(
                            record.key@,
                            crate::type_allocator::signature_view(made[j]),
                        ));
                    }
                    assert(self.interner.has_signature((target + j) as u32, made[j]->0@));
                }
            }
        }
        if members as u64 > (self.indices.types.reserved() - target) as u64 || members as u64
            > (u32::MAX - base) as u64 {
            return Err(Failure::UserError(WeaveError::TypeIndexOutOfBounds(ty)));
        }
        let ghost bound = *self;
        proof {
            assert(middle.types_grown(&bound));
            Self::lemma_types_grown(old(self), &middle, &bound);
            self.indices.types.lemma_next_bounded();
        }
        let mut i: u32 = 0;
        while i < members as u32
            invariant
                self.wf(),
                !old(self).indices.types.mapping().contains_key(ty),
                ty < old(self).ty_lookup.entries().len(),
                base == old(self).ty_lookup.entries()[ty as int].group_base,
                members == old(self).ty_lookup.entries()[ty as int].group.types@.len(),
                old(self).types_grown(&bound),
                bound.types_grown(self),
                i <= members,
                base <= ty,
                members <= u32::MAX - base,
                group == old(self).ty_lookup.entries()[ty as int].group,
                forall|j: int|
                    0 <= j < members ==> member_signed(
                        self.indices.types.mapping(),
                        self.interner,
                        target + j,
                        (#[trigger] group.types@[j]).func,
                    ),
                target + members <= self.indices.types.next(),
                self.indices.types.next() <= u32::MAX,
                self.interner == bound.interner,
                data == self.parsed.data,
                span == group.span,
                forall|j: int|
                    0 <= j < members ==> key_made(
                        data@,
                        span.start as int,
                        span.end as int,
                        j,
                        #[trigger] crate::type_allocator::keys_held(
                            bound.interner.section().held(),
                        )[target + j],
                        self.indices.types.mapping(),
                    ),
                old(self).type_ready(ty) ==> unbound(
                    &self.indices.types,
                    base + i,
                    base + members,
                ),
                old(self).type_ready(ty) ==> self.indices.types.next() <= old(
                    self,
                ).indices.types.next() + members,
                forall|k: u32|
                    base <= k < base + i ==> #[trigger] self.indices.types.mapping().contains_key(k)
                        && self.indices.types.mapping()[k] == target + (k - base),
            decreases members - i,
        {
            if self.indices.types.map(base + i).is_some() {
                proof {
                    Self::lemma_types_grown(old(self), &bound, self);
                }
                return Err(Failure::UserError(WeaveError::TypeIndexOutOfBounds(base + i)));
            }
            let ghost before = *self;
            self.indices.types.add_mapping(base + i, target + i);
            proof {
                crate::indices::IndexMapper::lemma_bind_keeps(
                    before.indices.types,
                    self.indices.types,
                    (base + i) as u32,
                    (target + i) as u32,
                );
                assert(before.types_grown(self));
                Self::lemma_types_grown(&bound, &before, self);
                let entries = self.ty_lookup.entries();
                let now = self.indices.types.mapping();
                assert forall|j: int| 0 <= j < members implies key_made(
                    data@,
                    span.start as int,
                    span.end as int,
                    j,
                    #[trigger] crate::type_allocator::keys_held(bound.interner.section().held())[target
                        + j],
                    now,
                ) by {
                    lemma_key_made_stays(
                        data@,
                        span.start as int,
                        span.end as int,
                        j,
                        crate::type_allocator::keys_held(bound.interner.section().held())[target + j],
                        before.indices.types.mapping(),
                        now,
                    );
                }
                assert forall|j: int| 0 <= j < members implies member_signed(
                    now,
                    self.interner,
                    target + j,
                    (#[trigger] group.types@[j]).func,
                ) by {
                    assert(member_signed(
                        before.indices.types.mapping(),
                        before.interner,
                        target + j,
                        group.types@[j].func,
                    ));
                    if let Some(func) = group.types@[j].func {
                        let a = types_only(before.indices.types.mapping());
                        let b = types_only(now);
                        crate::persist::lemma_val_types_stay(a, b, func.params@);
                        crate::persist::lemma_val_types_stay(a, b, func.results@);
                    }
                }
                assert forall|t: u32| #[trigger]
                    now.contains_key(t) && t < entries.len() implies {
                    let held = crate::type_allocator::keys_held(self.interner.section().held());
                    &&& now[t] < held.len()
                    &&& key_made(
                        data@,
                        entries[t as int].group.span.start as int,
                        entries[t as int].group.span.end as int,
                        t - entries[t as int].group_base,
                        held[now[t] as int],
                        now,
                    )
                } by {
                    if t == base + i {
                        self.ty_lookup.lemma_member(self.parsed.types@, ty as int, t as int);
                        assert(entries[t as int].group == group);
                        assert(entries[t as int].group_base == base);
                        assert(key_made(
                            data@,
                            span.start as int,
                            span.end as int,
                            i as int,
                            crate::type_allocator::keys_held(bound.interner.section().held())[target
                                + i],
                            now,
                        ));
                    } else {
                        lemma_keyed_kept(
                            data@,
                            entries,
                            before.indices.types,
                            before.interner,
                            self.indices.types,
                            self.interner,
                            t,
                        );
                    }
                }
                assert forall|t: u32| #[trigger]
                    now.contains_key(t) && t < entries.len() implies match entries[t as int].sub_type.func {
                    Some(func) => signed(now, self.interner, now[t], func),
                    None => true,
                } by {
                    if t == base + i {
                        self.ty_lookup.lemma_member(self.parsed.types@, ty as int, t as int);
                        assert(*entries[t as int].sub_type == group.types@[i as int]);
                        assert(member_signed(
                            now,
                            self.interner,
                            target + i,
                            group.types@[i as int].func,
                        ));
                    } else {
                        lemma_typed_kept(
                            entries,
                            before.indices.types,
                            before.interner,
                            self.indices.types,
                            self.interner,
                            t,
                        );
                    }
                }
                assert forall|k: u32| base <= k < base + i + 1 implies #[trigger] self.indices.types.mapping().contains_key(
                    k,
                ) && self.indices.types.mapping()[k] == target + (k - base) by {
                    if k < base + i {
                        assert(before.indices.types.mapping().contains_key(k));
                    }
                }
            }
            i = i + 1;
        }
        proof {
            Self::lemma_types_grown(old(self), &bound, self);
        }
        if ty - base >= members as u32 {
            return Err(Failure::UserError(WeaveError::TypeIndexOutOfBounds(ty)));
        }
        assert(i == members);
        assert(base <= ty < base + i);
        assert(self.indices.types.mapping().contains_key(ty));
        let index: u32 = target + (ty - base);
        proof {
            let entry = old(self).ty_lookup.entries()[ty as int];
            assert(entry.group_base == base);
            assert(entry.group.types@.len() == members);
            assert forall|k: u32|
                entry.group_base <= k < entry.group_base + entry.group.types@.len()
                    implies #[trigger] self.indices.types.mapping().contains_key(k)
                    && self.indices.types.mapping()[k] == index + k - ty by {
                assert(base <= k < base + i);
                assert(self.indices.types.mapping().contains_key(k));
                assert(self.indices.types.mapping()[k] == target + (k - base));
            }
            assert(self.indices.types.mapping()[ty] == index);
            assert(old(self).group_bound(ty, self));
        }
        Ok(index)
    }
}

} // verus!
