//! What the weaver does with one function: the type that it declares for
//! it, and the body that it writes for it.

use crate::body::{is_externref, meta_at, rewritten_signature, wire_signature};
use crate::error::{Failure, WeaveError};
use crate::lookup::FunctionLookupEntry;
use crate::parse::Span;
use crate::renumber::{Renumber, Renumbering};
use crate::signature::{SignatureKey, SignatureKeyView};
use crate::table_slab::str_eq;
use crate::types::{FuncTypeView, MetaKind, ValueType, ValueTypeMeta};
use crate::weaver::{ReturnStub, Weaver};
use vstd::prelude::*;
use vstd::string::*;

verus! {

/// The stub that belongs to the export with this name: the last of the
/// first `count` stubs that bears the name.
pub open spec fn stub_of(stubs: Seq<ReturnStub>, name: Seq<char>, count: int) -> Option<ReturnStub>
    decreases count,
{
    if count <= 0 {
        None
    } else if stubs[count - 1].name@ == name {
        Some(stubs[count - 1])
    } else {
        stub_of(stubs, name, count - 1)
    }
}

/// Whether one of the tags asks for a host reference.
pub open spec fn asks_for_externref(metas: Seq<ValueTypeMeta>) -> bool {
    exists|k: int| 0 <= k < metas.len() && is_externref(#[trigger] meta_at(Some(metas), k))
}

/// Whether one of the tags is not the tag of a plain value.
pub open spec fn asks_for_anything(metas: Seq<ValueTypeMeta>) -> bool {
    exists|k: int| 0 <= k < metas.len() && (#[trigger] metas[k]).spec_kind() != MetaKind::Plain
}

/// Whether one of the tags asks for a host reference.
pub fn has_externref(metas: &Vec<ValueTypeMeta>) -> (r: bool)
    ensures
        r == asks_for_externref(metas@),
{
    let mut k: usize = 0;
    while k < metas.len()
        invariant
            k <= metas@.len(),
            forall|j: int| 0 <= j < k ==> !is_externref(#[trigger] meta_at(Some(metas@), j)),
        decreases metas.len() - k,
    {
        match metas[k].kind() {
            MetaKind::ExternrefOwned => {
                assert(is_externref(meta_at(Some(metas@), k as int)));
                return true;
            },
            MetaKind::ExternrefRef => {
                assert(is_externref(meta_at(Some(metas@), k as int)));
                return true;
            },
            _ => {},
        }
        k = k + 1;
    }
    false
}

/// Whether one of the tags is not the tag of a plain value.
pub fn has_any_meta(metas: &Vec<ValueTypeMeta>) -> (r: bool)
    ensures
        r == asks_for_anything(metas@),
{
    let mut k: usize = 0;
    while k < metas.len()
        invariant
            k <= metas@.len(),
            forall|j: int| 0 <= j < k ==> (#[trigger] metas@[j]).spec_kind() == MetaKind::Plain,
        decreases metas.len() - k,
    {
        match metas[k].kind() {
            MetaKind::Plain => {},
            _ => {
                return true;
            },
        }
        k = k + 1;
    }
    false
}

/// The total of the counts of a list of locals, if it fits in 32 bits.
pub open spec fn locals_total(locals: Seq<(u32, ValueType)>, count: int) -> int
    decreases count,
{
    if count <= 0 {
        0
    } else {
        locals_total(locals, count - 1) + locals[count - 1].0
    }
}

/// The total of the counts of a list of locals, if it fits in 32 bits.
pub fn count_locals(locals: &Vec<(u32, ValueType)>) -> (r: Option<u32>)
    ensures
        match r {
            Some(total) => total == locals_total(locals@, locals@.len() as int),
            None => locals_total(locals@, locals@.len() as int) > u32::MAX,
        },
{
    let mut total: u32 = 0;
    let mut i: usize = 0;
    while i < locals.len()
        invariant
            i <= locals@.len(),
            total == locals_total(locals@, i as int),
        decreases locals.len() - i,
    {
        let count: u32 = locals[i].0;
        if count > u32::MAX - total {
            proof {
                lemma_locals_total_grows(locals@, i + 1, locals@.len() as int);
            }
            return None;
        }
        total = total + count;
        i = i + 1;
    }
    Some(total)
}

/// Renumbering the types of locals leaves their counts as they are.
pub proof fn lemma_locals_total_retyped(
    locals: Seq<(u32, ValueType)>,
    maps: crate::renumber::IndexMaps,
    count: int,
)
    requires
        0 <= count <= locals.len(),
    ensures
        locals_total(crate::code::retyped(locals, maps), count) == locals_total(locals, count),
    decreases count,
{
    if count > 0 {
        lemma_locals_total_retyped(locals, maps, count - 1);
    }
}

/// The total of the counts grows with the number of locals.
pub proof fn lemma_locals_total_grows(locals: Seq<(u32, ValueType)>, a: int, b: int)
    requires
        0 <= a <= b,
    ensures
        locals_total(locals, a) <= locals_total(locals, b),
    decreases b,
{
    if a < b {
        lemma_locals_total_grows(locals, a, b - 1);
    }
}

impl<'a> Weaver<'a> {
    /// The mathematical value of the renumbering of this weaver.
    pub open spec fn maps(&self) -> crate::renumber::IndexMaps {
        (Renumbering { indices: &self.indices, callable: &self.callable_functions }).maps()
    }

    /// The stub that belongs to the export with this name, if there is
    /// one.
    pub fn find_stub(&self, name: &str) -> (r: Option<ReturnStub<'a>>)
        ensures
            r == stub_of(self.returns_lookup@, name@, self.returns_lookup@.len() as int),
    {
        let mut i: usize = self.returns_lookup.len();
        while i > 0
            invariant
                i <= self.returns_lookup@.len(),
                stub_of(self.returns_lookup@, name@, self.returns_lookup@.len() as int) == stub_of(
                    self.returns_lookup@,
                    name@,
                    i as int,
                ),
            decreases i,
        {
            let stub = self.returns_lookup[i - 1];
            if str_eq(stub.name.as_str(), name) {
                return Some(stub);
            }
            i = i - 1;
        }
        None
    }

    /// The index that a function of the module has in the output. A
    /// function that was stripped may not be referred to.
    pub fn function_index(&self, func: u32) -> (r: Result<u32, WeaveError>)
        ensures
            r == self.maps().function_index(func),
    {
        let renumber = Renumbering { indices: &self.indices, callable: &self.callable_functions };
        renumber.function_index(func)
    }

    /// The index that a table of the module has in the output.
    pub fn table_index(&self, table: u32) -> (r: Result<u32, WeaveError>)
        ensures
            r == self.maps().table_index(table),
    {
        let renumber = Renumbering { indices: &self.indices, callable: &self.callable_functions };
        renumber.table_index(table)
    }

    /// The index that a global of the module has in the output.
    pub fn global_index(&self, global: u32) -> (r: Result<u32, WeaveError>)
        ensures
            r == self.maps().global_index(global),
    {
        let renumber = Renumbering { indices: &self.indices, callable: &self.callable_functions };
        renumber.global_index(global)
    }

    /// Writes the type that an attempt to renumber found unwritten. Any
    /// other error, and a type that is asked for when nothing is left to
    /// write, is handed back.
    pub fn write_missing_type(&mut self, e: Failure, fuel: &mut usize) -> (r: Result<(), Failure>)
        requires
            old(self).wf(),
        ensures
            final(self).wf(),
            old(self).types_grown(final(self)),
            r is Ok ==> *final(fuel) < *old(fuel),
            r is Err ==> *final(fuel) == *old(fuel),
            match e {
                Failure::UserError(WeaveError::TypeIndexOutOfBounds(missing)) => {
                    &&& (r is Ok) ==> (*old(fuel) > 0 && final(self).indices.types.mapping().contains_key(
                        missing,
                    ))
                    &&& *old(fuel) == 0 ==> (r == Err::<(), Failure>(e) && *final(self) == *old(self))
                    &&& (*old(fuel) > 0 && old(self).indices.types.mapping().contains_key(missing))
                        ==> ((r is Ok) && *final(self) == *old(self))
                },
                _ => (r == Err::<(), Failure>(e) && *final(self) == *old(self)),
            },
            e matches Failure::UserError(WeaveError::TypeIndexOutOfBounds(missing)) ==> (*old(fuel)
                > 0 && old(self).type_ready(missing) ==> r is Ok && old(self).grown_within(
                final(self),
                old(self).ty_lookup.entries().len() as int,
            )),
    {
        let missing = Self::missing_type(e)?;
        if *fuel == 0 {
            return Err(Failure::UserError(WeaveError::TypeIndexOutOfBounds(missing)));
        }
        match self.type_index(missing) {
            Ok(_) => {
                *fuel = *fuel - 1;
                Ok(())
            },
            Err(e) => Err(e),
        }
    }

    /// The body at position `body_index`, by the function lookup.
    pub fn body_entry(&self, body_index: u32) -> (r: Result<(u32, Span, Option<&'a String>), Failure>)
        requires
            self.wf(),
        ensures
            match r {
                Ok((ty, body, export_name)) => {
                    &&& body_index < self.parsed.code@.len()
                    &&& ty == self.parsed.functions@[body_index as int]
                    &&& body == self.parsed.code@[body_index as int]
                    &&& body.within(self.parsed.data@.len())
                    &&& self.fn_lookup.entries()[self.fn_lookup.imported() + body_index]
                        == (FunctionLookupEntry::Body {
                        index: body_index,
                        ty,
                        body,
                        export_name,
                    })
                },
                Err(e) => {
                    &&& body_index >= self.parsed.code@.len()
                    &&& e matches Failure::UserError(WeaveError::FunctionIndexOutOfBounds(_))
                },
            },
    {
        let imported: u32 = self.fn_lookup.import_count();
        if body_index > u32::MAX - imported {
            return Err(Failure::UserError(WeaveError::FunctionIndexOutOfBounds(body_index)));
        }
        let index: u32 = self.fn_lookup.index_of_body(body_index);
        assert(self.fn_lookup.entries().len() == imported + self.parsed.code@.len());
        match self.fn_lookup.try_get(index) {
            Ok(FunctionLookupEntry::Body { index: at, ty, body, export_name }) => {
                proof {
                    assert(self.fn_lookup.body_at(self.parsed, index as int));
                }
                Ok((ty, body, export_name))
            },
            Ok(FunctionLookupEntry::Import { .. }) => {
                proof {
                    assert(self.fn_lookup.body_at(self.parsed, index as int));
                }
                Err(Failure::UserError(WeaveError::FunctionIndexOutOfBounds(index)))
            },
            Err(e) => Err(Failure::UserError(e)),
        }
    }

    /// The parameters and results of the function type with this index.
    pub fn signature_of(&self, ty: u32) -> (r: Result<
        (&'a Vec<ValueType>, &'a Vec<ValueType>),
        Failure,
    >)
        requires
            self.wf(),
        ensures
            r matches Ok((params, results)) ==> {
                &&& ty < self.ty_lookup.entries().len()
                &&& self.ty_lookup.entries()[ty as int].sub_type.func matches Some(func)
                &&& func.params == *params
                &&& func.results == *results
            },
            ty >= self.ty_lookup.entries().len() ==> r == Err::<
                (&'a Vec<ValueType>, &'a Vec<ValueType>),
                Failure,
            >(Failure::UserError(WeaveError::TypeIndexOutOfBounds(ty))),
            ty < self.ty_lookup.entries().len() ==> match self.ty_lookup.entries()[ty as int].sub_type.func {
                Some(_) => r is Ok,
                None => r == Err::<(&'a Vec<ValueType>, &'a Vec<ValueType>), Failure>(
                    Failure::UserError(WeaveError::FunctionTypeIsNotFunction(ty)),
                ),
            },
    {
        let entry = match self.ty_lookup.try_get(ty) {
            Ok(entry) => entry,
            Err(e) => {
                return Err(Failure::UserError(e));
            },
        };
        proof {
            assert(entry.describes(self.parsed.types@, ty as int));
        }
        match entry.try_fn_ty() {
            Ok(func) => Ok((&func.params, &func.results)),
            Err(e) => Err(Failure::UserError(e)),
        }
    }

    /// The type that the output declares for the function whose body
    /// stands at position `body_index`. A function that has a return stub,
    /// or whose tags ask for a host reference, gets the signature that the
    /// host sees: its own parameters, for results the parameters of its
    /// stub if it has one, and `externref` wherever a tag asks for a host
    /// reference. Any other function keeps its type.
    pub fn declare_function(&mut self, body_index: u32) -> (r: Result<u32, Failure>)
        requires
            old(self).wf(),
        ensures
            final(self).wf(),
            old(self).types_grown(final(self)),
            r matches Ok(index) ==> {
                &&& index < final(self).indices.types.next()
                &&& body_index < old(self).parsed.functions@.len()
                &&& body_index < old(self).parsed.code@.len()
                &&& old(self).declares(body_index, index, final(self))
            },
            body_index >= old(self).parsed.code@.len() ==> {
                &&& r matches Err(Failure::UserError(WeaveError::FunctionIndexOutOfBounds(_)))
                &&& *final(self) == *old(self)
            },
            body_index < old(self).parsed.code@.len() && old(self).keeps_type(body_index) && old(
                self,
            ).indices.types.mapping().contains_key(old(self).parsed.functions@[body_index as int])
                ==> {
                &&& r == Ok::<u32, Failure>(
                    old(self).indices.types.mapping()[old(self).parsed.functions@[body_index as int]],
                )
                &&& *final(self) == *old(self)
            },
            body_index < old(self).parsed.code@.len() && old(self).keeps_type(body_index) && old(
                self,
            ).type_ready(old(self).parsed.functions@[body_index as int]) ==> r is Ok && old(
                self,
            ).grown_within(final(self), old(self).ty_lookup.entries().len() as int),
            body_index < old(self).parsed.code@.len() && !old(self).keeps_type(body_index) && old(
                self,
            ).wire_ready(body_index) ==> r is Ok && old(self).grown_within(final(self), 1),
    {
        let (ty, _, export_name) = self.body_entry(body_index)?;
        let (stub, metas) = match export_name {
            Some(name) => {
                let key = SignatureKey::export(name.as_str());
                let metas = self.parsed.signatures.get(&key);
                (self.find_stub(name.as_str()), metas)
            },
            None => (None, None),
        };
        let externref = match metas {
            Some(m) => has_externref(m),
            None => false,
        };
        if stub.is_some() || externref {
            let (params, own_results) = self.signature_of(ty)?;
            let results = match stub {
                Some(stub) => stub.params,
                None => own_results,
            };
            if params.len() > usize::MAX - results.len() {
                return Err(Failure::UserError(WeaveError::TypeIndexOutOfBounds(ty)));
            }
            let wire = rewritten_signature(params, results, metas);
            let index = self.new_parser_fn_ty(&wire.params, &wire.results)?;
            Ok(index)
        } else {
            let index = self.type_index(ty)?;
            proof {
                self.indices.types.lemma_next_bounded();
                assert(self.indices.types.wf());
            }
            Ok(index)
        }
    }

    /// Whether the signature that the host sees of the function whose
    /// body stands at position `body_index` can be written at once: the
    /// type of the function is a function type, every type that the
    /// signature names is written, and a type index is free.
    pub open spec fn wire_ready(&self, body_index: u32) -> bool {
        let entry = self.fn_lookup.entries()[self.fn_lookup.imported() + body_index];
        let ty = self.parsed.functions@[body_index as int];
        let func = self.ty_lookup.entries()[ty as int].sub_type.func.unwrap();
        let name = entry->Body_export_name;
        let stub = match name {
            Some(name) => stub_of(self.returns_lookup@, name@, self.returns_lookup@.len() as int),
            None => None,
        };
        let metas = match name {
            Some(name) => if self.parsed.signatures.contains(SignatureKeyView::Export(name@)) {
                Some(self.parsed.signatures.metas(SignatureKeyView::Export(name@)))
            } else {
                None
            },
            None => None,
        };
        let results = match stub {
            Some(stub) => stub.params@,
            None => func.results@,
        };
        let wire = wire_signature(func.params@, results, metas);
        &&& ty < self.ty_lookup.entries().len()
        &&& self.ty_lookup.entries()[ty as int].sub_type.func is Some
        &&& func.params@.len() + results.len() <= usize::MAX
        &&& self.maps().val_types_ok(wire.params)
        &&& self.maps().val_types_ok(wire.results)
        &&& self.indices.types.next() < u32::MAX
    }

    /// `w` is this weaver after the recursion group of the type `ty` was
    /// written at once: more types are written, at most as many as the
    /// module has, and `ty` is among them.
    pub open spec fn written(&self, w: &Weaver<'a>, ty: u32) -> bool {
        &&& self.types_grown(w)
        &&& w.indices.types.mapping().contains_key(ty)
        &&& self.grown_within(w, self.ty_lookup.entries().len() as int)
    }

    /// `later` has handed out at most `count` type indices more than this
    /// weaver.
    pub open spec fn grown_within(&self, later: &Weaver<'a>, count: int) -> bool {
        later.indices.types.next() <= self.indices.types.next() + count
    }

    /// Whether the function whose body stands at position `body_index`
    /// keeps its type: it has no return stub, and its tags, if it has any,
    /// ask for no host reference.
    pub open spec fn keeps_type(&self, body_index: u32) -> bool {
        let entry = self.fn_lookup.entries()[self.fn_lookup.imported() + body_index];
        match entry->Body_export_name {
            Some(name) => {
                &&& stub_of(self.returns_lookup@, name@, self.returns_lookup@.len() as int) is None
                &&& self.parsed.signatures.contains(SignatureKeyView::Export(name@))
                    ==> !asks_for_externref(
                    self.parsed.signatures.metas(SignatureKeyView::Export(name@)),
                )
            },
            None => true,
        }
    }

    /// What [`Weaver::declare_function`] promises of the type index that it
    /// returns: the type at `index` of `later`, the weaver after the call,
    /// has the signature that the host sees of the function, with the
    /// type indices of the output; or, for a function without stub whose
    /// tags ask for no host reference, `index` is what its own type index
    /// became.
    pub open spec fn declares(&self, body_index: u32, index: u32, later: &Weaver<'a>) -> bool {
        let entry = self.fn_lookup.entries()[self.fn_lookup.imported() + body_index];
        let ty = self.parsed.functions@[body_index as int];
        let name = entry->Body_export_name;
        let stub = match name {
            Some(name) => stub_of(self.returns_lookup@, name@, self.returns_lookup@.len() as int),
            None => None,
        };
        let metas = match name {
            Some(name) => if self.parsed.signatures.contains(SignatureKeyView::Export(name@)) {
                Some(self.parsed.signatures.metas(SignatureKeyView::Export(name@)))
            } else {
                None
            },
            None => None,
        };
        let externref = match metas {
            Some(m) => asks_for_externref(m),
            None => false,
        };
        if stub is Some || externref {
            let func = self.ty_lookup.entries()[ty as int].sub_type.func.unwrap();
            let results = match stub {
                Some(stub) => stub.params@,
                None => func.results@,
            };
            let wire = wire_signature(func.params@, results, metas);
            &&& later.maps().val_types_ok(wire.params)
            &&& later.maps().val_types_ok(wire.results)
            &&& later.interner.has_signature(
                index,
                (FuncTypeView {
                    params: later.maps().val_types(wire.params),
                    results: later.maps().val_types(wire.results),
                }),
            )
        } else {
            &&& later.indices.types.mapping().contains_key(ty)
            &&& later.indices.types.mapping()[ty] == index
        }
    }
}

} // verus!
