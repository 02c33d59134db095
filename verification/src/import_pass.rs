//! The first pass over a module: its imports.
//!
//! An import of the namespace `__export_returns` is a return stub. It is
//! recorded under its name and left out of the output, and no code may
//! refer to it. An import of the namespace `__table` waits until the slab
//! is merged. Every other import is written anew and gets the next free
//! index of its kind.

use crate::encoder::{encode_entity, entity_encoded};
use crate::error::{Failure, WeaveError};
use crate::lookup::function_imports_before;
use crate::parse::Import;
use crate::progress::{identity_to, keys_below};
use crate::reader::ExternKind;
use crate::renumber::Renumbering;
use crate::sections::ImportOut;
use crate::table_slab::str_eq;
use crate::weaver::{ReturnStub, Weaver};
use vstd::prelude::*;
use vstd::string::*;

verus! {

/// An index space that imports share with what a module defines itself.
#[derive(Clone, Copy, Debug, PartialEq, Eq, Structural)]
pub enum Space {
    Funcs,
    Tables,
    Globals,
}

/// The index space that an import takes an index of, if any.
pub open spec fn space_of(import: &Import) -> Option<Space> {
    if import.type_index is Some {
        Some(Space::Funcs)
    } else {
        match import.kind {
            ExternKind::Table => Some(Space::Tables),
            ExternKind::Global => Some(Space::Globals),
            _ => None,
        }
    }
}

/// The index space that an import takes an index of, if any.
pub fn import_space(import: &Import) -> (r: Option<Space>)
    ensures
        r == space_of(import),
{
    if import.type_index.is_some() {
        Some(Space::Funcs)
    } else {
        match import.kind {
            ExternKind::Table => Some(Space::Tables),
            ExternKind::Global => Some(Space::Globals),
            _ => None,
        }
    }
}

/// How many of the first `count` imports take an index of the given
/// space.
pub open spec fn imports_in(imports: Seq<Import>, space: Space, count: int) -> int
    decreases count,
{
    if count <= 0 {
        0
    } else {
        imports_in(imports, space, count - 1) + if space_of(&imports[count - 1]) == Some(space) {
            1int
        } else {
            0int
        }
    }
}

/// The imports of a space are imports, and the function imports are the
/// imports of the space of functions.
pub proof fn lemma_imports_in(imports: Seq<Import>, space: Space, count: int)
    requires
        0 <= count,
    ensures
        0 <= imports_in(imports, space, count) <= count,
        imports_in(imports, Space::Funcs, count) == function_imports_before(imports, count),
    decreases count,
{
    if count > 0 {
        lemma_imports_in(imports, space, count - 1);
        lemma_imports_in(imports, Space::Funcs, count - 1);
    }
}

/// The more imports are counted, the more there are of a space.
pub proof fn lemma_imports_in_grows(imports: Seq<Import>, space: Space, a: int, b: int)
    requires
        0 <= a <= b,
    ensures
        imports_in(imports, space, a) <= imports_in(imports, space, b),
    decreases b - a,
{
    if a < b {
        lemma_imports_in_grows(imports, space, a, b - 1);
    }
}

/// How many of the first `count` imports the output keeps and gives an
/// index of the given space: those that are neither return stubs nor of
/// the slab's namespace.
pub open spec fn kept_in(imports: Seq<Import>, space: Space, count: int) -> int
    decreases count,
{
    if count <= 0 {
        0
    } else {
        kept_in(imports, space, count - 1) + if space_of(&imports[count - 1]) == Some(space)
            && !is_stub(&imports[count - 1]) && !is_slab_import(&imports[count - 1]) {
            1int
        } else {
            0int
        }
    }
}

/// The imports that the output keeps are imports, and the more imports
/// are counted, the more are kept.
pub proof fn lemma_kept_in(imports: Seq<Import>, space: Space, a: int, b: int)
    requires
        0 <= a <= b,
    ensures
        0 <= kept_in(imports, space, a) <= kept_in(imports, space, b),
        kept_in(imports, space, b) <= imports_in(imports, space, b),
    decreases b,
{
    if b > 0 {
        if a < b {
            lemma_kept_in(imports, space, a, b - 1);
        } else {
            lemma_kept_in(imports, space, a - 1, b - 1);
        }
    }
}

/// The namespace of the return stubs.
pub open spec fn is_stub(import: &Import) -> bool {
    import.module@ == "__export_returns"@
}

/// The namespace of the slab.
pub open spec fn is_slab_import(import: &Import) -> bool {
    !is_stub(import) && import.module@ == "__table"@
}

/// The positions of those of the first `count` imports that `pick`
/// picks, in order.
pub open spec fn positions(imports: Seq<Import>, pick: spec_fn(&Import) -> bool, count: int) -> Seq<
    int,
>
    decreases count,
{
    if count <= 0 {
        Seq::empty()
    } else if pick(&imports[count - 1]) {
        positions(imports, pick, count - 1).push(count - 1)
    } else {
        positions(imports, pick, count - 1)
    }
}

/// Every position of [`positions`] lies below `count` and is picked.
pub proof fn lemma_positions(imports: Seq<Import>, pick: spec_fn(&Import) -> bool, count: int)
    requires
        0 <= count,
    ensures
        positions(imports, pick, count).len() <= count,
        forall|k: int|
            0 <= k < positions(imports, pick, count).len() ==> {
                let p = #[trigger] positions(imports, pick, count)[k];
                0 <= p < count && pick(&imports[p])
            },
    decreases count,
{
    if count > 0 {
        lemma_positions(imports, pick, count - 1);
    }
}

/// The positions of [`positions`] stand in rising order.
pub proof fn lemma_positions_rise(imports: Seq<Import>, pick: spec_fn(&Import) -> bool, count: int)
    requires
        0 <= count,
    ensures
        forall|j: int, k: int|
            0 <= j < k < positions(imports, pick, count).len() ==> #[trigger] positions(
                imports,
                pick,
                count,
            )[j] < #[trigger] positions(imports, pick, count)[k],
    decreases count,
{
    if count > 0 {
        lemma_positions_rise(imports, pick, count - 1);
        lemma_positions(imports, pick, count - 1);
    }
}

/// The more imports are looked at, the more positions are picked.
pub proof fn lemma_positions_grow(
    imports: Seq<Import>,
    pick: spec_fn(&Import) -> bool,
    a: int,
    b: int,
)
    requires
        0 <= a <= b,
    ensures
        positions(imports, pick, a).len() <= positions(imports, pick, b).len(),
    decreases b,
{
    if a < b {
        lemma_positions_grow(imports, pick, a, b - 1);
    }
}

/// Where an import is picked, the list of the positions that are picked is
/// not empty.
pub proof fn lemma_positions_found(
    imports: Seq<Import>,
    pick: spec_fn(&Import) -> bool,
    p: int,
    count: int,
)
    requires
        0 <= p < count,
        pick(&imports[p]),
    ensures
        positions(imports, pick, count).len() > 0,
    decreases count,
{
    if p < count - 1 {
        lemma_positions_found(imports, pick, p, count - 1);
    }
}

/// Where an import is picked, its position is one of the positions that
/// are picked.
pub proof fn lemma_positions_hold(
    imports: Seq<Import>,
    pick: spec_fn(&Import) -> bool,
    p: int,
    count: int,
) -> (k: int)
    requires
        0 <= p < count,
        pick(&imports[p]),
    ensures
        0 <= k < positions(imports, pick, count).len(),
        positions(imports, pick, count)[k] == p,
    decreases count,
{
    if p < count - 1 {
        lemma_positions_hold(imports, pick, p, count - 1)
    } else {
        positions(imports, pick, count - 1).len() as int
    }
}

/// The positions of the return stubs among the first `count` imports.
pub open spec fn stub_positions(imports: Seq<Import>, count: int) -> Seq<int> {
    positions(imports, |import: &Import| is_stub(import), count)
}

/// The positions of the imports of the slab's namespace among the first
/// `count` imports.
pub open spec fn slab_positions(imports: Seq<Import>, count: int) -> Seq<int> {
    positions(imports, |import: &Import| is_slab_import(import), count)
}

/// The positions of the imports that the output keeps among the first
/// `count` imports.
pub open spec fn kept_positions(imports: Seq<Import>, count: int) -> Seq<int> {
    positions(imports, |import: &Import| !is_stub(import) && !is_slab_import(import), count)
}

/// How many imports of each kind a module has: the index of the first
/// function, table and global that it defines itself.
#[derive(Clone, Copy, Debug)]
pub struct ImportCounts {
    pub funcs: u32,
    pub tables: u32,
    pub globals: u32,
}

/// An import that waits for the slab.
#[derive(Clone, Copy, Debug)]
pub struct Deferred {
    /// The position of the import among the imports.
    pub position: usize,
    /// The index that the import has in its space; the number of function
    /// imports before it where it has none.
    pub index: u32,
    pub is_function: bool,
}

/// What the first pass hands on.
pub struct ImportPass {
    pub counts: ImportCounts,
    pub deferred: Vec<Deferred>,
    /// The imports of the output.
    pub kept: Vec<ImportOut>,
}

/// `out` is what the encoder made of the type of an imported item, with
/// some renumbering.
pub open spec fn written_as(entity: Seq<u8>, out: Seq<u8>) -> bool {
    exists|maps: crate::renumber::IndexMaps| #[trigger]
        entity_encoded(entity, maps) == Ok::<Seq<u8>, Failure>(out)
}

impl<'a> Weaver<'a> {
    /// The stub at place `s` of the list of stubs was made of the import at
    /// position `p`: it has the name of the import and the parameters of
    /// its function type, it is known by its function index, and code may
    /// not refer to that function.
    pub open spec fn stub_at(&self, s: int, p: int) -> bool {
        let stub = self.returns_lookup@[s];
        let import = self.parsed.imports@[p];
        &&& 0 <= p < self.parsed.imports@.len()
        &&& is_stub(&import)
        &&& *stub.name == import.name
        &&& import.type_index matches Some(ty)
        &&& ty < self.ty_lookup.entries().len()
        &&& self.ty_lookup.entries()[ty as int].sub_type.func matches Some(func)
        &&& *stub.params == func.params
        &&& stub.marker == function_imports_before(self.parsed.imports@, p)
        &&& stub.marker < self.callable_functions@.len()
        &&& !self.callable_functions@[stub.marker as int]
    }

    /// The import at position `p` is a function whose type is a function
    /// type.
    pub open spec fn stub_typed(&self, p: int) -> bool {
        self.parsed.imports@[p].type_index matches Some(ty) && ty < self.ty_lookup.entries().len()
            && self.ty_lookup.entries()[ty as int].sub_type.func is Some
    }

    /// Why the import at position `p` cannot be a return stub: it is no
    /// function, or its type is unknown or no function type.
    pub open spec fn stub_error(&self, p: int) -> Failure {
        let import = self.parsed.imports@[p];
        match import.type_index {
            None => Failure::UserError(WeaveError::ReturnsMarkerIsNotFunction(import.name)),
            Some(ty) => if ty >= self.ty_lookup.entries().len() {
                Failure::UserError(WeaveError::TypeIndexOutOfBounds(ty))
            } else {
                Failure::UserError(WeaveError::FunctionTypeIsNotFunction(ty))
            },
        }
    }

    /// The import at position `p` is the first return stub that cannot be
    /// one, and the output keeps no import that stands before it.
    pub open spec fn stub_refused(&self, p: int) -> bool {
        &&& 0 <= p < self.parsed.imports@.len()
        &&& is_stub(&self.parsed.imports@[p])
        &&& !self.stub_typed(p)
        &&& self.stubs_typed(p)
        &&& kept_positions(self.parsed.imports@, p).len() == 0
    }

    /// Every return stub among the first `count` imports is a function
    /// whose type is a function type.
    pub open spec fn stubs_typed(&self, count: int) -> bool {
        forall|p: int|
            0 <= p < count && is_stub(&self.parsed.imports@[p]) ==> #[trigger] self.stub_typed(p)
    }

    /// The list of stubs holds the return stubs among the first `count`
    /// imports, in order.
    pub open spec fn stubs_recorded(&self, count: int) -> bool {
        let found = stub_positions(self.parsed.imports@, count);
        &&& self.returns_lookup@.len() == found.len()
        &&& forall|s: int| 0 <= s < found.len() ==> #[trigger] self.stub_at(s, found[s])
    }

    /// The import at position `p` waits at place `d` of a list.
    pub open spec fn deferred_at(&self, deferred: Seq<Deferred>, d: int, p: int) -> bool {
        let import = self.parsed.imports@[p];
        &&& deferred[d].position == p
        &&& deferred[d].is_function == (import.type_index is Some)
        &&& deferred[d].index == function_imports_before(self.parsed.imports@, p)
    }

    /// The import of the output at place `k` of a list is the import at
    /// position `p`, with its type as the encoder wrote it.
    pub open spec fn kept_at(&self, kept: Seq<ImportOut>, k: int, p: int) -> bool {
        let import = self.parsed.imports@[p];
        &&& kept[k].module@ == import.module@
        &&& kept[k].name@ == import.name@
        &&& written_as(import.entity@, kept[k].entity@)
    }

    /// What holds after the first `count` imports were gone through.
    pub open spec fn imports_done(&self, pass: &ImportPass, count: int) -> bool {
        let imports = self.parsed.imports@;
        let waiting = slab_positions(imports, count);
        let kept = kept_positions(imports, count);
        &&& self.stubs_recorded(count)
        &&& pass.counts.funcs == imports_in(imports, Space::Funcs, count)
        &&& pass.counts.tables == imports_in(imports, Space::Tables, count)
        &&& pass.counts.globals == imports_in(imports, Space::Globals, count)
        &&& pass.deferred@.len() == waiting.len()
        &&& forall|d: int| 0 <= d < waiting.len() ==> #[trigger] self.deferred_at(pass.deferred@, d, waiting[d])
        &&& pass.kept@.len() == kept.len()
        &&& forall|k: int| 0 <= k < kept.len() ==> #[trigger] self.kept_at(pass.kept@, k, kept[k])
        &&& keys_below(&self.indices.funcs, pass.counts.funcs as int)
        &&& keys_below(&self.indices.tables, pass.counts.tables as int)
        &&& keys_below(&self.indices.globals, pass.counts.globals as int)
        &&& self.indices.funcs.next() <= pass.counts.funcs
        &&& self.indices.tables.next() <= pass.counts.tables
        &&& self.indices.globals.next() <= pass.counts.globals
        &&& self.indices.funcs.next() == kept_in(imports, Space::Funcs, count)
        &&& self.indices.tables.next() == kept_in(imports, Space::Tables, count)
        &&& self.indices.globals.next() == kept_in(imports, Space::Globals, count)
        &&& forall|f: int|
            pass.counts.funcs <= f < self.callable_functions@.len()
                ==> #[trigger] self.callable_functions@[f]
        &&& (pass.deferred@.len() == 0 && self.returns_lookup@.len() == 0 ==> {
            &&& identity_to(&self.indices.funcs, pass.counts.funcs as int)
            &&& identity_to(&self.indices.tables, pass.counts.tables as int)
            &&& identity_to(&self.indices.globals, pass.counts.globals as int)
            &&& forall|f: int|
                0 <= f < self.callable_functions@.len() ==> #[trigger] self.callable_functions@[f]
        })
    }

    /// Whether the type of an imported item can be written in one attempt
    /// or two: the encoder takes it with the indices that are bound, or it
    /// misses one type, which can be written at once, and takes the item
    /// after that.
    pub open spec fn settles(&self, entity: Seq<u8>) -> bool {
        match entity_encoded(entity, self.maps()) {
            Ok(_) => true,
            Err(e) => e matches Failure::UserError(WeaveError::TypeIndexOutOfBounds(ty))
                && self.type_ready(ty) && forall|w: Weaver<'a>| #[trigger]
                self.written(&w, ty) ==> entity_encoded(entity, w.maps()) is Ok,
        }
    }

    /// The type of an imported item with its indices renumbered; every
    /// type that it names and that is not written yet is written first.
    /// Where no type is missing, the encoder decides at once.
    pub fn import_entity(&mut self, entity: &[u8]) -> (r: Result<Vec<u8>, Failure>)
        requires
            old(self).wf(),
        ensures
            final(self).wf(),
            old(self).types_grown(final(self)),
            match entity_encoded(entity@, old(self).maps()) {
                Ok(bytes) => (r matches Ok(out) && out@ == bytes) && *final(self) == *old(self),
                Err(e) => !(e matches Failure::UserError(WeaveError::TypeIndexOutOfBounds(_)))
                    ==> (r matches Err(found) && found == e) && *final(self) == *old(self),
            },
            old(self).settles(entity@) ==> r is Ok && old(self).grown_within(
                final(self),
                old(self).ty_lookup.entries().len() as int,
            ),
            r matches Ok(out) ==> entity_encoded(entity@, final(self).maps()) == Ok::<
                Seq<u8>,
                Failure,
            >(out@),
    {
        let mut fuel: usize = self.ty_lookup.len();
        let ghost mut first = true;
        let ghost ready = self.settles(entity@);
        loop
            invariant
                self.wf(),
                old(self).types_grown(self),
                first ==> *self == *old(self),
                first ==> fuel == old(self).ty_lookup.entries().len(),
                !first ==> entity_encoded(entity@, old(self).maps()) matches Err(
                    Failure::UserError(WeaveError::TypeIndexOutOfBounds(_)),
                ),
                ready == old(self).settles(entity@),
                ready && !first ==> old(self).written(
                    self,
                    entity_encoded(entity@, old(self).maps())->Err_0->UserError_0->TypeIndexOutOfBounds_0,
                ),
            decreases fuel,
        {
            let attempt = {
                let renumber = Renumbering {
                    indices: &self.indices,
                    callable: &self.callable_functions,
                };
                encode_entity(entity, &renumber)
            };
            match attempt {
                Ok(bytes) => {
                    return Ok(bytes);
                },
                Err(e) => {
                    let ghost before = *self;
                    self.write_missing_type(e, &mut fuel)?;
                    proof {
                        Self::lemma_types_grown(old(self), &before, self);
                        first = false;
                    }
                },
            }
        }
    }

    /// Records the return stub that the import at `position` is.
    pub fn record_stub(&mut self, position: usize, marker: u32) -> (r: Result<(), Failure>)
        requires
            old(self).wf(),
            position < old(self).parsed.imports@.len(),
            is_stub(&old(self).parsed.imports@[position as int]),
            marker == function_imports_before(old(self).parsed.imports@, position as int),
            old(self).stubs_recorded(position as int),
        ensures
            final(self).wf(),
            final(self).indices == old(self).indices,
            final(self).interner == old(self).interner,
            final(self).table_api == old(self).table_api,
            final(self).parsed == old(self).parsed,
            final(self).ty_lookup == old(self).ty_lookup,
            final(self).fn_lookup == old(self).fn_lookup,
            r is Ok <==> old(self).stub_typed(position as int),
            match r {
                Ok(()) => {
                    &&& final(self).stubs_recorded(position + 1)
                    &&& old(self).parsed.imports@[position as int].type_index is Some
                    &&& marker < old(self).callable_functions@.len()
                    &&& final(self).callable_functions@ == old(self).callable_functions@.update(
                        marker as int,
                        false,
                    )
                },
                Err(e) => {
                    &&& *final(self) == *old(self)
                    &&& e == old(self).stub_error(position as int)
                },
            },
    {
        let parsed = self.parsed;
        let import = &parsed.imports[position];
        let ty = match import.type_index {
            Some(ty) => ty,
            None => {
                return Err(
                    Failure::UserError(
                        WeaveError::ReturnsMarkerIsNotFunction(import.name.clone()),
                    ),
                );
            },
        };
        let (params, _) = self.signature_of(ty)?;
        proof {
            lemma_imports_in(parsed.imports@, Space::Funcs, position as int);
            lemma_imports_in(parsed.imports@, Space::Funcs, position + 1);
            lemma_imports_in(parsed.imports@, Space::Funcs, parsed.imports@.len() as int);
            lemma_imports_in_grows(
                parsed.imports@,
                Space::Funcs,
                position + 1,
                parsed.imports@.len() as int,
            );
        }
        let ghost before = *self;
        self.returns_lookup.push(ReturnStub { name: &import.name, params, marker });
        self.callable_functions.set(marker as usize, false);
        proof {
            let found = stub_positions(parsed.imports@, position + 1);
            assert(found == stub_positions(parsed.imports@, position as int).push(position as int));
            lemma_positions(
                parsed.imports@,
                |import: &Import| is_stub(import),
                position as int,
            );
            assert forall|s: int| 0 <= s < found.len() implies #[trigger] self.stub_at(
                s,
                found[s],
            ) by {
                if s < found.len() - 1 {
                    assert(before.stub_at(s, found[s]));
                    let earlier = found[s];
                    lemma_imports_in(parsed.imports@, Space::Funcs, earlier);
                    lemma_imports_in(parsed.imports@, Space::Funcs, earlier + 1);
                    lemma_imports_in_grows(
                        parsed.imports@,
                        Space::Funcs,
                        earlier + 1,
                        position as int,
                    );
                }
            }
        }
        Ok(())
    }

    /// Gives an import that the output keeps the next free index of its
    /// space, if it takes one.
    pub fn bind_import(&mut self, space: Option<Space>, counts: ImportCounts)
        requires
            old(self).wf(),
            keys_below(&old(self).indices.funcs, counts.funcs as int),
            keys_below(&old(self).indices.tables, counts.tables as int),
            keys_below(&old(self).indices.globals, counts.globals as int),
            old(self).indices.funcs.next() <= counts.funcs < u32::MAX,
            old(self).indices.tables.next() <= counts.tables < u32::MAX,
            old(self).indices.globals.next() <= counts.globals < u32::MAX,
        ensures
            final(self).wf(),
            old(self).settled(final(self)),
            final(self).indices.types == old(self).indices.types,
            final(self).interner == old(self).interner,
            space != Some(Space::Funcs) ==> final(self).indices.funcs == old(self).indices.funcs,
            space != Some(Space::Tables) ==> final(self).indices.tables == old(self).indices.tables,
            space != Some(Space::Globals) ==> final(self).indices.globals == old(
                self,
            ).indices.globals,
            space == Some(Space::Funcs) ==> {
                &&& final(self).indices.funcs.next() == old(self).indices.funcs.next() + 1
                &&& final(self).indices.funcs.mapping() == old(self).indices.funcs.mapping().insert(
                    counts.funcs,
                    old(self).indices.funcs.next() as u32,
                )
            },
            space == Some(Space::Tables) ==> {
                &&& final(self).indices.tables.next() == old(self).indices.tables.next() + 1
                &&& final(self).indices.tables.mapping() == old(
                    self,
                ).indices.tables.mapping().insert(
                    counts.tables,
                    old(self).indices.tables.next() as u32,
                )
            },
            space == Some(Space::Globals) ==> {
                &&& final(self).indices.globals.next() == old(self).indices.globals.next() + 1
                &&& final(self).indices.globals.mapping() == old(
                    self,
                ).indices.globals.mapping().insert(
                    counts.globals,
                    old(self).indices.globals.next() as u32,
                )
            },
    {
        let ghost before = *self;
        match space {
            Some(Space::Funcs) => {
                let target = self.indices.funcs.map_reserve(counts.funcs);
                proof {
                    crate::indices::IndexMapper::lemma_bind_keeps(
                        before.indices.funcs,
                        self.indices.funcs,
                        counts.funcs,
                        target,
                    );
                }
            },
            Some(Space::Tables) => {
                let target = self.indices.tables.map_reserve(counts.tables);
                proof {
                    crate::indices::IndexMapper::lemma_bind_keeps(
                        before.indices.tables,
                        self.indices.tables,
                        counts.tables,
                        target,
                    );
                }
            },
            Some(Space::Globals) => {
                let target = self.indices.globals.map_reserve(counts.globals);
                proof {
                    crate::indices::IndexMapper::lemma_bind_keeps(
                        before.indices.globals,
                        self.indices.globals,
                        counts.globals,
                        target,
                    );
                }
            },
            None => {},
        }
        proof {
            Self::lemma_woven_on(&before, &before, &before);
        }
    }

    /// Every import among the first `count` that the output keeps and
    /// that takes an index of a space has the index that tells how many
    /// imports of that space the output keeps before it, and code may
    /// refer to those that are functions.
    pub open spec fn kept_bound(&self, count: int) -> bool {
        let imports = self.parsed.imports@;
        forall|p: int|
            0 <= p < count && !is_stub(&imports[p]) && !is_slab_import(&imports[p]) ==> match space_of(
                #[trigger] &imports[p],
            ) {
                Some(s) => {
                    &&& self.mapper(s).mapping().contains_key(imports_in(imports, s, p) as u32)
                    &&& self.mapper(s).mapping()[imports_in(imports, s, p) as u32] == kept_in(
                        imports,
                        s,
                        p,
                    )
                    &&& s == Space::Funcs ==> imports_in(imports, s, p)
                        < self.callable_functions@.len() && self.callable_functions@[imports_in(
                        imports,
                        s,
                        p,
                    )]
                },
                None => true,
            }
    }

    /// No function among the first `count` imports that is of the slab's
    /// namespace has an index in the output.
    pub open spec fn slab_unbound(&self, count: int) -> bool {
        let imports = self.parsed.imports@;
        forall|p: int|
            0 <= p < count && #[trigger] is_slab_import(&imports[p]) && imports[p].type_index is Some
                ==> !self.indices.funcs.mapping().contains_key(
                imports_in(imports, Space::Funcs, p) as u32,
            )
    }

    /// Going through import `i` leaves the functions of the slab's
    /// namespace without an index: the import takes the index that tells
    /// how many function imports stand before it, or none.
    pub proof fn lemma_slab_unbound(before: &Weaver<'a>, after: &Weaver<'a>, i: int)
        requires
            0 <= i < before.parsed.imports@.len() <= u32::MAX,
            after.parsed == before.parsed,
            before.slab_unbound(i),
            keys_below(
                &before.indices.funcs,
                imports_in(before.parsed.imports@, Space::Funcs, i),
            ),
            forall|k: u32| #[trigger]
                after.indices.funcs.mapping().contains_key(k)
                    ==> before.indices.funcs.mapping().contains_key(k) || (k == imports_in(
                    before.parsed.imports@,
                    Space::Funcs,
                    i,
                ) && !is_slab_import(&before.parsed.imports@[i])),
        ensures
            after.slab_unbound(i + 1),
    {
        let imports = before.parsed.imports@;
        assert forall|p: int|
            0 <= p < i + 1 && #[trigger] is_slab_import(&imports[p])
                && imports[p].type_index is Some implies !after.indices.funcs.mapping().contains_key(
            imports_in(imports, Space::Funcs, p) as u32,
        ) by {
            lemma_imports_in(imports, Space::Funcs, p);
            lemma_imports_in(imports, Space::Funcs, i);
            if p < i {
                lemma_imports_in_grows(imports, Space::Funcs, p + 1, i);
            }
        }
    }

    /// `w` is this weaver when import `i` is gone through: more types may
    /// be written, for each import before it at most as many as the module
    /// has.
    pub open spec fn at_import(&self, w: &Weaver<'a>, i: int) -> bool {
        &&& self.woven_on(w)
        &&& self.grown_within(w, i * self.ty_lookup.entries().len())
    }

    /// Whether the imports of the module that the output keeps can be
    /// written: when its turn comes, each settles in one attempt or two,
    /// see [`Weaver::settles`].
    pub open spec fn imports_ready(&self) -> bool {
        let imports = self.parsed.imports@;
        forall|i: int, w: Weaver<'a>|
            0 <= i < imports.len() && !is_stub(&imports[i]) && !is_slab_import(&imports[i])
                && #[trigger] self.at_import(&w, i) ==> w.settles(imports[i].entity@)
    }

    /// Goes through the imports of the module. A return stub is recorded
    /// and left out; an import of the slab's namespace is put aside; every
    /// other import is written anew, with the types that it names, and
    /// takes the next free index of its space.
    #[verifier::rlimit(60)]
    pub fn weave_imports(&mut self) -> (r: Result<ImportPass, Failure>)
        requires
            old(self).wf(),
            old(self).fresh(),
        ensures
            final(self).wf(),
            old(self).woven_on(final(self)),
            final(self).table_api is None,
            r matches Ok(pass) ==> final(self).imports_done(
                &pass,
                final(self).parsed.imports@.len() as int,
            ),
            !old(self).stubs_typed(old(self).parsed.imports@.len() as int) ==> r is Err,
            old(self).stubs_typed(old(self).parsed.imports@.len() as int) && kept_positions(
                old(self).parsed.imports@,
                old(self).parsed.imports@.len() as int,
            ).len() == 0 ==> r is Ok,
            forall|p: int| #[trigger]
                old(self).stub_refused(p) ==> (r matches Err(e) && e == old(self).stub_error(p)),
            old(self).parsed.imports@.len() == 0 ==> *final(self) == *old(self),
            kept_positions(old(self).parsed.imports@, old(self).parsed.imports@.len() as int).len()
                == 0 ==> final(self).indices == old(self).indices && final(self).interner == old(
                self,
            ).interner,
            old(self).stubs_typed(old(self).parsed.imports@.len() as int) && old(
                self,
            ).imports_ready() ==> r is Ok && old(self).grown_within(
                final(self),
                (old(self).parsed.imports@.len() * old(self).ty_lookup.entries().len()) as int,
            ),
            r is Ok ==> final(self).kept_bound(old(self).parsed.imports@.len() as int),
            r is Ok ==> final(self).slab_unbound(old(self).parsed.imports@.len() as int),
    {
        let ghost ready = self.imports_ready();
        let parsed = self.parsed;
        let mut pass = ImportPass {
            counts: ImportCounts { funcs: 0, tables: 0, globals: 0 },
            deferred: Vec::new(),
            kept: Vec::new(),
        };
        let mut i: usize = 0;
        proof {
            Self::lemma_woven_on(old(self), old(self), old(self));
        }
        while i < parsed.imports.len()
            invariant
                i <= parsed.imports@.len(),
                parsed == self.parsed,
                self.wf(),
                old(self).woven_on(self),
                self.table_api is None,
                self.imports_done(&pass, i as int),
                old(self).stubs_typed(i as int),
                self.ty_lookup == old(self).ty_lookup,
                i == 0 ==> *self == *old(self),
                kept_positions(parsed.imports@, i as int).len() == 0 ==> self.indices == old(
                    self,
                ).indices && self.interner == old(self).interner,
                ready == old(self).imports_ready(),
                ready ==> old(self).grown_within(self, i * old(self).ty_lookup.entries().len()),
                self.kept_bound(i as int),
                self.slab_unbound(i as int),
            decreases parsed.imports@.len() - i,
        {
            let import = &parsed.imports[i];
            let space = import_space(import);
            let ghost before = *self;
            let ghost imports = parsed.imports@;
            let ghost deferred_before = pass.deferred@;
            let ghost kept_before = pass.kept@;
            proof {
                lemma_imports_in(imports, Space::Funcs, i as int);
                lemma_imports_in(imports, Space::Tables, i as int);
                lemma_imports_in(imports, Space::Globals, i as int);
                let t = old(self).ty_lookup.entries().len() as int;
                assert((i + 1) * t == i * t + t) by (nonlinear_arith);
            }
            if str_eq(import.module.as_str(), "__export_returns") {
                proof {
                    if !self.stub_typed(i as int) {
                        if old(self).stubs_typed(imports.len() as int) {
                            assert(old(self).stub_typed(i as int));
                        }
                    }
                }
                match self.record_stub(i, pass.counts.funcs) {
                    Ok(()) => {},
                    Err(e) => {
                        proof {
                            lemma_positions_grow(
                                imports,
                                |import: &Import| !is_stub(import) && !is_slab_import(import),
                                i as int,
                                imports.len() as int,
                            );
                            assert(e == old(self).stub_error(i as int));
                            assert forall|p: int| #[trigger] old(self).stub_refused(p) implies p
                                == i by {
                                if p < i {
                                    assert(old(self).stub_typed(p));
                                }
                                if p > i {
                                    assert(old(self).stub_typed(i as int));
                                }
                            }
                        }
                        return Err(e);
                    },
                }
                proof {
                    assert(old(self).stub_typed(i as int));
                }
                pass.counts.funcs = pass.counts.funcs + 1;
                proof {
                    lemma_positions(imports, |import: &Import| is_stub(import), i + 1);
                }
            } else {
                if str_eq(import.module.as_str(), "__table") {
                    pass.deferred.push(
                        Deferred {
                            position: i,
                            index: pass.counts.funcs,
                            is_function: import.type_index.is_some(),
                        },
                    );
                } else {
                    proof {
                        lemma_positions_found(
                            imports,
                            |import: &Import| !is_stub(import) && !is_slab_import(import),
                            i as int,
                            imports.len() as int,
                        );
                    }
                    proof {
                        assert forall|p: int| #[trigger] old(self).stub_refused(p) implies false by {
                            if p < i {
                                assert(old(self).stub_typed(p));
                            }
                            if p > i {
                                lemma_positions_found(
                                    imports,
                                    |import: &Import| !is_stub(import) && !is_slab_import(import),
                                    i as int,
                                    p,
                                );
                            }
                        }
                    }
                    proof {
                        if ready {
                            assert(old(self).at_import(self, i as int));
                            assert(self.settles(import.entity@));
                        }
                    }
                    let entity = self.import_entity(import.entity.as_slice())?;
                    let ghost grown = *self;
                    pass.kept.push(
                        ImportOut { module: import.module.clone(), name: import.name.clone(), entity },
                    );
                    self.bind_import(space, pass.counts);
                    proof {
                        Self::lemma_woven_on(&before, &grown, self);
                        Self::lemma_woven_on(old(self), &before, self);
                        if deferred_before.len() == 0 && before.returns_lookup@.len() == 0 {
                            assert(grown.indices.funcs == before.indices.funcs);
                            assert(grown.indices.tables == before.indices.tables);
                            assert(grown.indices.globals == before.indices.globals);
                            assert(identity_to(&grown.indices.funcs, pass.counts.funcs as int));
                            assert(identity_to(&grown.indices.tables, pass.counts.tables as int));
                            assert(identity_to(&grown.indices.globals, pass.counts.globals as int));
                            assert(identity_to(
                                &self.indices.funcs,
                                pass.counts.funcs + if space == Some(Space::Funcs) {
                                    1int
                                } else {
                                    0int
                                },
                            ));
                            assert(identity_to(
                                &self.indices.tables,
                                pass.counts.tables + if space == Some(Space::Tables) {
                                    1int
                                } else {
                                    0int
                                },
                            ));
                            assert(identity_to(
                                &self.indices.globals,
                                pass.counts.globals + if space == Some(Space::Globals) {
                                    1int
                                } else {
                                    0int
                                },
                            ));
                        }
                    }
                }
                match space {
                    Some(Space::Funcs) => {
                        pass.counts.funcs = pass.counts.funcs + 1;
                    },
                    Some(Space::Tables) => {
                        pass.counts.tables = pass.counts.tables + 1;
                    },
                    Some(Space::Globals) => {
                        pass.counts.globals = pass.counts.globals + 1;
                    },
                    None => {},
                }
            }
            proof {
                Self::lemma_slab_unbound(&before, self, i as int);
            }
            proof {
                let found = stub_positions(imports, i + 1);
                let waiting = slab_positions(imports, i + 1);
                let kept = kept_positions(imports, i + 1);
                assert forall|p: int|
                    0 <= p < i + 1 && !is_stub(&imports[p]) && !is_slab_import(
                        &imports[p],
                    ) implies match space_of(#[trigger] &imports[p]) {
                    Some(s) => {
                        &&& self.mapper(s).mapping().contains_key(imports_in(imports, s, p) as u32)
                        &&& self.mapper(s).mapping()[imports_in(imports, s, p) as u32] == kept_in(
                            imports,
                            s,
                            p,
                        )
                        &&& s == Space::Funcs ==> imports_in(imports, s, p)
                            < self.callable_functions@.len() && self.callable_functions@[imports_in(
                            imports,
                            s,
                            p,
                        )]
                    },
                    None => true,
                } by {
                    match space_of(&imports[p]) {
                        Some(s) => {
                            lemma_imports_in(imports, s, p);
                            lemma_imports_in(imports, Space::Funcs, imports.len() as int);
                            lemma_imports_in_grows(imports, s, p + 1, i as int + 1);
                            lemma_imports_in_grows(imports, s, p + 1, imports.len() as int);
                            if p < i {
                                lemma_imports_in_grows(imports, s, p + 1, i as int);
                                assert(before.mapper(s).mapping().contains_key(
                                    imports_in(imports, s, p) as u32,
                                ));
                            }
                        },
                        None => {},
                    }
                }
                assert(pass.deferred@.len() == 0 && self.returns_lookup@.len() == 0 ==> {
                    &&& identity_to(&self.indices.funcs, pass.counts.funcs as int)
                    &&& identity_to(&self.indices.tables, pass.counts.tables as int)
                    &&& identity_to(&self.indices.globals, pass.counts.globals as int)
                    &&& forall|f: int|
                        0 <= f < self.callable_functions@.len() ==> #[trigger] self.callable_functions@[f]
                });
                assert forall|s: int| 0 <= s < found.len() implies #[trigger] self.stub_at(
                    s,
                    found[s],
                ) by {
                    if !is_stub(&imports[i as int]) {
                        assert(before.stub_at(s, found[s]));
                    }
                }
                assert forall|d: int| 0 <= d < waiting.len() implies #[trigger] self.deferred_at(
                    pass.deferred@,
                    d,
                    waiting[d],
                ) by {
                    if d < deferred_before.len() {
                        assert(before.deferred_at(deferred_before, d, waiting[d]));
                    }
                }
                assert forall|k: int| 0 <= k < kept.len() implies #[trigger] self.kept_at(
                    pass.kept@,
                    k,
                    kept[k],
                ) by {
                    if k < kept_before.len() {
                        assert(before.kept_at(kept_before, k, kept[k]));
                    }
                }
            }
            i = i + 1;
        }
        proof {
            assert forall|p: int| #[trigger] old(self).stub_refused(p) implies false by {
                assert(old(self).stub_typed(p));
            }
        }
        Ok(pass)
    }
}

} // verus!
