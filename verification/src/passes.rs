//! The passes that follow the imports: the functions that the module
//! defines, the sections whose entries are handed to the encoder one by
//! one, the function bodies and the exports.

use crate::code::maps_extended;
use crate::encoder::{item_written, Entry, SectionKind};
use crate::renumber::IndexMaps;
use crate::sections::item_entries;
use crate::error::{Failure, WeaveError};
use crate::import_pass::Space;
use crate::indices::IndexMapper;
use crate::parse::{spans_within, Export, Span};
use crate::progress::{bind_fresh, bound_run, lemma_run_longer};
use crate::sections::{section_is, FunctionOut, ItemSection};
use crate::slab::{add_body, bodies, declare, declared, entries, section_or_new};
use crate::weaver::Weaver;
use vstd::prelude::*;

verus! {

/// The error for an index of a space that cannot be had.
pub fn out_of_bounds(space: Space, index: u32) -> (r: Failure)
    ensures
        r == Failure::UserError(
            match space {
                Space::Funcs => WeaveError::FunctionIndexOutOfBounds(index),
                Space::Tables => WeaveError::TableIndexOutOfBounds(index),
                Space::Globals => WeaveError::GlobalIndexOutOfBounds(index),
            },
        ),
{
    Failure::UserError(
        match space {
            Space::Funcs => WeaveError::FunctionIndexOutOfBounds(index),
            Space::Tables => WeaveError::TableIndexOutOfBounds(index),
            Space::Globals => WeaveError::GlobalIndexOutOfBounds(index),
        },
    )
}

/// Whether the entries of a section of this kind are handed to the
/// encoder one by one.
pub open spec fn takes_items(kind: SectionKind) -> bool {
    kind == SectionKind::Tables || kind == SectionKind::Memories || kind == SectionKind::Tags
        || kind == SectionKind::Globals || kind == SectionKind::Elements || kind
        == SectionKind::Data
}

/// What closes a woven module: its exports, its start function and the
/// count of its data segments.
pub struct Rest {
    pub exports: Option<Vec<Export>>,
    pub start: Option<u32>,
    pub data_count: Option<u32>,
}

/// `bytes` are what the encoder made of the entry of a section of the
/// given kind that stands at `span`, with the indices of `later` as far as
/// they were bound when it was written.
pub open spec fn item_taken(
    kind: SectionKind,
    data: Seq<u8>,
    span: Span,
    bytes: Seq<u8>,
    later: IndexMaps,
) -> bool {
    exists|m: IndexMaps| #[trigger]
        maps_extended(m, later) && item_written(kind, data, span.start as int, span.end as int, m)
            == Ok::<Seq<u8>, Failure>(bytes)
}

impl<'a> Weaver<'a> {
    /// The mapper of an index space.
    pub open spec fn mapper(&self, space: Space) -> IndexMapper {
        match space {
            Space::Funcs => self.indices.funcs,
            Space::Tables => self.indices.tables,
            Space::Globals => self.indices.globals,
        }
    }

    /// Binds `source` to the next free index of a space. Nothing is bound
    /// where no index is free or `source` is bound already.
    pub fn bind_in(&mut self, space: Space, source: u32) -> (r: Option<u32>)
        requires
            old(self).wf(),
        ensures
            final(self).wf(),
            old(self).settled(final(self)),
            final(self).indices.types == old(self).indices.types,
            final(self).interner == old(self).interner,
            forall|other: Space|
                other != space ==> #[trigger] final(self).mapper(other) == old(self).mapper(other),
            r is Some <==> old(self).mapper(space).next() < u32::MAX && !old(self).mapper(
                space,
            ).mapping().contains_key(source),
            match r {
                Some(target) => bound_run(
                    &old(self).mapper(space),
                    &final(self).mapper(space),
                    source as int,
                    1,
                ) && target == old(self).mapper(space).next(),
                None => final(self).mapper(space) == old(self).mapper(space),
            },
    {
        let ghost before = *self;
        let r = match space {
            Space::Funcs => bind_fresh(&mut self.indices.funcs, source),
            Space::Tables => bind_fresh(&mut self.indices.tables, source),
            Space::Globals => bind_fresh(&mut self.indices.globals, source),
        };
        proof {
            Self::lemma_woven_on(&before, &before, &before);
            assert(final(self).mapper(Space::Funcs) == self.indices.funcs);
        }
        r
    }

    /// What [`Weaver::weave_functions`] has done, where `before` is the
    /// weaver and `listed` the function section before the call: every
    /// function of the module is declared behind what was declared before,
    /// with the type that [`Weaver::declares`] describes, and takes the
    /// next free function index.
    pub open spec fn functions_done(
        &self,
        before: &Weaver<'a>,
        listed: Seq<u32>,
        list: Seq<u32>,
        first: u32,
    ) -> bool {
        let count = self.parsed.functions@.len();
        &&& self.parsed.code@.len() == count
        &&& list.len() == listed.len() + count
        &&& list.subrange(0, listed.len() as int) == listed
        &&& forall|i: int|
            0 <= i < count ==> #[trigger] self.declares(i as u32, list[listed.len() + i], self)
        &&& bound_run(&before.indices.funcs, &self.indices.funcs, first as int, count as int)
    }

    /// Declares the functions that the module defines, each with the type
    /// that the host sees, and gives each the next free function index.
    /// `first` is the index that the first of them has in the module.
    pub fn weave_functions(&mut self, functions: &mut Option<Vec<u32>>, first: u32) -> (r: Result<
        (),
        Failure,
    >)
        requires
            old(self).wf(),
        ensures
            final(self).wf(),
            old(self).settled(final(self)),
            final(self).indices.tables == old(self).indices.tables,
            final(self).indices.globals == old(self).indices.globals,
            r is Ok ==> {
                &&& final(self).functions_done(
                    old(self),
                    declared(*old(functions)),
                    declared(*final(functions)),
                    first,
                )
                &&& (*final(functions) is Some) == (*old(functions) is Some || old(
                    self,
                ).parsed.functions@.len() > 0)
            },
            old(self).parsed.functions@.len() == 0 ==> r is Ok && *final(self) == *old(self),
            old(self).parsed.functions@.len() != old(self).parsed.code@.len() ==> r is Err,
            old(self).functions_ready(first) ==> r is Ok && old(self).grown_within(
                final(self),
                (old(self).parsed.functions@.len() * (old(self).ty_lookup.entries().len() + 1))
                    as int,
            ),
    {
        let parsed = self.parsed;
        let ghost ready = self.functions_ready(first);
        let ghost listed = declared(*functions);
        let mut i: usize = 0;
        proof {
            Self::lemma_woven_on(old(self), old(self), old(self));
            assert(declared(*functions).subrange(0, listed.len() as int) == listed);
        }
        while i < parsed.functions.len()
            invariant
                i <= parsed.functions@.len(),
                i <= parsed.code@.len(),
                parsed == self.parsed,
                self.wf(),
                old(self).settled(self),
                self.indices.tables == old(self).indices.tables,
                self.indices.globals == old(self).indices.globals,
                declared(*functions).len() == listed.len() + i,
                declared(*functions).subrange(0, listed.len() as int) == listed,
                forall|k: int|
                    0 <= k < i ==> #[trigger] self.declares(
                        k as u32,
                        declared(*functions)[listed.len() + k],
                        self,
                    ),
                bound_run(&old(self).indices.funcs, &self.indices.funcs, first as int, i as int),
                (*functions is Some) == (*old(functions) is Some || i > 0),
                i == 0 ==> *self == *old(self),
                ready == old(self).functions_ready(first),
                ready ==> old(self).grown_within(
                    self,
                    i * (old(self).ty_lookup.entries().len() + 1),
                ),
            decreases parsed.functions@.len() - i,
        {
            let ghost before = *self;
            let ghost list = declared(*functions);
            proof {
                if ready {
                    let t = old(self).ty_lookup.entries().len() as int;
                    assert((i + 1) * (t + 1) == i * (t + 1) + t + 1) by (nonlinear_arith);
                    assert(old(self).at_function(&before, first, i as int));
                    assert(before.function_ready(i as u32));
                }
            }
            let index = self.declare_function(i as u32)?;
            let ghost grown = *self;
            declare(functions, index);
            if first > u32::MAX - (i as u32) {
                return Err(out_of_bounds(Space::Funcs, u32::MAX));
            }
            let source: u32 = first + i as u32;
            let bound = self.bind_in(Space::Funcs, source);
            proof {
                Self::lemma_woven_on(&before, &grown, self);
                Self::lemma_woven_on(old(self), &before, self);
                Self::lemma_woven_on(&before, &before, &before);
                assert(self.mapper(Space::Tables) == grown.mapper(Space::Tables));
                assert(self.mapper(Space::Globals) == grown.mapper(Space::Globals));
            }
            if bound.is_none() {
                return Err(out_of_bounds(Space::Funcs, source));
            }
            proof {
                assert(declared(*functions).subrange(0, listed.len() as int) =~= listed);
                assert forall|k: int| 0 <= k < i + 1 implies #[trigger] self.declares(
                    k as u32,
                    declared(*functions)[listed.len() + k],
                    self,
                ) by {
                    if k < i {
                        assert(before.declares(k as u32, list[listed.len() + k], &before));
                        Self::lemma_declares_stays(
                            &before,
                            &before,
                            self,
                            k as u32,
                            list[listed.len() + k],
                        );
                    } else {
                        Self::lemma_declares_stays(&before, &grown, self, i as u32, index);
                    }
                }
                assert(grown.indices.funcs == before.indices.funcs);
                assert(self.mapper(Space::Funcs) == self.indices.funcs);
                assert(grown.mapper(Space::Funcs) == grown.indices.funcs);
                lemma_run_longer(
                    &old(self).indices.funcs,
                    &grown.indices.funcs,
                    &self.indices.funcs,
                    first as int,
                    i as int,
                );
            }
            i = i + 1;
        }
        Ok(())
    }

    /// `w` is this weaver when function `i` of the module is declared:
    /// more types may be written, for each function before it at most as
    /// many as the module has, and the functions before it have their
    /// indices.
    pub open spec fn at_function(&self, w: &Weaver<'a>, first: u32, i: int) -> bool {
        &&& self.settled(w)
        &&& w.indices.tables == self.indices.tables
        &&& w.indices.globals == self.indices.globals
        &&& bound_run(&self.indices.funcs, &w.indices.funcs, first as int, i)
        &&& self.grown_within(w, i * (self.ty_lookup.entries().len() + 1))
    }

    /// Whether the functions of the module can be declared at once: each
    /// has a body and can be declared at once when its turn comes, see
    /// [`Weaver::function_ready`]; type indices are free for as many
    /// types as the module has and one more, once for every function; and
    /// the space of functions has as many indices free as there are
    /// functions and binds none of theirs yet.
    pub open spec fn functions_ready(&self, first: u32) -> bool {
        let count = self.parsed.functions@.len();
        &&& count == self.parsed.code@.len()
        &&& self.indices.types.next() + count * (self.ty_lookup.entries().len() + 1) <= u32::MAX
        &&& self.indices.funcs.next() + count <= u32::MAX
        &&& first + count <= u32::MAX + 1
        &&& forall|k: u32| first <= k < first + count ==> !#[trigger] self.indices.funcs.mapping().contains_key(k)
        &&& forall|i: int, w: Weaver<'a>|
            0 <= i < count && #[trigger] self.at_function(&w, first, i) ==> w.function_ready(
                i as u32,
            )
    }

    /// Whether the function whose body stands at position `body_index`
    /// can be declared at once: where it keeps its type, the type is
    /// written or can be written at once; where it does not, the
    /// signature that the host sees can be written at once.
    pub open spec fn function_ready(&self, body_index: u32) -> bool {
        let ty = self.parsed.functions@[body_index as int];
        if self.keeps_type(body_index) {
            self.indices.types.mapping().contains_key(ty) || self.type_ready(ty)
        } else {
            self.wire_ready(body_index)
        }
    }

    /// The last entries of `held` are what the encoder made of the entries
    /// of a section of the given kind that stand at `spans`, one for one,
    /// each with the indices of this weaver as far as they were bound when
    /// it was written.
    pub open spec fn items_held(&self, kind: SectionKind, spans: Seq<Span>, held: Seq<Entry>) -> bool {
        &&& held.len() >= spans.len()
        &&& forall|k: int|
            0 <= k < spans.len() ==> ((#[trigger] held[held.len() - spans.len() + k]) matches Entry::Item(
                bytes,
            ) && item_taken(kind, self.parsed.data@, spans[k], bytes, self.maps()))
    }

    /// Entries that are held with the indices of one weaver are held with
    /// the indices of every weaver that has woven on from it.
    pub proof fn lemma_items_stay(
        a: &Weaver<'a>,
        b: &Weaver<'a>,
        kind: SectionKind,
        spans: Seq<Span>,
        held: Seq<Entry>,
    )
        requires
            a.items_held(kind, spans, held),
            a.settled(b),
        ensures
            b.items_held(kind, spans, held),
    {
        Self::lemma_maps_extended(a, b);
        assert(maps_extended(a.maps(), b.maps()));
        assert forall|k: int| 0 <= k < spans.len() implies ((#[trigger] held[held.len()
            - spans.len() + k]) matches Entry::Item(bytes) && item_taken(
            kind,
            b.parsed.data@,
            spans[k],
            bytes,
            b.maps(),
        )) by {
            let bytes = held[held.len() - spans.len() + k]->Item_0;
            assert(item_taken(kind, a.parsed.data@, spans[k], bytes, a.maps()));
            let m = choose|m: IndexMaps| #[trigger]
                maps_extended(m, a.maps()) && item_written(
                    kind,
                    a.parsed.data@,
                    spans[k].start as int,
                    spans[k].end as int,
                    m,
                ) == Ok::<Seq<u8>, Failure>(bytes);
            assert(maps_extended(m, b.maps()));
        }
    }

    /// `w` is this weaver when entry `i` of a section is handed to the
    /// encoder and every entry before it was taken at once: no type was
    /// written since, and where the entries take indices of a space, the
    /// entries up to this one have theirs.
    pub open spec fn at_item(&self, w: &Weaver<'a>, space: Option<Space>, first: u32, i: int) -> bool {
        &&& self.settled(w)
        &&& w.indices.types == self.indices.types
        &&& w.interner == self.interner
        &&& forall|other: Space| Some(other) != space ==> #[trigger] w.mapper(other) == self.mapper(other)
        &&& space matches Some(s) ==> bound_run(&self.mapper(s), &w.mapper(s), first as int, i + 1)
    }

    /// Whether the entries of a section can be handed to the encoder at
    /// once: the section can count them, the space that they take indices
    /// of has as many free and binds none of theirs yet, and the encoder
    /// takes each entry with the indices that are bound when its turn
    /// comes.
    pub open spec fn items_ready(
        &self,
        held: int,
        kind: SectionKind,
        spans: Seq<Span>,
        space: Option<Space>,
        first: u32,
    ) -> bool {
        &&& held + spans.len() <= u32::MAX
        &&& space matches Some(s) ==> {
            &&& self.mapper(s).next() + spans.len() <= u32::MAX
            &&& first + spans.len() <= u32::MAX + 1
            &&& forall|k: u32|
                first <= k < first + spans.len() ==> !#[trigger] self.mapper(s).mapping().contains_key(
                    k,
                )
        }
        &&& forall|i: int, w: Weaver<'a>|
            0 <= i < spans.len() && #[trigger] self.at_item(&w, space, first, i)
                ==> crate::encoder::item_refused(
                kind,
                self.parsed.data@,
                spans[i].start as int,
                spans[i].end as int,
                w.maps(),
            ) is None
    }

    /// Hands the entries of a section of the module to the encoder, one by
    /// one, behind what the section of the output holds already. Where the
    /// entries take indices of a space, each is given the next free index
    /// of the space before it is handed on; `first` is the index that the
    /// first of them has in the module.
    pub fn weave_items(
        &mut self,
        section: &mut Option<ItemSection>,
        kind: SectionKind,
        spans: &Vec<Span>,
        space: Option<Space>,
        first: u32,
    ) -> (r: Result<(), Failure>)
        requires
            old(self).wf(),
            takes_items(kind),
            section_is(*old(section), kind),
            spans_within(spans@, old(self).parsed.data@.len()),
        ensures
            final(self).wf(),
            old(self).settled(final(self)),
            section_is(*final(section), kind),
            forall|other: Space|
                Some(other) != space ==> #[trigger] final(self).mapper(other) == old(self).mapper(
                    other,
                ),
            r is Ok ==> {
                &&& item_entries(*final(section)).len() == item_entries(*old(section)).len()
                    + spans@.len()
                &&& final(self).items_held(kind, spans@, item_entries(*final(section)))
                &&& entries(*final(section)) == entries(*old(section)) + spans@.len()
                &&& (*final(section) is Some) == (*old(section) is Some || spans@.len() > 0)
                &&& space matches Some(s) ==> bound_run(
                    &old(self).mapper(s),
                    &final(self).mapper(s),
                    first as int,
                    spans@.len() as int,
                )
            },
            spans@.len() == 0 ==> r is Ok && *final(self) == *old(self),
            old(self).items_ready(entries(*old(section)) as int, kind, spans@, space, first) ==> r
                is Ok && final(self).indices.types == old(self).indices.types,
    {
        let ghost ready = self.items_ready(entries(*section) as int, kind, spans@, space, first);
        proof {
            Self::lemma_woven_on(old(self), old(self), old(self));
        }
        if spans.len() == 0 {
            return Ok(());
        }
        let mut built = section_or_new(section, kind);
        let mut i: usize = 0;
        while i < spans.len()
            invariant
                i <= spans@.len(),
                self.wf(),
                old(self).settled(self),
                built.held().len() == item_entries(*old(section)).len() + i,
                self.items_held(kind, spans@.subrange(0, i as int), built.held()),
                spans_within(spans@, self.parsed.data@.len()),
                takes_items(kind),
                built.is(kind),
                built.count == entries(*old(section)) + i,
                *section is None,
                forall|other: Space|
                    Some(other) != space ==> #[trigger] self.mapper(other) == old(self).mapper(
                        other,
                    ),
                space matches Some(s) ==> bound_run(
                    &old(self).mapper(s),
                    &self.mapper(s),
                    first as int,
                    i as int,
                ),
                ready == old(self).items_ready(
                    entries(*old(section)) as int,
                    kind,
                    spans@,
                    space,
                    first,
                ),
                ready ==> self.indices.types == old(self).indices.types && self.interner == old(
                    self,
                ).interner,
            decreases spans@.len() - i,
        {
            let ghost before = *self;
            let ghost held = built.held();
            if let Some(s) = space {
                if i > u32::MAX as usize || first > u32::MAX - (i as u32) {
                    *section = Some(built);
                    return Err(out_of_bounds(s, u32::MAX));
                }
                let source: u32 = first + i as u32;
                let bound = self.bind_in(s, source);
                proof {
                    Self::lemma_woven_on(old(self), &before, self);
                    assert forall|other: Space| Some(other) != space implies #[trigger] self.mapper(
                        other,
                    ) == old(self).mapper(other) by {
                        assert(self.mapper(other) == before.mapper(other));
                    }
                }
                if bound.is_none() {
                    *section = Some(built);
                    return Err(out_of_bounds(s, source));
                }
                proof {
                    lemma_run_longer(
                        &old(self).mapper(s),
                        &before.mapper(s),
                        &self.mapper(s),
                        first as int,
                        i as int,
                    );
                }
            }
            let ghost bound = *self;
            proof {
                if ready {
                    assert(old(self).at_item(&bound, space, first, i as int));
                }
            }
            let added = self.add_item(&mut built, spans[i]);
            proof {
                Self::lemma_woven_on(&bound, &bound, self);
                Self::lemma_woven_on(old(self), &bound, self);
                assert forall|other: Space| Some(other) != space implies #[trigger] self.mapper(
                    other,
                ) == old(self).mapper(other) by {
                    assert(self.mapper(other) == bound.mapper(other));
                    assert(bound.mapper(other) == old(self).mapper(other));
                }
                if let Some(s) = space {
                    assert(self.mapper(s) == bound.mapper(s));
                }
            }
            match added {
                Ok(()) => {},
                Err(e) => {
                    *section = Some(built);
                    return Err(e);
                },
            }
            proof {
                Self::lemma_woven_on(&before, &bound, self);
                Self::lemma_items_stay(&before, self, kind, spans@.subrange(0, i as int), held);
                Self::lemma_woven_on(self, self, self);
                Self::lemma_maps_extended(self, self);
                assert(maps_extended(self.maps(), self.maps()));
                let now = built.held();
                let part = spans@.subrange(0, i + 1);
                assert forall|k: int| 0 <= k < part.len() implies ((#[trigger] now[now.len()
                    - part.len() + k]) matches Entry::Item(bytes) && item_taken(
                    kind,
                    self.parsed.data@,
                    part[k],
                    bytes,
                    self.maps(),
                )) by {
                    if k < i {
                        assert(now[now.len() - part.len() + k] == held[held.len() - i + k]);
                        assert(spans@.subrange(0, i as int)[k] == part[k]);
                    }
                }
            }
            i = i + 1;
        }
        assert(spans@.subrange(0, i as int) =~= spans@);
        *section = Some(built);
        Ok(())
    }

    /// What [`Weaver::weave_code`] has done, where `had` are the bodies of
    /// the code section before the call: every body of the module stands
    /// behind them, written as [`Weaver::wove`] describes.
    pub open spec fn code_done(&self, had: Seq<FunctionOut>, list: Seq<FunctionOut>) -> bool {
        let count = self.parsed.code@.len();
        &&& list.len() == had.len() + count
        &&& list.subrange(0, had.len() as int) == had
        &&& forall|i: int|
            0 <= i < count ==> #[trigger] self.was_woven(i as u32, list[had.len() + i], self)
    }

    /// Whether every body of the module can be written at once, see
    /// [`Weaver::ready`], and an index is free for the type of each
    /// wrapper block.
    pub open spec fn code_ready(&self) -> bool {
        &&& self.indices.types.next() + self.parsed.code@.len() < u32::MAX
        &&& forall|i: u32| i < self.parsed.code@.len() ==> #[trigger] self.ready(i)
    }

    /// Writes the bodies of the module behind the bodies that the code
    /// section holds already.
    pub fn weave_code(&mut self, code: &mut Option<Vec<FunctionOut>>) -> (r: Result<(), Failure>)
        requires
            old(self).wf(),
        ensures
            final(self).wf(),
            old(self).types_grown(final(self)),
            r is Ok ==> {
                &&& final(self).code_done(bodies(*old(code)), bodies(*final(code)))
                &&& (*final(code) is Some) == (*old(code) is Some || old(self).parsed.code@.len()
                    > 0)
            },
            old(self).parsed.code@.len() == 0 ==> r is Ok && *final(self) == *old(self),
            old(self).code_ready() ==> r is Ok && old(self).grown_within(
                final(self),
                old(self).parsed.code@.len() as int,
            ),
    {
        let parsed = self.parsed;
        let ghost had = bodies(*code);
        let mut i: usize = 0;
        proof {
            Self::lemma_types_grown(old(self), old(self), old(self));
            assert(bodies(*code).subrange(0, had.len() as int) == had);
        }
        while i < parsed.code.len()
            invariant
                i <= parsed.code@.len(),
                parsed == self.parsed,
                self.wf(),
                old(self).types_grown(self),
                i == 0 ==> *self == *old(self),
                old(self).code_ready() ==> self.maps() == old(self).maps()
                    && self.indices.types.next() <= old(self).indices.types.next() + i,
                bodies(*code).len() == had.len() + i,
                bodies(*code).subrange(0, had.len() as int) == had,
                forall|k: int|
                    0 <= k < i ==> #[trigger] self.was_woven(
                        k as u32,
                        bodies(*code)[had.len() + k],
                        self,
                    ),
                (*code is Some) == (*old(code) is Some || i > 0),
            decreases parsed.code@.len() - i,
        {
            let ghost before = *self;
            let ghost list = bodies(*code);
            proof {
                if old(self).code_ready() {
                    assert(old(self).ready(i as u32));
                    Self::lemma_ready_stays(old(self), self, i as u32);
                }
            }
            let out = self.parse_function_body(i as u32)?;
            add_body(code, out);
            proof {
                Self::lemma_types_grown(old(self), &before, self);
                Self::lemma_woven_on(&before, self, self);
                Self::lemma_woven_on(&before, &before, self);
                assert(bodies(*code).subrange(0, had.len() as int) =~= had);
                assert forall|k: int| 0 <= k < i + 1 implies #[trigger] self.was_woven(
                    k as u32,
                    bodies(*code)[had.len() + k],
                    self,
                ) by {
                    if k < i {
                        assert(before.was_woven(k as u32, list[had.len() + k], &before));
                        Self::lemma_woven_stays(
                            &before,
                            &before,
                            self,
                            k as u32,
                            list[had.len() + k],
                        );
                    } else {
                        Self::lemma_woven_stays(&before, self, self, i as u32, out);
                    }
                }
            }
            i = i + 1;
        }
        Ok(())
    }

    /// The export of the output at place `k` of a list is the export of
    /// the module at that place, with the index that its item has in the
    /// output.
    pub open spec fn export_at(&self, out: Seq<Export>, k: int) -> bool {
        let export = self.parsed.exports@[k];
        &&& out[k].name@ == export.name@
        &&& out[k].kind == export.kind
        &&& self.exported_index(export.kind, export.index) == Ok::<u32, WeaveError>(out[k].index)
    }

    /// Why the first of the first `count` exports whose item has no index
    /// in the output has none, if there is such an export.
    pub open spec fn export_error(&self, count: int) -> Option<WeaveError>
        decreases count,
    {
        if count <= 0 {
            None
        } else {
            match self.export_error(count - 1) {
                Some(e) => Some(e),
                None => match self.exported_index(
                    self.parsed.exports@[count - 1].kind,
                    self.parsed.exports@[count - 1].index,
                ) {
                    Ok(_) => None,
                    Err(e) => Some(e),
                },
            }
        }
    }

    /// The first export that has an error among the first `a` is the
    /// first among any more.
    pub proof fn lemma_export_error_stays(&self, a: int, b: int)
        requires
            0 <= a <= b,
            self.export_error(a) is Some,
        ensures
            self.export_error(b) == self.export_error(a),
        decreases b,
    {
        if a < b {
            self.lemma_export_error_stays(a, b - 1);
        }
    }

    /// Where the item of each of the first `count` exports has an index in
    /// the output, none of them has an error.
    pub proof fn lemma_no_export_error(&self, count: int)
        requires
            forall|k: int|
                0 <= k < count ==> #[trigger] self.exported_index(
                    self.parsed.exports@[k].kind,
                    self.parsed.exports@[k].index,
                ) is Ok,
        ensures
            self.export_error(count) is None,
        decreases count,
    {
        if count > 0 {
            self.lemma_no_export_error(count - 1);
        }
    }

    /// Why the exports, the start function and the count of data segments
    /// cannot be listed, if they cannot: the error of the first export
    /// whose item has no index in the output; or else the start function
    /// has no index in the output; or else a count of data segments is
    /// announced and 32 bits cannot hold it.
    pub open spec fn closing_error(&self) -> Option<Failure> {
        let m = self.parsed;
        match self.export_error(m.exports@.len() as int) {
            Some(e) => Some(Failure::UserError(e)),
            None => if m.start is Some && !self.indices.funcs.mapping().contains_key(m.start->0) {
                Some(Failure::UserError(WeaveError::FunctionIndexOutOfBounds(m.start->0)))
            } else if m.data_count is Some && m.data_segments@.len() > u32::MAX {
                Some(Failure::Read(crate::error::ReadError::Malformed))
            } else {
                None
            },
        }
    }

    /// `rest` lists the exports of the module with the indices of the
    /// output, the start function of the module with its index in the
    /// output, and the count of data segments if and only if the module
    /// announces one.
    pub open spec fn closed(&self, rest: &Rest) -> bool {
        let m = self.parsed;
        &&& match rest.exports {
            Some(out) => {
                &&& out@.len() == m.exports@.len()
                &&& out@.len() > 0
                &&& forall|k: int| 0 <= k < out@.len() ==> #[trigger] self.export_at(out@, k)
            },
            None => m.exports@.len() == 0,
        }
        &&& match m.start {
            Some(f) => self.indices.funcs.mapping().contains_key(f) && rest.start == Some(
                self.indices.funcs.mapping()[f],
            ),
            None => rest.start is None,
        }
        &&& match m.data_count {
            Some(_) => rest.data_count == Some(m.data_segments@.len() as u32)
                && m.data_segments@.len() <= u32::MAX,
            None => rest.data_count is None,
        }
    }

    /// Lists the exports and the start function of the module with their
    /// indices in the output, and the count of its data segments if the
    /// module announces one.
    pub fn close(&self) -> (r: Result<Rest, Failure>)
        requires
            self.wf(),
        ensures
            match self.closing_error() {
                Some(e) => r matches Err(found) && found == e,
                None => r matches Ok(rest) && self.closed(&rest),
            },
    {
        let parsed = self.parsed;
        let exports = match self.weave_exports() {
            Ok(exports) => exports,
            Err(e) => {
                return Err(e);
            },
        };
        let start = match parsed.start {
            Some(f) => match self.indices.funcs.map(f) {
                Some(target) => Some(target),
                None => {
                    return Err(Failure::UserError(WeaveError::FunctionIndexOutOfBounds(f)));
                },
            },
            None => None,
        };
        let data_count = match parsed.data_count {
            Some(_) => {
                if parsed.data_segments.len() > u32::MAX as usize {
                    return Err(Failure::Read(crate::error::ReadError::Malformed));
                }
                Some(parsed.data_segments.len() as u32)
            },
            None => None,
        };
        Ok(Rest { exports, start, data_count })
    }

    /// The exports of the output: those of the module, in order, each with
    /// the index that its item has in the output. An export of an item
    /// that has no index in the output is an error.
    pub fn weave_exports(&self) -> (r: Result<Option<Vec<Export>>, Failure>)
        requires
            self.wf(),
        ensures
            match self.export_error(self.parsed.exports@.len() as int) {
                Some(e) => r matches Err(found) && found == Failure::UserError(e),
                None => r is Ok,
            },
            match r {
                Ok(Some(out)) => {
                    &&& self.parsed.exports@.len() > 0
                    &&& out@.len() == self.parsed.exports@.len()
                    &&& forall|k: int| 0 <= k < out@.len() ==> #[trigger] self.export_at(out@, k)
                },
                Ok(None) => self.parsed.exports@.len() == 0,
                Err(e) => exists|k: int|
                    0 <= k < self.parsed.exports@.len() && #[trigger] self.exported_index(
                        self.parsed.exports@[k].kind,
                        self.parsed.exports@[k].index,
                    ) is Err && e == Failure::UserError(
                        self.exported_index(
                            self.parsed.exports@[k].kind,
                            self.parsed.exports@[k].index,
                        )->Err_0,
                    ),
            },
    {
        let parsed = self.parsed;
        if parsed.exports.len() == 0 {
            return Ok(None);
        }
        let mut out: Vec<Export> = Vec::new();
        let mut i: usize = 0;
        while i < parsed.exports.len()
            invariant
                i <= parsed.exports@.len(),
                parsed == self.parsed,
                out@.len() == i,
                forall|k: int| 0 <= k < i ==> #[trigger] self.export_at(out@, k),
                self.export_error(i as int) is None,
            decreases parsed.exports@.len() - i,
        {
            let export = &parsed.exports[i];
            let index = match self.external_index(export.kind, export.index) {
                Ok(index) => index,
                Err(e) => {
                    proof {
                        assert(self.export_error(i + 1) == Some(e));
                        self.lemma_export_error_stays(i + 1, parsed.exports@.len() as int);
                    }
                    return Err(Failure::UserError(e));
                },
            };
            let ghost before = out@;
            out.push(Export { name: export.name.clone(), kind: export.kind, index });
            proof {
                assert forall|k: int| 0 <= k < i + 1 implies #[trigger] self.export_at(out@, k) by {
                    if k < i {
                        assert(self.export_at(before, k));
                    }
                }
            }
            i = i + 1;
        }
        Ok(Some(out))
    }
}

} // verus!
