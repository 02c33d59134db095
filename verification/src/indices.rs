//! Index allocation for the four index spaces that the weaver rewrites.
//!
//! A WebAssembly module refers to its types, functions, tables and globals by
//! position. While a module is woven every entity of the output gets a fresh
//! position from an [`IndexMapper`], and the position it had in the input is
//! bound to the new one so that every reference to it can be renumbered.

use std::collections::HashMap;
use vstd::prelude::*;

verus! {

broadcast use vstd::std_specs::hash::group_hash_axioms;

/// Allocates target indices and records which source index became which
/// target index.
pub struct IndexMapper {
    next_index: u32,
    map: HashMap<u32, u32>,
}

impl IndexMapper {
    /// The first target index that has not been handed out yet.
    pub closed spec fn next(&self) -> nat {
        self.next_index as nat
    }

    /// Which target index each source index is bound to.
    pub closed spec fn mapping(&self) -> Map<u32, u32> {
        self.map@
    }

    /// Every recorded target has been reserved before.
    pub open spec fn wf(&self) -> bool {
        forall|source: u32| #[trigger]
            self.mapping().contains_key(source) ==> (self.mapping()[source] as nat) < self.next()
    }

    /// No two source indices share a target.
    pub open spec fn injective(&self) -> bool {
        forall|a: u32, b: u32|
            #![trigger self.mapping()[a], self.mapping()[b]]
            self.mapping().contains_key(a) && self.mapping().contains_key(b) && self.mapping()[a]
                == self.mapping()[b] ==> a == b
    }

    /// `later` has reserved at least what this mapper has reserved and
    /// binds every source index that this mapper binds to the same target.
    pub open spec fn extended_by(&self, later: &IndexMapper) -> bool {
        &&& self.next() <= later.next()
        &&& forall|source: u32| #[trigger]
            self.mapping().contains_key(source) ==> later.mapping().contains_key(source)
                && later.mapping()[source] == self.mapping()[source]
    }

    /// The indices that were handed out can be counted in 32 bits.
    pub proof fn lemma_next_bounded(&self)
        ensures
            self.next() <= u32::MAX,
    {
    }

    /// A mapper that has reserved nothing and maps nothing.
    pub fn new() -> (r: Self)
        ensures
            r.next() == 0,
            r.mapping() == Map::<u32, u32>::empty(),
            r.wf(),
            r.injective(),
    {
        IndexMapper { next_index: 0, map: HashMap::new() }
    }

    /// The number of target indices handed out so far.
    pub fn reserved(&self) -> (r: u32)
        ensures
            r as nat == self.next(),
    {
        self.next_index
    }

    /// Hands out one fresh target index.
    pub fn reserve(&mut self) -> (r: u32)
        requires
            old(self).next() < u32::MAX,
        ensures
            r as nat == old(self).next(),
            final(self).next() == old(self).next() + 1,
            final(self).mapping() == old(self).mapping(),
    {
        self.reserve_many(1)
    }

    /// Hands out `count` consecutive fresh target indices and returns the
    /// first of them.
    pub fn reserve_many(&mut self, count: u32) -> (r: u32)
        requires
            old(self).next() + count <= u32::MAX,
        ensures
            r as nat == old(self).next(),
            final(self).next() == old(self).next() + count,
            final(self).mapping() == old(self).mapping(),
    {
        let i: u32 = self.next_index;
        self.next_index = self.next_index + count;
        i
    }

    /// Hands out one fresh target index and binds `source` to it.
    pub fn map_reserve(&mut self, source: u32) -> (r: u32)
        requires
            old(self).next() < u32::MAX,
            !old(self).mapping().contains_key(source),
        ensures
            r as nat == old(self).next(),
            final(self).next() == old(self).next() + 1,
            final(self).mapping() == old(self).mapping().insert(source, r),
    {
        let i: u32 = self.reserve();
        self.add_mapping(source, i);
        i
    }

    /// Binds `source` to a target index that was reserved before.
    pub fn add_mapping(&mut self, source: u32, target: u32)
        requires
            (target as nat) < old(self).next(),
            !old(self).mapping().contains_key(source),
        ensures
            final(self).next() == old(self).next(),
            final(self).mapping() == old(self).mapping().insert(source, target),
    {
        let _ = self.map.insert(source, target);
    }

    /// The target index bound to `source`, if any.
    pub fn map(&self, source: u32) -> (r: Option<u32>)
        ensures
            r == if self.mapping().contains_key(source) {
                Some(self.mapping()[source])
            } else {
                None::<u32>
            },
    {
        match self.map.get(&source) {
            Some(target) => Some(*target),
            None => None,
        }
    }

    /// Reserving never invalidates a mapper: all recorded targets stay
    /// reserved, and the mapping stays injective.
    pub proof fn lemma_reserve_keeps(before: IndexMapper, after: IndexMapper)
        requires
            before.wf(),
            after.mapping() == before.mapping(),
            after.next() >= before.next(),
        ensures
            after.wf(),
            before.injective() ==> after.injective(),
    {
    }

    /// Binding a source to a reserved target keeps every recorded target
    /// reserved. The mapping stays injective when the target was bound to
    /// no other source, which always holds of a target that was reserved for
    /// this binding alone.
    pub proof fn lemma_bind_keeps(before: IndexMapper, after: IndexMapper, source: u32, target: u32)
        requires
            before.wf(),
            (target as nat) < after.next(),
            after.next() >= before.next(),
            after.mapping() == before.mapping().insert(source, target),
        ensures
            after.wf(),
            before.injective() && (forall|other: u32| #[trigger]
                before.mapping().contains_key(other) ==> before.mapping()[other] != target)
                ==> after.injective(),
    {
        assert forall|s: u32| #[trigger] after.mapping().contains_key(s) implies (
        after.mapping()[s] as nat) < after.next() by {
            if s != source {
                assert(before.mapping().contains_key(s));
            }
        }
        if before.injective() && (forall|other: u32| #[trigger]
            before.mapping().contains_key(other) ==> before.mapping()[other] != target) {
            assert forall|a: u32, b: u32|
                #![trigger after.mapping()[a], after.mapping()[b]]
                after.mapping().contains_key(a) && after.mapping().contains_key(b)
                    && after.mapping()[a] == after.mapping()[b] implies a == b by {
                if a != source && b != source {
                    assert(before.mapping().contains_key(a));
                    assert(before.mapping().contains_key(b));
                    assert(before.mapping()[a] == before.mapping()[b]);
                } else if a == source && b != source {
                    assert(before.mapping().contains_key(b));
                } else if a != source && b == source {
                    assert(before.mapping().contains_key(a));
                }
            }
        }
    }

    /// A target that `map_reserve` hands out is bound to no earlier source, so
    /// a mapper that only ever grew by `map_reserve` maps injectively.
    pub proof fn lemma_fresh_target_unbound(mapper: IndexMapper, source: u32)
        requires
            mapper.wf(),
            mapper.mapping().contains_key(source),
        ensures
            (mapper.mapping()[source] as nat) != mapper.next(),
    {
    }
}

impl Default for IndexMapper {
    fn default() -> (r: Self)
        ensures
            r.next() == 0,
            r.mapping() == Map::<u32, u32>::empty(),
            r.wf(),
            r.injective(),
    {
        IndexMapper::new()
    }
}

/// The index spaces of a module that the weaver renumbers.
pub struct Indices {
    pub types: IndexMapper,
    pub funcs: IndexMapper,
    pub tables: IndexMapper,
    pub globals: IndexMapper,
}

impl Indices {
    /// All four mappers are well-formed.
    pub open spec fn wf(&self) -> bool {
        &&& self.types.wf()
        &&& self.funcs.wf()
        &&& self.tables.wf()
        &&& self.globals.wf()
    }

    /// Four empty mappers.
    pub fn new() -> (r: Self)
        ensures
            r.wf(),
            r.types.next() == 0 && r.types.mapping() == Map::<u32, u32>::empty(),
            r.funcs.next() == 0 && r.funcs.mapping() == Map::<u32, u32>::empty(),
            r.tables.next() == 0 && r.tables.mapping() == Map::<u32, u32>::empty(),
            r.globals.next() == 0 && r.globals.mapping() == Map::<u32, u32>::empty(),
    {
        Indices {
            types: IndexMapper::new(),
            funcs: IndexMapper::new(),
            tables: IndexMapper::new(),
            globals: IndexMapper::new(),
        }
    }
}

impl Default for Indices {
    fn default() -> (r: Self)
        ensures
            r.wf(),
            r.types.next() == 0 && r.types.mapping() == Map::<u32, u32>::empty(),
            r.funcs.next() == 0 && r.funcs.mapping() == Map::<u32, u32>::empty(),
            r.tables.next() == 0 && r.tables.mapping() == Map::<u32, u32>::empty(),
            r.globals.next() == 0 && r.globals.mapping() == Map::<u32, u32>::empty(),
    {
        Indices::new()
    }
}

} // verus!
