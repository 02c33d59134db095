//! How the state of a weaver after a step relates to its state before.

use crate::indices::IndexMapper;
use crate::weaver::Weaver;
use vstd::prelude::*;

verus! {

/// Every source index that the mapper binds lies below `bound`.
pub open spec fn keys_below(mapper: &IndexMapper, bound: int) -> bool {
    forall|k: u32| #[trigger] mapper.mapping().contains_key(k) ==> k < bound
}

/// The mapper binds each of the first `count` source indices to itself,
/// binds nothing else and has handed out nothing else.
pub open spec fn identity_to(mapper: &IndexMapper, count: int) -> bool {
    &&& mapper.next() == count
    &&& keys_below(mapper, count)
    &&& forall|k: u32|
        k < count ==> #[trigger] mapper.mapping().contains_key(k) && mapper.mapping()[k] == k
}

/// The mapper binds the `count` source indices from `first` on to the
/// target indices from `base` on, in order.
pub open spec fn binds_run(mapper: &IndexMapper, first: int, base: int, count: int) -> bool {
    forall|i: int|
        0 <= i < count ==> #[trigger] mapper.mapping().contains_key((first + i) as u32)
            && mapper.mapping()[(first + i) as u32] == base + i
}

/// `after` is `before` with the `count` source indices from `first` on
/// bound to the next free target indices, in order, and nothing else
/// bound.
pub open spec fn bound_run(before: &IndexMapper, after: &IndexMapper, first: int, count: int) -> bool {
    &&& before.extended_by(after)
    &&& after.next() == before.next() + count
    &&& first + count <= u32::MAX + 1
    &&& binds_run(after, first, before.next() as int, count)
    &&& forall|k: u32| #[trigger]
        after.mapping().contains_key(k) ==> before.mapping().contains_key(k) || first <= k < first
            + count
}

/// A run that is bound behind the identity makes a longer identity, and a
/// run that is bound above every key leaves every key below its end.
pub proof fn lemma_bound_run(before: &IndexMapper, after: &IndexMapper, first: int, count: int)
    requires
        bound_run(before, after, first, count),
        0 <= first,
        0 <= count,
    ensures
        keys_below(before, first) ==> keys_below(after, first + count),
        identity_to(before, first) ==> identity_to(after, first + count),
{
    if identity_to(before, first) {
        assert forall|k: u32| k < first + count implies #[trigger] after.mapping().contains_key(k)
            && after.mapping()[k] == k by {
            if k < first {
                assert(before.mapping().contains_key(k));
            } else {
                let i = k - first;
                assert(after.mapping().contains_key((first + i) as u32));
            }
        }
    }
}

/// A run that is bound grows by the source index behind it.
pub proof fn lemma_run_longer(
    a: &IndexMapper,
    b: &IndexMapper,
    c: &IndexMapper,
    first: int,
    count: int,
)
    requires
        bound_run(a, b, first, count),
        bound_run(b, c, first + count, 1),
        0 <= first,
        0 <= count,
    ensures
        bound_run(a, c, first, count + 1),
{
    lemma_extended(a, b, c);
    assert forall|j: int| 0 <= j < count + 1 implies #[trigger] c.mapping().contains_key(
        (first + j) as u32,
    ) && c.mapping()[(first + j) as u32] == a.next() + j by {
        if j < count {
            assert(b.mapping().contains_key((first + j) as u32));
        } else {
            assert(c.mapping().contains_key((first + count + 0) as u32));
        }
    }
    assert forall|k: u32| #[trigger] c.mapping().contains_key(k) implies a.mapping().contains_key(k)
        || first <= k < first + count + 1 by {
        if !(first + count <= k < first + count + 1) {
            assert(b.mapping().contains_key(k));
        }
    }
}

/// Binds `source` to the next free index of a mapper. Nothing is bound
/// where no index is free or `source` is bound already.
pub fn bind_fresh(mapper: &mut IndexMapper, source: u32) -> (r: Option<u32>)
    requires
        old(mapper).wf(),
    ensures
        final(mapper).wf(),
        old(mapper).extended_by(final(mapper)),
        r is Some <==> old(mapper).next() < u32::MAX && !old(mapper).mapping().contains_key(source),
        match r {
            Some(target) => {
                &&& !old(mapper).mapping().contains_key(source)
                &&& target == old(mapper).next()
                &&& final(mapper).next() == old(mapper).next() + 1
                &&& final(mapper).mapping() == old(mapper).mapping().insert(source, target)
            },
            None => {
                &&& *final(mapper) == *old(mapper)
                &&& (old(mapper).next() == u32::MAX || old(mapper).mapping().contains_key(source))
            },
        },
{
    if mapper.reserved() == u32::MAX {
        return None;
    }
    if mapper.map(source).is_some() {
        return None;
    }
    let ghost before = *mapper;
    let target = mapper.map_reserve(source);
    proof {
        IndexMapper::lemma_bind_keeps(before, *mapper, source, target);
    }
    Some(target)
}

/// Being extended is reflexive and transitive.
pub proof fn lemma_extended(a: &IndexMapper, b: &IndexMapper, c: &IndexMapper)
    ensures
        a.extended_by(a),
        a.extended_by(b) && b.extended_by(c) ==> a.extended_by(c),
{
    if a.extended_by(b) && b.extended_by(c) {
        assert forall|source: u32| #[trigger] a.mapping().contains_key(source) implies c.mapping().contains_key(
            source,
        ) && c.mapping()[source] == a.mapping()[source] by {
            assert(b.mapping().contains_key(source));
        }
    }
}

impl<'a> Weaver<'a> {
    /// `later` is this weaver after more of the module was woven: the
    /// module and its lookup tables are the same, every index that was
    /// bound is still bound to the same target, and every record of a type
    /// is still in place.
    pub open spec fn woven_on(&self, later: &Weaver<'a>) -> bool {
        &&& later.parsed == self.parsed
        &&& later.ty_lookup == self.ty_lookup
        &&& later.fn_lookup == self.fn_lookup
        &&& self.indices.types.extended_by(&later.indices.types)
        &&& self.indices.funcs.extended_by(&later.indices.funcs)
        &&& self.indices.tables.extended_by(&later.indices.tables)
        &&& self.indices.globals.extended_by(&later.indices.globals)
        &&& self.interner.kept_by(&later.interner)
    }

    /// `later` is this weaver after more of the module was woven, see
    /// [`Weaver::woven_on`], with the same return stubs, the same functions
    /// that code may refer to, and the same slab.
    pub open spec fn settled(&self, later: &Weaver<'a>) -> bool {
        &&& self.woven_on(later)
        &&& later.returns_lookup == self.returns_lookup
        &&& later.callable_functions == self.callable_functions
        &&& later.table_api == self.table_api
    }

    /// Weaving on is reflexive and transitive; writing types and merging
    /// the slab are weaving on.
    pub proof fn lemma_woven_on(a: &Weaver<'a>, b: &Weaver<'a>, c: &Weaver<'a>)
        ensures
            a.woven_on(a),
            a.settled(a),
            a.woven_on(b) && b.woven_on(c) ==> a.woven_on(c),
            a.settled(b) && b.settled(c) ==> a.settled(c),
            a.types_grown(b) ==> a.settled(b),
            a.slab_merged(b) ==> a.settled(b),
    {
        lemma_extended(&a.indices.types, &b.indices.types, &c.indices.types);
        lemma_extended(&a.indices.funcs, &b.indices.funcs, &c.indices.funcs);
        lemma_extended(&a.indices.tables, &b.indices.tables, &c.indices.tables);
        lemma_extended(&a.indices.globals, &b.indices.globals, &c.indices.globals);
    }

    /// Nothing is woven yet.
    pub open spec fn fresh(&self) -> bool {
        &&& self.table_api is None
        &&& self.returns_lookup@.len() == 0
        &&& self.indices.types.next() == 0
        &&& self.indices.funcs.next() == 0
        &&& self.indices.tables.next() == 0
        &&& self.indices.globals.next() == 0
        &&& forall|f: int|
            0 <= f < self.callable_functions@.len() ==> #[trigger] self.callable_functions@[f]
    }
}

} // verus!
