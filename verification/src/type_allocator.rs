//! The type section of the output, and the record of which type stands
//! where in it.
//!
//! A type is known by its key, the byte string that the encoder writes for
//! it. A type that is asked for twice under the same key is written once.
//! For a function type the record keeps the signature beside the key, and a
//! type is only taken for the one that is asked for if the signatures agree
//! as well.

use crate::encoder::{
    builder_new, key_of, keys_of, push_rec_group, push_type, sub_type_key, Builder, Entry,
    SectionKind,
};
use crate::indices::IndexMapper;
use crate::types::{bytes_eq, FuncType, FuncTypeView, ValueType};
use vstd::prelude::*;

verus! {

/// What the record keeps of one type of the output.
pub struct HashableType {
    /// The byte string that the encoder writes for the type.
    pub key: Vec<u8>,
    /// The signature, where the type is a function type.
    pub func: Option<FuncType>,
    /// The index of the type in the output.
    pub index: u32,
}

/// The mathematical value of a signature that may be missing.
pub open spec fn signature_view(func: Option<FuncType>) -> Option<FuncTypeView> {
    match func {
        Some(f) => Some(f@),
        None => None,
    }
}

impl HashableType {
    /// Whether this is a record of the type with this key and signature.
    pub open spec fn matches_type(&self, key: Seq<u8>, func: Option<FuncTypeView>) -> bool {
        self.key@ == key && signature_view(self.func) == func
    }
}

/// Whether two lists of value types are equal.
pub fn val_types_eq(a: &Vec<ValueType>, b: &Vec<ValueType>) -> (r: bool)
    ensures
        r == (a@ == b@),
{
    if a.len() != b.len() {
        return false;
    }
    let mut i: usize = 0;
    while i < a.len()
        invariant
            a.len() == b.len(),
            i <= a.len(),
            a@.subrange(0, i as int) == b@.subrange(0, i as int),
        decreases a.len() - i,
    {
        if a[i] != b[i] {
            assert(a@[i as int] != b@[i as int]);
            return false;
        }
        assert(a@.subrange(0, i + 1) == a@.subrange(0, i as int).push(a@[i as int]));
        assert(b@.subrange(0, i + 1) == b@.subrange(0, i as int).push(b@[i as int]));
        i = i + 1;
    }
    assert(a@ == a@.subrange(0, a.len() as int));
    assert(b@ == b@.subrange(0, b.len() as int));
    true
}

/// Whether two signatures that may be missing are equal.
pub fn signatures_eq(a: &Option<FuncType>, b: &Option<FuncType>) -> (r: bool)
    ensures
        r == (signature_view(*a) == signature_view(*b)),
{
    match a {
        Some(x) => match b {
            Some(y) => {
                let same = val_types_eq(&x.params, &y.params) && val_types_eq(
                    &x.results,
                    &y.results,
                );
                same
            },
            None => false,
        },
        None => match b {
            Some(_) => false,
            None => true,
        },
    }
}

/// The keys of the types that the entries of a type section hold, in the
/// order of their indices: one for a type that stands alone, and one for
/// every member of a recursion group.
pub open spec fn keys_held(entries: Seq<Entry>) -> Seq<Seq<u8>>
    decreases entries.len(),
{
    if entries.len() == 0 {
        Seq::empty()
    } else {
        let rest = keys_held(entries.drop_last());
        match entries.last() {
            Entry::Single(key) => rest.push(key),
            Entry::Group(keys) => rest + keys,
            _ => rest,
        }
    }
}

/// What one more entry adds to the keys that a type section holds.
pub proof fn lemma_keys_held(entries: Seq<Entry>, entry: Entry)
    ensures
        keys_held(entries.push(entry)) == match entry {
            Entry::Single(key) => keys_held(entries).push(key),
            Entry::Group(keys) => keys_held(entries) + keys,
            _ => keys_held(entries),
        },
{
    assert(entries.push(entry).drop_last() == entries);
    assert(entries.push(entry).last() == entry);
}

/// The type section of the output and the record of its types.
pub struct TypeInterner {
    records: Vec<HashableType>,
    section: Builder,
    emitted: u32,
}

impl TypeInterner {
    /// The records, oldest first.
    pub closed spec fn records(&self) -> Seq<HashableType> {
        self.records@
    }

    /// The number of types that the type section holds.
    pub closed spec fn emitted(&self) -> nat {
        self.emitted as nat
    }

    /// The type section.
    pub closed spec fn section(&self) -> Builder {
        self.section
    }

    /// The section is a type section.
    pub closed spec fn section_ok(&self) -> bool {
        self.section.kind() == SectionKind::Types
    }

    /// The section holds as many types as indices were handed out, and
    /// every record points at one of them, the one with the key of the
    /// record.
    pub open spec fn wf(&self, types: &IndexMapper) -> bool {
        &&& self.section_ok()
        &&& self.emitted() == types.next()
        &&& keys_held(self.section().held()).len() == self.emitted()
        &&& forall|i: int|
            0 <= i < self.records().len() ==> (#[trigger] self.records()[i]).index < self.emitted()
                && keys_held(self.section().held())[self.records()[i].index as int]
                == self.records()[i].key@
    }

    /// Whether `i` is the position of the youngest record of the type with
    /// this key and signature.
    pub open spec fn youngest(&self, key: Seq<u8>, func: Option<FuncTypeView>, i: int) -> bool {
        &&& 0 <= i < self.records().len()
        &&& self.records()[i].matches_type(key, func)
        &&& forall|j: int|
            i < j < self.records().len() ==> !(#[trigger] self.records()[j]).matches_type(key, func)
    }

    /// The type with this key and signature has a record.
    pub open spec fn knows(&self, key: Seq<u8>, func: Option<FuncTypeView>) -> bool {
        exists|i: int| 0 <= i < self.records().len() && (#[trigger] self.records()[i]).matches_type(
            key,
            func,
        )
    }

    /// The signature of the type at `index`, as far as a record tells.
    pub open spec fn has_signature(&self, index: u32, func: FuncTypeView) -> bool {
        exists|i: int|
            0 <= i < self.records().len() && (#[trigger] self.records()[i]).index == index
                && signature_view(self.records()[i].func) == Some(func)
    }

    /// A signature that a record tells is told by every interner that
    /// keeps the record.
    pub proof fn lemma_signature_kept(&self, later: &TypeInterner, index: u32, func: FuncTypeView)
        requires
            self.kept_by(later),
            self.has_signature(index, func),
        ensures
            later.has_signature(index, func),
    {
        let i = choose|i: int|
            0 <= i < self.records().len() && (#[trigger] self.records()[i]).index == index
                && signature_view(self.records()[i].func) == Some(func);
        assert(later.records()[i] == self.records()[i]);
    }

    /// `later` keeps every record of this interner and every type of its
    /// section, in place.
    pub open spec fn kept_by(&self, later: &TypeInterner) -> bool {
        &&& self.emitted() <= later.emitted()
        &&& self.records().len() <= later.records().len()
        &&& forall|i: int|
            0 <= i < self.records().len() ==> #[trigger] later.records()[i] == self.records()[i]
        &&& keys_held(self.section().held()).len() <= keys_held(later.section().held()).len()
        &&& forall|i: int|
            0 <= i < keys_held(self.section().held()).len() ==> #[trigger] keys_held(
                later.section().held(),
            )[i] == keys_held(self.section().held())[i]
    }

    /// An empty type section.
    pub fn new() -> (r: Self)
        ensures
            r.section_ok(),
            r.emitted() == 0,
            r.records().len() == 0,
            r.section().held() == Seq::<Entry>::empty(),
    {
        TypeInterner { records: Vec::new(), section: builder_new(SectionKind::Types), emitted: 0 }
    }

    /// The number of types that the type section holds.
    pub fn len(&self) -> (r: u32)
        ensures
            r == self.emitted(),
    {
        self.emitted
    }

    /// The index of the type with this key and signature, by its youngest
    /// record.
    pub fn find(&self, key: &[u8], func: &Option<FuncType>) -> (r: Option<u32>)
        ensures
            match r {
                Some(index) => exists|i: int|
                    self.youngest(key@, signature_view(*func), i) && (
                    #[trigger] self.records()[i]).index == index,
                None => !self.knows(key@, signature_view(*func)),
            },
    {
        let mut i: usize = self.records.len();
        while i > 0
            invariant
                i <= self.records.len(),
                forall|j: int|
                    i <= j < self.records().len() ==> !(#[trigger] self.records()[j]).matches_type(
                        key@,
                        signature_view(*func),
                    ),
            decreases i,
        {
            i = i - 1;
            let record = &self.records[i];
            if bytes_eq(record.key.as_slice(), key) && signatures_eq(&record.func, func) {
                assert(self.youngest(key@, signature_view(*func), i as int));
                return Some(record.index);
            }
        }
        None
    }

    /// The index of a type: the index that its youngest record gives, or,
    /// for a type without record, the next free index, at which the type is
    /// then written and recorded. Nothing is written when no index is free.
    pub fn new_ty(
        &mut self,
        types: &mut IndexMapper,
        func: Option<FuncType>,
        ty: &wasm_encoder::SubType,
    ) -> (r: Option<u32>)
        requires
            old(self).wf(old(types)),
        ensures
            final(self).wf(final(types)),
            old(self).kept_by(final(self)),
            final(types).mapping() == old(types).mapping(),
            match r {
                Some(index) => {
                    &&& index < final(self).emitted()
                    &&& final(self).knows(key_of(*ty), signature_view(func))
                    &&& func is Some ==> final(self).has_signature(index, func.unwrap()@)
                    &&& if old(self).knows(key_of(*ty), signature_view(func)) {
                        &&& *final(self) == *old(self)
                        &&& final(types).next() == old(types).next()
                        &&& exists|i: int|
                            old(self).youngest(key_of(*ty), signature_view(func), i) && (
                            #[trigger] old(self).records()[i]).index == index
                    } else {
                        &&& index == old(self).emitted()
                        &&& final(self).emitted() == old(self).emitted() + 1
                        &&& final(self).section().held() == old(self).section().held().push(
                            Entry::Single(key_of(*ty)),
                        )
                        &&& final(self).records() == old(self).records().push(
                            final(self).records().last(),
                        )
                        &&& final(self).records().last().matches_type(key_of(*ty), signature_view(func))
                        &&& final(self).records().last().index == index
                    }
                },
                None => {
                    &&& *final(self) == *old(self)
                    &&& *final(types) == *old(types)
                    &&& !old(self).knows(key_of(*ty), signature_view(func))
                    &&& old(types).next() == u32::MAX
                },
            },
    {
        let key = sub_type_key(ty);
        match self.find(key.as_slice(), &func) {
            Some(index) => {
                proof {
                    let i = choose|i: int|
                        self.youngest(key_of(*ty), signature_view(func), i) && (
                        #[trigger] self.records()[i]).index == index;
                    assert(self.records()[i].matches_type(key_of(*ty), signature_view(func)));
                }
                Some(index)
            },
            None => {
                if types.reserved() == u32::MAX {
                    return None;
                }
                let index: u32 = types.reserve();
                let ghost held = self.section.held();
                push_type(&mut self.section, ty);
                let ghost before = self.records@;
                self.records.push(HashableType { key, func, index });
                self.emitted = self.emitted + 1;
                proof {
                    let last = self.records@.len() - 1;
                    assert(self.records@[last].matches_type(key_of(*ty), signature_view(func)));
                    lemma_keys_held(held, Entry::Single(key_of(*ty)));
                    assert forall|i: int| 0 <= i < self.records().len() implies (
                    #[trigger] self.records()[i]).index < self.emitted() && keys_held(
                        self.section().held(),
                    )[self.records()[i].index as int] == self.records()[i].key@ by {
                        if i < last {
                            assert(self.records()[i] == before[i]);
                        }
                    }
                }
                Some(index)
            },
        }
    }

    /// Writes a recursion group at the next free indices and records every
    /// member. Returns the index of the first member. Nothing is written
    /// when the free indices do not suffice.
    pub fn new_rec_group(
        &mut self,
        types: &mut IndexMapper,
        funcs: Vec<Option<FuncType>>,
        group: Vec<wasm_encoder::SubType>,
    ) -> (r: Option<u32>)
        requires
            old(self).wf(old(types)),
            funcs@.len() == group@.len(),
        ensures
            final(self).wf(final(types)),
            old(self).kept_by(final(self)),
            final(types).mapping() == old(types).mapping(),
            match r {
                Some(base) => {
                    &&& base == old(self).emitted()
                    &&& final(self).emitted() == old(self).emitted() + group@.len()
                    &&& final(self).section().held() == old(self).section().held().push(
                        Entry::Group(keys_of(group@)),
                    )
                    &&& final(self).records().len() == old(self).records().len() + group@.len()
                    &&& forall|i: int|
                        0 <= i < group@.len() ==> {
                            let record = #[trigger] final(self).records()[old(self).records().len()
                                + i];
                            &&& record.index == base + i
                            &&& record.matches_type(key_of(group@[i]), signature_view(funcs@[i]))
                        }
                },
                None => {
                    &&& *final(self) == *old(self)
                    &&& *final(types) == *old(types)
                    &&& old(types).next() + group@.len() > u32::MAX
                },
            },
    {
        let count: usize = group.len();
        if count > (u32::MAX - types.reserved()) as usize {
            return None;
        }
        let mut keys: Vec<Vec<u8>> = Vec::new();
        let mut k: usize = 0;
        while k < count
            invariant
                count == group@.len(),
                k <= count,
                keys@.len() == k,
                forall|j: int| 0 <= j < k ==> (#[trigger] keys@[j])@ == key_of(group@[j]),
            decreases count - k,
        {
            keys.push(sub_type_key(&group[k]));
            k = k + 1;
        }
        let base: u32 = types.reserve_many(count as u32);
        let ghost held = self.section.held();
        let ghost members = group@;
        push_rec_group(&mut self.section, group);
        let ghost pushed = self.section;
        let ghost before = self.records@;
        let ghost all_keys = keys@;
        let ghost all_funcs = funcs@;
        let mut funcs = funcs;
        let mut reversed: Vec<HashableType> = Vec::new();
        while keys.len() > 0
            invariant
                self.emitted == base,
                self.section_ok(),
                self.section == pushed,
                types.next() == base + count,
                self.records@ == before,
                forall|k: int| 0 <= k < before.len() ==> (#[trigger] before[k]).index < base,
                keys@.len() == funcs@.len(),
                keys@.len() + reversed@.len() == count,
                count == all_keys.len(),
                all_funcs.len() == count,
                base + count <= u32::MAX,
                keys@ == all_keys.subrange(0, keys@.len() as int),
                funcs@ == all_funcs.subrange(0, funcs@.len() as int),
                forall|k: int|
                    0 <= k < reversed@.len() ==> {
                        let record = #[trigger] reversed@[k];
                        &&& record.index == base + (count - 1 - k)
                        &&& record.key@ == all_keys[count - 1 - k]@
                        &&& record.matches_type(
                            all_keys[count - 1 - k]@,
                            signature_view(all_funcs[count - 1 - k]),
                        )
                    },
            decreases keys.len(),
        {
            let at: usize = keys.len() - 1;
            let key = keys.pop().unwrap();
            let func = funcs.pop().unwrap();
            reversed.push(HashableType { key, func, index: base + at as u32 });
        }
        while reversed.len() > 0
            invariant
                self.emitted == base,
                self.section_ok(),
                self.section == pushed,
                types.next() == base + count,
                forall|k: int| 0 <= k < before.len() ==> (#[trigger] before[k]).index < base,
                count == all_keys.len(),
                all_funcs.len() == count,
                base + count <= u32::MAX,
                self.records@.len() + reversed@.len() == before.len() + count,
                self.records@.len() >= before.len(),
                forall|k: int| 0 <= k < before.len() ==> #[trigger] self.records@[k] == before[k],
                forall|k: int|
                    0 <= k < reversed@.len() ==> {
                        let record = #[trigger] reversed@[k];
                        &&& record.index == base + (count - 1 - k)
                        &&& record.key@ == all_keys[count - 1 - k]@
                        &&& record.matches_type(
                            all_keys[count - 1 - k]@,
                            signature_view(all_funcs[count - 1 - k]),
                        )
                    },
                forall|k: int|
                    before.len() <= k < self.records@.len() ==> {
                        let record = #[trigger] self.records@[k];
                        &&& record.index == base + (k - before.len())
                        &&& record.key@ == all_keys[k - before.len()]@
                        &&& record.matches_type(
                            all_keys[k - before.len()]@,
                            signature_view(all_funcs[k - before.len()]),
                        )
                    },
            decreases reversed.len(),
        {
            let record = reversed.pop().unwrap();
            self.records.push(record);
        }
        self.emitted = self.emitted + count as u32;
        proof {
            lemma_keys_held(held, Entry::Group(keys_of(members)));
            assert forall|i: int| 0 <= i < self.records().len() implies (
            #[trigger] self.records()[i]).index < self.emitted() && keys_held(
                self.section().held(),
            )[self.records()[i].index as int] == self.records()[i].key@ by {
                if i < before.len() {
                    assert(self.records()[i] == before[i]);
                } else {
                    assert(self.records@[i].index == base + (i - before.len()));
                    assert(self.records@[i].key@ == all_keys[i - before.len()]@);
                }
            }
            assert forall|i: int| 0 <= i < count implies {
                let record = #[trigger] self.records()[before.len() + i];
                &&& record.index == base + i
                &&& record.matches_type(key_of(members[i]), signature_view(all_funcs[i]))
            } by {
                let k = before.len() + i;
                assert(self.records@[k].index == base + (k - before.len()));
            }
        }
        Some(base)
    }

    /// Hands the type section over.
    pub fn into_section(self) -> (r: Builder)
        requires
            self.section_ok(),
        ensures
            r == self.section(),
            r.kind() == SectionKind::Types,
    {
        self.section
    }
}

} // verus!
