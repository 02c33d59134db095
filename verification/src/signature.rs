//! The custom sections that describe how the parameters and results of a
//! function cross the boundary between guest and host.
//!
//! A section named `__signature.export.` and then the name of an export, or
//! `__signature.import.` and then the name of an import, holds one
//! four-byte tag for each parameter and then one for each result.

use crate::types::{metas_view, ValueTypeMeta};
use vstd::prelude::*;
use vstd::string::*;

verus! {

/// Names the function that a signature section describes.
#[derive(Debug)]
pub enum SignatureKey {
    Export(String),
    Import(String),
}

/// The mathematical value of a [`SignatureKey`].
pub enum SignatureKeyView {
    Export(Seq<char>),
    Import(Seq<char>),
}

impl View for SignatureKey {
    type V = SignatureKeyView;

    open spec fn view(&self) -> SignatureKeyView {
        match self {
            SignatureKey::Export(name) => SignatureKeyView::Export(name@),
            SignatureKey::Import(name) => SignatureKeyView::Import(name@),
        }
    }
}

impl SignatureKey {
    /// Whether two keys name the same function.
    pub fn same(&self, other: &SignatureKey) -> (r: bool)
        ensures
            r == (self@ == other@),
    {
        match self {
            SignatureKey::Export(a) => match other {
                SignatureKey::Export(b) => a.eq(b),
                SignatureKey::Import(_) => false,
            },
            SignatureKey::Import(a) => match other {
                SignatureKey::Export(_) => false,
                SignatureKey::Import(b) => a.eq(b),
            },
        }
    }

    /// The key of the export with this name.
    pub fn export(name: &str) -> (r: SignatureKey)
        ensures
            r@ == SignatureKeyView::Export(name@),
    {
        SignatureKey::Export(String::from_str(name))
    }
}

/// The tags of one function, parameters first.
#[derive(Debug)]
pub struct Signature {
    pub key: SignatureKey,
    pub metas: Vec<ValueTypeMeta>,
}

/// Whether `s` begins with `prefix`.
pub open spec fn has_prefix(s: Seq<char>, prefix: Seq<char>) -> bool {
    prefix.len() <= s.len() && s.subrange(0, prefix.len() as int) == prefix
}

/// The function that a custom section of this name describes: a section
/// named `__signature.export.` or `__signature.import.` and then the name of
/// the function. Any other section describes none.
pub open spec fn signature_key_of(name: Seq<char>) -> Option<SignatureKeyView> {
    if has_prefix(name, "__signature.export."@) {
        Some(SignatureKeyView::Export(name.skip("__signature.export."@.len() as int)))
    } else if has_prefix(name, "__signature.import."@) {
        Some(SignatureKeyView::Import(name.skip("__signature.import."@.len() as int)))
    } else {
        None
    }
}

/// Whether `s` begins with `prefix`.
pub fn starts_with(s: &str, prefix: &str) -> (r: bool)
    ensures
        r == has_prefix(s@, prefix@),
{
    let n: usize = prefix.unicode_len();
    if n > s.unicode_len() {
        return false;
    }
    let mut i: usize = 0;
    while i < n
        invariant
            n == prefix@.len(),
            n <= s@.len(),
            i <= n,
            s@.subrange(0, i as int) == prefix@.subrange(0, i as int),
        decreases n - i,
    {
        if s.get_char(i) != prefix.get_char(i) {
            assert(s@.subrange(0, n as int)[i as int] != prefix@[i as int]);
            return false;
        }
        assert(s@.subrange(0, i + 1) == s@.subrange(0, i as int).push(s@[i as int]));
        assert(prefix@.subrange(0, i + 1) == prefix@.subrange(0, i as int).push(prefix@[i as int]));
        i = i + 1;
    }
    assert(prefix@.subrange(0, n as int) == prefix@);
    true
}

/// The function that a custom section of this name describes, if it
/// describes one.
pub fn signature_key(name: &str) -> (r: Option<SignatureKey>)
    ensures
        match r {
            Some(key) => signature_key_of(name@) == Some(key@),
            None => signature_key_of(name@) is None,
        },
{
    if starts_with(name, "__signature.export.") {
        let from: usize = "__signature.export.".unicode_len();
        let symbol = name.substring_char(from, name.unicode_len());
        assert(symbol@ == name@.skip(from as int));
        Some(SignatureKey::Export(String::from_str(symbol)))
    } else if starts_with(name, "__signature.import.") {
        let from: usize = "__signature.import.".unicode_len();
        let symbol = name.substring_char(from, name.unicode_len());
        assert(symbol@ == name@.skip(from as int));
        Some(SignatureKey::Import(String::from_str(symbol)))
    } else {
        None
    }
}

/// The signatures of a module, at most one for each function.
#[derive(Debug)]
pub struct SignatureTable {
    entries: Vec<Signature>,
}

impl SignatureTable {
    /// The recorded signatures, in the order in which their functions were
    /// first described.
    pub closed spec fn entries(&self) -> Seq<Signature> {
        self.entries@
    }

    /// No function has two signatures.
    pub open spec fn wf(&self) -> bool {
        forall|i: int, j: int|
            #![trigger self.entries()[i], self.entries()[j]]
            0 <= i < j < self.entries().len() ==> self.entries()[i].key@ != self.entries()[j].key@
    }

    /// Whether `i` is where the signature of `key` stands.
    pub open spec fn at(&self, key: SignatureKeyView, i: int) -> bool {
        0 <= i < self.entries().len() && self.entries()[i].key@ == key
    }

    /// The function that `key` names has a signature.
    pub open spec fn contains(&self, key: SignatureKeyView) -> bool {
        exists|i: int| self.at(key, i)
    }

    /// Where the signature of `key` stands.
    pub open spec fn position(&self, key: SignatureKeyView) -> int {
        choose|i: int| self.at(key, i)
    }

    /// The tags of the function that `key` names.
    pub open spec fn metas(&self, key: SignatureKeyView) -> Seq<ValueTypeMeta> {
        self.entries()[self.position(key)].metas@
    }

    /// The tags of the function that `key` names, as byte strings, if the
    /// function has a signature.
    pub open spec fn tags(&self, key: SignatureKeyView) -> Option<Seq<Seq<u8>>> {
        if self.contains(key) {
            Some(metas_view(self.metas(key)))
        } else {
            None
        }
    }

    /// In a well-formed table a key stands at one position only.
    pub proof fn lemma_position_unique(&self, key: SignatureKeyView, i: int)
        requires
            self.wf(),
            self.at(key, i),
        ensures
            self.contains(key),
            self.position(key) == i,
    {
        let p = self.position(key);
        assert(self.at(key, p));
        if p < i {
            assert(self.entries()[p].key@ != self.entries()[i].key@);
        } else if i < p {
            assert(self.entries()[i].key@ != self.entries()[p].key@);
        }
    }

    /// A table without signatures.
    pub fn new() -> (r: Self)
        ensures
            r.wf(),
            r.entries().len() == 0,
            forall|key: SignatureKeyView| !r.contains(key),
    {
        SignatureTable { entries: Vec::new() }
    }

    /// The number of functions that have a signature.
    pub fn len(&self) -> (r: usize)
        ensures
            r == self.entries().len(),
    {
        self.entries.len()
    }

    /// The signature at position `i`.
    pub fn entry(&self, i: usize) -> (r: &Signature)
        requires
            i < self.entries().len(),
        ensures
            *r == self.entries()[i as int],
    {
        &self.entries[i]
    }

    /// The tags of the function that `key` names, if it has a signature.
    pub fn get(&self, key: &SignatureKey) -> (r: Option<&Vec<ValueTypeMeta>>)
        requires
            self.wf(),
        ensures
            match r {
                Some(metas) => self.contains(key@) && metas@ == self.metas(key@),
                None => !self.contains(key@),
            },
    {
        let mut i: usize = 0;
        while i < self.entries.len()
            invariant
                self.wf(),
                i <= self.entries.len(),
                forall|j: int| 0 <= j < i ==> !self.at(key@, j),
            decreases self.entries.len() - i,
        {
            if self.entries[i].key.same(key) {
                proof {
                    assert(self.at(key@, i as int));
                    self.lemma_position_unique(key@, i as int);
                }
                return Some(&self.entries[i].metas);
            }
            i = i + 1;
        }
        None
    }

    /// Gives the function that `key` names these tags, in place of what was
    /// recorded for it before. No other function's tags change.
    pub fn insert(&mut self, key: SignatureKey, metas: Vec<ValueTypeMeta>)
        requires
            old(self).wf(),
        ensures
            final(self).wf(),
            final(self).contains(key@),
            final(self).metas(key@) == metas@,
            forall|other: SignatureKeyView|
                other != key@ ==> (#[trigger] final(self).contains(other)) == old(self).contains(
                    other,
                ),
            forall|other: SignatureKeyView|
                other != key@ && old(self).contains(other) ==> #[trigger] final(self).metas(other)
                    == old(self).metas(other),
    {
        let ghost before = *self;
        let ghost k = key@;
        let ghost m = metas@;
        let mut i: usize = 0;
        while i < self.entries.len() && !self.entries[i].key.same(&key)
            invariant
                *self == before,
                i <= self.entries.len(),
                forall|j: int| 0 <= j < i ==> !self.at(k, j),
                key@ == k,
            decreases self.entries.len() - i,
        {
            i = i + 1;
        }
        let found: Option<usize> = if i < self.entries.len() {
            Some(i)
        } else {
            None
        };
        match found {
            Some(at) => {
                assert(before.at(k, at as int));
                self.entries.set(at, Signature { key, metas });
                proof {
                    let after = *self;
                    assert forall|a: int| 0 <= a < after.entries().len() implies (
                    #[trigger] after.entries()[a]).key@ == before.entries()[a].key@ by {}
                    assert(after.wf()) by {
                        assert forall|a: int, b: int|
                            #![trigger after.entries()[a], after.entries()[b]]
                            0 <= a < b < after.entries().len() implies after.entries()[a].key@
                            != after.entries()[b].key@ by {
                            assert(before.entries()[a].key@ != before.entries()[b].key@);
                        }
                    }
                    assert(after.at(k, at as int));
                    after.lemma_position_unique(k, at as int);
                    assert forall|other: SignatureKeyView| other != k implies (
                    #[trigger] after.contains(other)) == before.contains(other) by {
                        if before.contains(other) {
                            let p = before.position(other);
                            assert(before.at(other, p));
                            assert(after.at(other, p));
                        }
                        if after.contains(other) {
                            let p = after.position(other);
                            assert(after.at(other, p));
                            assert(before.at(other, p));
                        }
                    }
                    assert forall|other: SignatureKeyView|
                        other != k && before.contains(other) implies #[trigger] after.metas(other)
                        == before.metas(other) by {
                        let p = before.position(other);
                        assert(before.at(other, p));
                        assert(p != at);
                        assert(after.at(other, p));
                        after.lemma_position_unique(other, p);
                        assert(after.entries()[p] == before.entries()[p]);
                    }
                }
            },
            None => {
                self.entries.push(Signature { key, metas });
                proof {
                    let after = *self;
                    let n = before.entries().len() as int;
                    assert forall|a: int| 0 <= a < n implies #[trigger] after.entries()[a]
                        == before.entries()[a] by {}
                    assert(after.wf()) by {
                        assert forall|a: int, b: int|
                            #![trigger after.entries()[a], after.entries()[b]]
                            0 <= a < b < after.entries().len() implies after.entries()[a].key@
                            != after.entries()[b].key@ by {
                            if b < n {
                                assert(before.entries()[a].key@ != before.entries()[b].key@);
                            } else {
                                assert(!before.at(k, a));
                            }
                        }
                    }
                    assert(after.at(k, n));
                    after.lemma_position_unique(k, n);
                    assert forall|other: SignatureKeyView| other != k implies (
                    #[trigger] after.contains(other)) == before.contains(other) by {
                        if before.contains(other) {
                            let p = before.position(other);
                            assert(before.at(other, p));
                            assert(after.at(other, p));
                        }
                        if after.contains(other) {
                            let p = after.position(other);
                            assert(after.at(other, p));
                            assert(before.at(other, p));
                        }
                    }
                    assert forall|other: SignatureKeyView|
                        other != k && before.contains(other) implies #[trigger] after.metas(other)
                        == before.metas(other) by {
                        let p = before.position(other);
                        assert(before.at(other, p));
                        assert(after.at(other, p));
                        after.lemma_position_unique(other, p);
                    }
                }
            },
        }
    }

    /// Records what a custom section says. A section named
    /// `__signature.export.` or `__signature.import.` and then the name of
    /// a function, with a payload of whole four-byte tags, gives that
    /// function its tags. Any other section leaves the table as it is.
    /// Tells whether the section gave a function its tags.
    pub fn record(&mut self, name: &str, payload: &[u8]) -> (r: bool)
        requires
            old(self).wf(),
        ensures
            final(self).wf(),
            r == (signature_key_of(name@) is Some && ValueTypeMeta::spec_from_bytes(payload@)
                is Some),
            match (signature_key_of(name@), ValueTypeMeta::spec_from_bytes(payload@)) {
                (Some(key), Some(tags)) => {
                    &&& final(self).tags(key) == Some(tags)
                    &&& forall|other: SignatureKeyView|
                        other != key ==> #[trigger] final(self).tags(other) == old(self).tags(
                            other,
                        )
                },
                _ => *final(self) == *old(self),
            },
    {
        let key = match signature_key(name) {
            Some(key) => key,
            None => {
                return false;
            },
        };
        let metas = match ValueTypeMeta::cast_from_slice(payload) {
            Some(metas) => metas,
            None => {
                return false;
            },
        };
        self.insert(key, metas);
        true
    }
}

} // verus!
