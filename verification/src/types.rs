//! The value types of WebAssembly, as far as the weaver reads them, and the
//! four-byte tags that describe how a parameter or result crosses the
//! boundary between guest and host.

use vstd::prelude::*;

verus! {

/// A heap type without a type index.
#[derive(Clone, Copy, Debug, PartialEq, Eq, Structural)]
pub enum AbstractHeap {
    Func,
    Extern,
    Any,
    Bottom,
    NoExtern,
    NoFunc,
    Equatable,
    Struct,
    Array,
    I31,
    Exn,
    NoExn,
    Cont,
    NoCont,
}

/// What a reference points to.
#[derive(Clone, Copy, Debug, PartialEq, Eq, Structural)]
pub enum HeapKind {
    Abstract { shared: bool, ty: AbstractHeap },
    /// A type of the module, by its index.
    Concrete(u32),
    /// Exactly the type with this index, none of its subtypes.
    Exact(u32),
    /// A type that is named in a form that no index of the module stands for.
    Canonical,
}

/// A reference type.
#[derive(Clone, Copy, Debug, PartialEq, Eq, Structural)]
pub struct RefType {
    pub nullable: bool,
    pub heap_type: HeapKind,
}

/// The type of a parameter, a result or a local.
#[derive(Clone, Copy, Debug, PartialEq, Eq, Structural)]
pub enum ValueType {
    I32,
    I64,
    F32,
    F64,
    V128,
    Ref(RefType),
}

impl ValueType {
    /// The nullable reference to a host object, `externref`.
    pub open spec fn spec_externref() -> ValueType {
        ValueType::Ref(
            RefType {
                nullable: true,
                heap_type: HeapKind::Abstract { shared: false, ty: AbstractHeap::Extern },
            },
        )
    }

    /// The nullable reference to a host object, `externref`.
    #[verifier::when_used_as_spec(spec_externref)]
    pub fn externref() -> (r: ValueType)
        ensures
            r == ValueType::spec_externref(),
    {
        ValueType::Ref(
            RefType {
                nullable: true,
                heap_type: HeapKind::Abstract { shared: false, ty: AbstractHeap::Extern },
            },
        )
    }

    /// The type index that this value type names, if it names one.
    pub open spec fn type_ref(self) -> Option<u32> {
        match self {
            ValueType::Ref(r) => match r.heap_type {
                HeapKind::Concrete(i) => Some(i),
                HeapKind::Exact(i) => Some(i),
                HeapKind::Abstract { .. } | HeapKind::Canonical => None,
            },
            _ => None,
        }
    }

    /// This value type with the type index that it names replaced by
    /// `target`; a value type that names none is returned unchanged.
    pub open spec fn with_type_ref(self, target: u32) -> ValueType {
        match self {
            ValueType::Ref(r) => match r.heap_type {
                HeapKind::Concrete(_) => ValueType::Ref(
                    RefType { nullable: r.nullable, heap_type: HeapKind::Concrete(target) },
                ),
                HeapKind::Exact(_) => ValueType::Ref(
                    RefType { nullable: r.nullable, heap_type: HeapKind::Exact(target) },
                ),
                HeapKind::Abstract { .. } | HeapKind::Canonical => self,
            },
            _ => self,
        }
    }

    /// Replaces the type index that this value type names.
    pub fn retarget(&self, target: u32) -> (r: ValueType)
        ensures
            r == self.with_type_ref(target),
    {
        match self {
            ValueType::Ref(r) => match r.heap_type {
                HeapKind::Concrete(_) => ValueType::Ref(
                    RefType { nullable: r.nullable, heap_type: HeapKind::Concrete(target) },
                ),
                HeapKind::Exact(_) => ValueType::Ref(
                    RefType { nullable: r.nullable, heap_type: HeapKind::Exact(target) },
                ),
                HeapKind::Abstract { .. } | HeapKind::Canonical => *self,
            },
            _ => *self,
        }
    }

    /// Whether this is the 32-bit integer type.
    pub fn is_i32(&self) -> (r: bool)
        ensures
            r == (*self == ValueType::I32),
    {
        match self {
            ValueType::I32 => true,
            _ => false,
        }
    }
}

/// The signature of a function: its parameters, then its results.
#[derive(Clone, Debug)]
pub struct FuncType {
    pub params: Vec<ValueType>,
    pub results: Vec<ValueType>,
}

/// The mathematical value of a [`FuncType`].
pub struct FuncTypeView {
    pub params: Seq<ValueType>,
    pub results: Seq<ValueType>,
}

impl View for FuncType {
    type V = FuncTypeView;

    open spec fn view(&self) -> FuncTypeView {
        FuncTypeView { params: self.params@, results: self.results@ }
    }
}

impl FuncType {
    /// A signature with the given parameters and results.
    pub fn new(params: Vec<ValueType>, results: Vec<ValueType>) -> (r: Self)
        ensures
            r@.params == params@,
            r@.results == results@,
    {
        FuncType { params, results }
    }

    pub fn params(&self) -> (r: &Vec<ValueType>)
        ensures
            r@ == self@.params,
    {
        &self.params
    }

    pub fn results(&self) -> (r: &Vec<ValueType>)
        ensures
            r@ == self@.results,
    {
        &self.results
    }
}

/// A copy of a list of value types.
pub fn copy_val_types(list: &Vec<ValueType>) -> (r: Vec<ValueType>)
    ensures
        r@ == list@,
{
    let mut out: Vec<ValueType> = Vec::new();
    let mut i: usize = 0;
    while i < list.len()
        invariant
            i <= list.len(),
            out@ == list@.subrange(0, i as int),
        decreases list.len() - i,
    {
        out.push(list[i]);
        i = i + 1;
    }
    out
}

/// Whether two byte strings are equal.
pub fn bytes_eq(a: &[u8], b: &[u8]) -> (r: bool)
    ensures
        r == (a@ == b@),
{
    if a.len() != b.len() {
        return false;
    }
    let mut i: usize = 0;
    while i < a.len()
        invariant
            a.len() == b.len(),
            i <= a.len(),
            a@.subrange(0, i as int) == b@.subrange(0, i as int),
        decreases a.len() - i,
    {
        if a[i] != b[i] {
            assert(a@[i as int] != b@[i as int]);
            return false;
        }
        assert(a@.subrange(0, i + 1) == a@.subrange(0, i as int).push(a@[i as int]));
        assert(b@.subrange(0, i + 1) == b@.subrange(0, i as int).push(b@[i as int]));
        i = i + 1;
    }
    assert(a@ == a@.subrange(0, a.len() as int));
    assert(b@ == b@.subrange(0, b.len() as int));
    true
}

/// How one parameter or result of an exported function crosses the boundary
/// between guest and host: four bytes, of which three values are known.
#[derive(Clone, Copy, Debug)]
pub struct ValueTypeMeta {
    pub tag: [u8; 4],
}

/// What a [`ValueTypeMeta`] asks for.
#[derive(Clone, Copy, Debug, PartialEq, Eq, Structural)]
pub enum MetaKind {
    /// The value crosses the boundary as it is.
    Plain,
    /// The guest holds a slot number that owns a host reference.
    ExternrefOwned,
    /// The guest holds a slot number that borrows a host reference.
    ExternrefRef,
    /// None of the known tags.
    Unknown,
}

impl View for ValueTypeMeta {
    type V = Seq<u8>;

    open spec fn view(&self) -> Seq<u8> {
        self.tag@
    }
}

impl ValueTypeMeta {
    pub open spec fn spec_none() -> Seq<u8> {
        seq![0u8, 0u8, 0u8, 0u8]
    }

    /// The bytes of `EXRo`.
    pub open spec fn spec_externref_owned() -> Seq<u8> {
        seq![0x45u8, 0x58u8, 0x52u8, 0x6fu8]
    }

    /// The bytes of `EXRr`.
    pub open spec fn spec_externref_ref() -> Seq<u8> {
        seq![0x45u8, 0x58u8, 0x52u8, 0x72u8]
    }

    /// What a tag with these four bytes asks for.
    pub open spec fn kind_of(tag: Seq<u8>) -> MetaKind {
        if tag == Self::spec_none() {
            MetaKind::Plain
        } else if tag == Self::spec_externref_owned() {
            MetaKind::ExternrefOwned
        } else if tag == Self::spec_externref_ref() {
            MetaKind::ExternrefRef
        } else {
            MetaKind::Unknown
        }
    }

    /// What this tag asks for.
    pub open spec fn spec_kind(&self) -> MetaKind {
        Self::kind_of(self@)
    }

    /// The tag of a value that crosses the boundary as it is.
    pub fn none() -> (r: Self)
        ensures
            r@ == Self::spec_none(),
    {
        let r = ValueTypeMeta { tag: [0u8, 0u8, 0u8, 0u8] };
        assert(r.tag@ =~= Self::spec_none());
        r
    }

    /// The tag `EXRo` of an owned host reference.
    pub fn externref_owned() -> (r: Self)
        ensures
            r@ == Self::spec_externref_owned(),
    {
        let r = ValueTypeMeta { tag: [0x45u8, 0x58u8, 0x52u8, 0x6fu8] };
        assert(r.tag@ =~= Self::spec_externref_owned());
        r
    }

    /// The tag `EXRr` of a borrowed host reference.
    pub fn externref_ref() -> (r: Self)
        ensures
            r@ == Self::spec_externref_ref(),
    {
        let r = ValueTypeMeta { tag: [0x45u8, 0x58u8, 0x52u8, 0x72u8] };
        assert(r.tag@ =~= Self::spec_externref_ref());
        r
    }

    /// What this tag asks for.
    #[verifier::when_used_as_spec(spec_kind)]
    pub fn kind(&self) -> (r: MetaKind)
        ensures
            r == self.spec_kind(),
    {
        let t = &self.tag;
        assert(self@.len() == 4);
        if t[0] == 0 && t[1] == 0 && t[2] == 0 && t[3] == 0 {
            assert(self@ =~= Self::spec_none());
            MetaKind::Plain
        } else if t[0] == 0x45 && t[1] == 0x58 && t[2] == 0x52 && t[3] == 0x6f {
            assert(self@ =~= Self::spec_externref_owned());
            MetaKind::ExternrefOwned
        } else if t[0] == 0x45 && t[1] == 0x58 && t[2] == 0x52 && t[3] == 0x72 {
            assert(self@ =~= Self::spec_externref_ref());
            MetaKind::ExternrefRef
        } else {
            assert(Self::spec_none()[0] == 0 && Self::spec_none()[1] == 0 && Self::spec_none()[2]
                == 0 && Self::spec_none()[3] == 0);
            assert(Self::spec_externref_owned()[0] == 0x45 && Self::spec_externref_owned()[1]
                == 0x58 && Self::spec_externref_owned()[2] == 0x52
                && Self::spec_externref_owned()[3] == 0x6f);
            assert(Self::spec_externref_ref()[0] == 0x45 && Self::spec_externref_ref()[1] == 0x58
                && Self::spec_externref_ref()[2] == 0x52 && Self::spec_externref_ref()[3]
                == 0x72);
            MetaKind::Unknown
        }
    }

    /// Whether two tags hold the same bytes.
    pub fn same(&self, other: &ValueTypeMeta) -> (r: bool)
        ensures
            r == (self@ == other@),
    {
        let a = &self.tag;
        let b = &other.tag;
        assert(self@.len() == 4 && other@.len() == 4);
        let r = a[0] == b[0] && a[1] == b[1] && a[2] == b[2] && a[3] == b[3];
        if r {
            assert(self@ =~= other@);
        }
        r
    }

    /// The tags that a byte string holds, four bytes each, in order. A byte
    /// string whose length is no multiple of four holds no tags.
    pub open spec fn spec_from_bytes(bytes: Seq<u8>) -> Option<Seq<Seq<u8>>> {
        if bytes.len() % 4 == 0 {
            Some(Seq::new((bytes.len() / 4) as nat, |i: int| bytes.subrange(4 * i, 4 * i + 4)))
        } else {
            None
        }
    }

    /// Reads a byte string as a sequence of tags.
    pub fn cast_from_slice(bytes: &[u8]) -> (r: Option<Vec<ValueTypeMeta>>)
        ensures
            match (r, Self::spec_from_bytes(bytes@)) {
                (Some(v), Some(s)) => metas_view(v@) == s,
                (None, None) => true,
                _ => false,
            },
    {
        if bytes.len() % 4 != 0 {
            return None;
        }
        let n: usize = bytes.len() / 4;
        let mut out: Vec<ValueTypeMeta> = Vec::new();
        let mut i: usize = 0;
        while i < n
            invariant
                n == bytes.len() / 4,
                bytes.len() % 4 == 0,
                i <= n,
                out.len() == i,
                forall|k: int| 0 <= k < i ==> (#[trigger] out@[k])@ == bytes@.subrange(4 * k, 4 * k + 4),
            decreases n - i,
        {
            let m = ValueTypeMeta {
                tag: [bytes[4 * i], bytes[4 * i + 1], bytes[4 * i + 2], bytes[4 * i + 3]],
            };
            assert(m@ =~= bytes@.subrange(4 * i, 4 * i + 4));
            out.push(m);
            i = i + 1;
        }
        assert(metas_view(out@) =~= Self::spec_from_bytes(bytes@).unwrap());
        Some(out)
    }
}

/// The byte strings of a sequence of tags.
pub open spec fn metas_view(metas: Seq<ValueTypeMeta>) -> Seq<Seq<u8>> {
    Seq::new(metas.len(), |i: int| metas[i]@)
}

} // verus!
