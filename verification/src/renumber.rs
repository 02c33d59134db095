//! Renumbering: which index of the output an index of the input becomes.
//!
//! Two tables renumber in this library. The weaver renumbers the module that
//! it weaves, through its four index mappers and its list of stripped
//! functions. The slab loader renumbers the slab, through four plain lists.
//! The encoder asks either of them through [`Renumber`].

use crate::error::{Failure, WeaveError};
use crate::indices::Indices;
use crate::types::{HeapKind, ValueType};
use vstd::prelude::*;

verus! {

/// The mathematical value of a renumbering.
pub struct IndexMaps {
    pub types: Map<u32, u32>,
    pub funcs: Map<u32, u32>,
    pub tables: Map<u32, u32>,
    pub globals: Map<u32, u32>,
    /// For each function index of the input, whether code may refer to the
    /// function.
    pub callable: Seq<bool>,
}

impl IndexMaps {
    /// The output index of a type, or why it has none.
    pub open spec fn type_index(self, ty: u32) -> Result<u32, WeaveError> {
        if self.types.contains_key(ty) {
            Ok(self.types[ty])
        } else {
            Err(WeaveError::TypeIndexOutOfBounds(ty))
        }
    }

    /// The output index of a function, or why it has none: a function that
    /// was stripped may not be referred to, and a function that the input
    /// does not have, or that no output index was reserved for, is out of
    /// bounds.
    pub open spec fn function_index(self, func: u32) -> Result<u32, WeaveError> {
        if func < self.callable.len() {
            if self.callable[func as int] {
                if self.funcs.contains_key(func) {
                    Ok(self.funcs[func])
                } else {
                    Err(WeaveError::FunctionIndexOutOfBounds(func))
                }
            } else {
                Err(WeaveError::UnexpectedMarkerFunctionCall(None))
            }
        } else {
            Err(WeaveError::FunctionIndexOutOfBounds(func))
        }
    }

    /// The output index of a table, or why it has none.
    pub open spec fn table_index(self, table: u32) -> Result<u32, WeaveError> {
        if self.tables.contains_key(table) {
            Ok(self.tables[table])
        } else {
            Err(WeaveError::TableIndexOutOfBounds(table))
        }
    }

    /// The output index of a global, or why it has none.
    pub open spec fn global_index(self, global: u32) -> Result<u32, WeaveError> {
        if self.globals.contains_key(global) {
            Ok(self.globals[global])
        } else {
            Err(WeaveError::GlobalIndexOutOfBounds(global))
        }
    }
}

impl IndexMaps {
    /// A value type with the type index that it names renumbered. A value
    /// type that names a type in a form that no index stands for cannot be
    /// renumbered.
    pub open spec fn val_type(self, ty: ValueType) -> Result<ValueType, Failure> {
        match ty {
            ValueType::Ref(r) => match r.heap_type {
                HeapKind::Canonical => Err(Failure::CanonicalizedHeapTypeReference),
                HeapKind::Concrete(i) => match self.type_index(i) {
                    Ok(target) => Ok(ty.with_type_ref(target)),
                    Err(e) => Err(Failure::UserError(e)),
                },
                HeapKind::Exact(i) => match self.type_index(i) {
                    Ok(target) => Ok(ty.with_type_ref(target)),
                    Err(e) => Err(Failure::UserError(e)),
                },
                HeapKind::Abstract { .. } => Ok(ty),
            },
            _ => Ok(ty),
        }
    }

    /// Every value type of the list can be renumbered.
    pub open spec fn val_types_ok(self, list: Seq<ValueType>) -> bool {
        forall|k: int| 0 <= k < list.len() ==> (#[trigger] self.val_type(list[k])) is Ok
    }

    /// The list with every value type renumbered.
    pub open spec fn val_types(self, list: Seq<ValueType>) -> Seq<ValueType> {
        Seq::new(list.len(), |k: int| self.val_type(list[k]).unwrap())
    }
}

/// A value type with the type index that it names renumbered.
pub fn renumber_val_type<T: Renumber>(ty: ValueType, renumber: &T) -> (r: Result<ValueType, Failure>)
    ensures
        r == renumber.maps().val_type(ty),
{
    match ty {
        ValueType::Ref(r) => match r.heap_type {
            HeapKind::Canonical => Err(Failure::CanonicalizedHeapTypeReference),
            HeapKind::Concrete(i) => match renumber.type_index(i) {
                Ok(target) => Ok(ty.retarget(target)),
                Err(e) => Err(Failure::UserError(e)),
            },
            HeapKind::Exact(i) => match renumber.type_index(i) {
                Ok(target) => Ok(ty.retarget(target)),
                Err(e) => Err(Failure::UserError(e)),
            },
            HeapKind::Abstract { .. } => Ok(ty),
        },
        _ => Ok(ty),
    }
}

/// A list of value types with every type index renumbered; the error of
/// the first value type that cannot be renumbered.
pub fn renumber_val_types<T: Renumber>(list: &Vec<ValueType>, renumber: &T) -> (r: Result<
    Vec<ValueType>,
    Failure,
>)
    ensures
        match r {
            Ok(out) => renumber.maps().val_types_ok(list@) && out@ == renumber.maps().val_types(
                list@,
            ),
            Err(e) => exists|k: int|
                0 <= k < list@.len() && #[trigger] renumber.maps().val_type(list@[k]) == Err::<
                    ValueType,
                    Failure,
                >(e) && renumber.maps().val_types_ok(list@.subrange(0, k)),
        },
{
    let mut out: Vec<ValueType> = Vec::new();
    let mut i: usize = 0;
    while i < list.len()
        invariant
            i <= list@.len(),
            out@.len() == i,
            forall|k: int|
                0 <= k < i ==> #[trigger] renumber.maps().val_type(list@[k]) == Ok::<
                    ValueType,
                    Failure,
                >(out@[k]),
        decreases list.len() - i,
    {
        match renumber_val_type(list[i], renumber) {
            Ok(ty) => {
                out.push(ty);
            },
            Err(e) => {
                proof {
                    let prefix = list@.subrange(0, i as int);
                    assert forall|k: int| 0 <= k < prefix.len() implies (
                    #[trigger] renumber.maps().val_type(prefix[k])) is Ok by {
                        assert(prefix[k] == list@[k]);
                    }
                }
                return Err(e);
            },
        }
        i = i + 1;
    }
    assert(out@ =~= renumber.maps().val_types(list@));
    Ok(out)
}

/// A renumbering that the encoder can ask.
pub trait Renumber {
    /// The renumbering as a mathematical value.
    spec fn maps(&self) -> IndexMaps;

    fn type_index(&self, ty: u32) -> (r: Result<u32, WeaveError>)
        ensures
            r == self.maps().type_index(ty),
    ;

    fn function_index(&self, func: u32) -> (r: Result<u32, WeaveError>)
        ensures
            r == self.maps().function_index(func),
    ;

    fn table_index(&self, table: u32) -> (r: Result<u32, WeaveError>)
        ensures
            r == self.maps().table_index(table),
    ;

    fn global_index(&self, global: u32) -> (r: Result<u32, WeaveError>)
        ensures
            r == self.maps().global_index(global),
    ;
}

/// The renumbering of the module that is woven.
pub struct Renumbering<'a> {
    pub indices: &'a Indices,
    /// For each function index of the input, whether code may refer to it.
    pub callable: &'a Vec<bool>,
}

impl<'a> Renumber for Renumbering<'a> {
    open spec fn maps(&self) -> IndexMaps {
        IndexMaps {
            types: self.indices.types.mapping(),
            funcs: self.indices.funcs.mapping(),
            tables: self.indices.tables.mapping(),
            globals: self.indices.globals.mapping(),
            callable: self.callable@,
        }
    }

    fn type_index(&self, ty: u32) -> (r: Result<u32, WeaveError>) {
        match self.indices.types.map(ty) {
            Some(target) => Ok(target),
            None => Err(WeaveError::TypeIndexOutOfBounds(ty)),
        }
    }

    fn function_index(&self, func: u32) -> (r: Result<u32, WeaveError>) {
        if (func as usize) < self.callable.len() {
            if self.callable[func as usize] {
                match self.indices.funcs.map(func) {
                    Some(target) => Ok(target),
                    None => Err(WeaveError::FunctionIndexOutOfBounds(func)),
                }
            } else {
                Err(WeaveError::UnexpectedMarkerFunctionCall(None))
            }
        } else {
            Err(WeaveError::FunctionIndexOutOfBounds(func))
        }
    }

    fn table_index(&self, table: u32) -> (r: Result<u32, WeaveError>) {
        match self.indices.tables.map(table) {
            Some(target) => Ok(target),
            None => Err(WeaveError::TableIndexOutOfBounds(table)),
        }
    }

    fn global_index(&self, global: u32) -> (r: Result<u32, WeaveError>) {
        match self.indices.globals.map(global) {
            Some(target) => Ok(target),
            None => Err(WeaveError::GlobalIndexOutOfBounds(global)),
        }
    }
}

/// The renumbering of a module whose entities all got consecutive places in
/// the output: the output index of each entity, by its index in the input.
pub struct DenseIndices {
    pub types: Vec<u32>,
    pub funcs: Vec<u32>,
    pub tables: Vec<u32>,
    pub globals: Vec<u32>,
}

/// A list of output indices as a map from input index to output index.
pub open spec fn dense_map(list: Seq<u32>) -> Map<u32, u32> {
    Map::new(|i: u32| i < list.len(), |i: u32| list[i as int])
}

/// The output index at position `index` of a list, if the list is that
/// long.
pub fn dense_get(list: &Vec<u32>, index: u32) -> (r: Option<u32>)
    ensures
        r == if dense_map(list@).contains_key(index) {
            Some(dense_map(list@)[index])
        } else {
            None::<u32>
        },
{
    if (index as usize) < list.len() {
        Some(list[index as usize])
    } else {
        None
    }
}

impl DenseIndices {
    /// A renumbering of nothing.
    pub fn new() -> (r: Self)
        ensures
            r.types@.len() == 0,
            r.funcs@.len() == 0,
            r.tables@.len() == 0,
            r.globals@.len() == 0,
    {
        DenseIndices { types: Vec::new(), funcs: Vec::new(), tables: Vec::new(), globals: Vec::new() }
    }
}

impl Renumber for DenseIndices {
    open spec fn maps(&self) -> IndexMaps {
        IndexMaps {
            types: dense_map(self.types@),
            funcs: dense_map(self.funcs@),
            tables: dense_map(self.tables@),
            globals: dense_map(self.globals@),
            callable: Seq::new(self.funcs@.len(), |i: int| true),
        }
    }

    fn type_index(&self, ty: u32) -> (r: Result<u32, WeaveError>) {
        match dense_get(&self.types, ty) {
            Some(target) => Ok(target),
            None => Err(WeaveError::TypeIndexOutOfBounds(ty)),
        }
    }

    fn function_index(&self, func: u32) -> (r: Result<u32, WeaveError>) {
        match dense_get(&self.funcs, func) {
            Some(target) => Ok(target),
            None => Err(WeaveError::FunctionIndexOutOfBounds(func)),
        }
    }

    fn table_index(&self, table: u32) -> (r: Result<u32, WeaveError>) {
        match dense_get(&self.tables, table) {
            Some(target) => Ok(target),
            None => Err(WeaveError::TableIndexOutOfBounds(table)),
        }
    }

    fn global_index(&self, global: u32) -> (r: Result<u32, WeaveError>) {
        match dense_get(&self.globals, global) {
            Some(target) => Ok(target),
            None => Err(WeaveError::GlobalIndexOutOfBounds(global)),
        }
    }
}

} // verus!
