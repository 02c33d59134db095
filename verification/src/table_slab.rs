//! The slab: an auxiliary module that keeps host references in a table and
//! hands out slot numbers for them. The slab is merged into the module
//! that is woven, and the woven code calls its functions.

use crate::encoder::Instr;
use crate::error::WeaveError;
use crate::indices::Indices;
use vstd::prelude::*;
use vstd::string::*;

verus! {

/// Where the functions and the table of the slab stand in the output.
#[derive(Clone, Copy, Debug)]
pub struct TableSlabApi {
    pub alloc_fn: u32,
    pub free_fn: u32,
    pub take_fn: u32,
    pub items_table: u32,
}

impl TableSlabApi {
    /// The functions and the table of the slab stand at indices that were
    /// handed out.
    pub open spec fn wf(&self, indices: &Indices) -> bool {
        &&& self.alloc_fn < indices.funcs.next()
        &&& self.free_fn < indices.funcs.next()
        &&& self.take_fn < indices.funcs.next()
        &&& self.items_table < indices.tables.next()
    }

    /// The call that puts a host reference into a fresh slot.
    pub fn alloc_extern(&self) -> (r: Instr)
        ensures
            r == Instr::Call(self.alloc_fn),
    {
        Instr::Call(self.alloc_fn)
    }

    /// The call that gives a slot up.
    pub fn free(&self) -> (r: Instr)
        ensures
            r == Instr::Call(self.free_fn),
    {
        Instr::Call(self.free_fn)
    }

    /// The call that takes a host reference out of its slot.
    pub fn take_extern(&self) -> (r: Instr)
        ensures
            r == Instr::Call(self.take_fn),
    {
        Instr::Call(self.take_fn)
    }

    /// The two instructions that read the host reference of a slot and
    /// leave the slot as it is.
    pub fn get_extern(&self) -> (r: [Instr; 2])
        ensures
            r@ == seq![Instr::TableGet(self.items_table), Instr::ExternConvertAny],
    {
        let r = [Instr::TableGet(self.items_table), Instr::ExternConvertAny];
        assert(r@ =~= seq![Instr::TableGet(self.items_table), Instr::ExternConvertAny]);
        r
    }

    /// Binds an import of the slab's namespace to what the slab offers
    /// under its name. The slab offers the function `free`; any other
    /// import is an error.
    pub fn map_import(&self, indices: &mut Indices, index: u32, is_function: bool, name: &str) -> (r:
        Result<(), WeaveError>)
        requires
            old(indices).wf(),
            self.wf(old(indices)),
            !old(indices).funcs.mapping().contains_key(index),
        ensures
            final(indices).wf(),
            self.wf(final(indices)),
            final(indices).types == old(indices).types,
            final(indices).tables == old(indices).tables,
            final(indices).globals == old(indices).globals,
            final(indices).funcs.next() == old(indices).funcs.next(),
            if is_function && name@ == "free"@ {
                &&& r is Ok
                &&& final(indices).funcs.mapping() == old(indices).funcs.mapping().insert(
                    index,
                    self.free_fn,
                )
            } else {
                &&& r matches Err(WeaveError::ImportNotFound(found)) && found@ == name@
                &&& final(indices).funcs == old(indices).funcs
            },
    {
        if is_function && str_eq(name, "free") {
            let ghost before = indices.funcs;
            indices.funcs.add_mapping(index, self.free_fn);
            proof {
                crate::indices::IndexMapper::lemma_bind_keeps(
                    before,
                    indices.funcs,
                    index,
                    self.free_fn,
                );
            }
            Ok(())
        } else {
            Err(WeaveError::ImportNotFound(String::from_str(name)))
        }
    }
}

/// Whether two strings are equal.
pub fn str_eq(a: &str, b: &str) -> (r: bool)
    ensures
        r == (a@ == b@),
{
    let n: usize = a.unicode_len();
    if n != b.unicode_len() {
        return false;
    }
    let mut i: usize = 0;
    while i < n
        invariant
            n == a@.len(),
            n == b@.len(),
            i <= n,
            a@.subrange(0, i as int) == b@.subrange(0, i as int),
        decreases n - i,
    {
        if a.get_char(i) != b.get_char(i) {
            assert(a@[i as int] != b@[i as int]);
            return false;
        }
        assert(a@.subrange(0, i + 1) == a@.subrange(0, i as int).push(a@[i as int]));
        assert(b@.subrange(0, i + 1) == b@.subrange(0, i as int).push(b@[i as int]));
        i = i + 1;
    }
    assert(a@ == a@.subrange(0, n as int));
    assert(b@ == b@.subrange(0, n as int));
    true
}

} // verus!
