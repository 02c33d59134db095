//! Writing function bodies: every instruction of a body is read, looked at
//! and written anew, and the body of an exported function whose tags ask
//! for it is wrapped in a block between a prologue and an epilogue.

use crate::body::{
    depth_after, depth_at, epilogue, instruction, prologue, step_of, SlabUse, Step,
};
use crate::encoder::{encode_operator, operator_encoded, Instr};
use crate::error::{Failure, ReadError, WeaveError};
use crate::parse::Span;
use crate::reader::{
    function_of, named_function, body_reads, kind_of, kinds_at, kinds_of, locals_read, operator_kind, operators_end_then_eof,
    operators_eof, operators_left, operators_read, operators_reader, ops_at, ops_left, read_locals,
    reads_on, OpKind,
};
use wasmparser::Operator;
use crate::renumber::{renumber_val_types, IndexMaps, Renumber, Renumbering};
use crate::sections::FunctionOut;
use crate::types::ValueType;
use crate::weaver::Weaver;
use std::collections::HashMap;
use vstd::prelude::*;
use vstd::string::*;

verus! {

/// Whether `instr` is what the step asks for: the instruction that the
/// step names, a call of what the called function became, or, for an
/// instruction that is encoded anew, any encoded instruction.
pub open spec fn instr_for(instr: Instr, step: Step, maps: IndexMaps) -> bool {
    match step {
        Step::Return => instr == Instr::Return,
        Step::Br(depth) => instr == Instr::Br(depth),
        Step::Call(f) => instr matches Instr::Call(target) && maps.function_index(f) == Ok::<
            u32,
            WeaveError,
        >(target),
        Step::LocalGet(i) => instr == Instr::LocalGet(i),
        Step::LocalSet(i) => instr == Instr::LocalSet(i),
        Step::LocalTee(i) => instr == Instr::LocalTee(i),
        Step::Reencode => instr is Raw,
    }
}

/// The instructions `middle` are what becomes of a body whose
/// instructions are of the given kinds, one for one.
pub open spec fn follows(
    middle: Seq<Instr>,
    kinds: Seq<OpKind>,
    marker: Option<u32>,
    wrapped: bool,
    map: Map<u32, u32>,
    maps: IndexMaps,
) -> bool {
    &&& middle.len() == kinds.len()
    &&& forall|k: int| 0 <= k < kinds.len() ==> #[trigger] depth_at(kinds, k) <= u32::MAX
    &&& forall|k: int|
        0 <= k < kinds.len() ==> instr_for(
            #[trigger] middle[k],
            step_of(kinds[k], marker, wrapped, depth_at(kinds, k) as u32, map),
            maps,
        )
}

/// The renumbering `later` binds what `maps` binds, to the same targets,
/// and lets code refer to the same functions.
pub open spec fn maps_extended(maps: IndexMaps, later: IndexMaps) -> bool {
    &&& crate::persist::map_extended(maps.types, later.types)
    &&& crate::persist::map_extended(maps.funcs, later.funcs)
    &&& crate::persist::map_extended(maps.tables, later.tables)
    &&& crate::persist::map_extended(maps.globals, later.globals)
    &&& maps.callable == later.callable
}

/// `bytes` are what the encoder made of the instruction `op` with the
/// indices of `later`, as far as they were bound when it was written.
pub open spec fn op_written(op: Operator<'static>, bytes: Seq<u8>, later: IndexMaps) -> bool {
    exists|maps: IndexMaps| #[trigger]
        maps_extended(maps, later) && operator_encoded(op, maps) == Ok::<Seq<u8>, Failure>(bytes)
}

/// The function that the instruction names, where it is a `return_call`
/// or a `ref.func`, has an index in the output, and code may refer to it.
pub open spec fn names_bound(op: Operator<'static>, later: IndexMaps) -> bool {
    function_of(op) matches Some(f) ==> later.function_index(f) is Ok
}

/// Every instruction of `middle` that is encoded anew is what the encoder
/// made of the instruction of the body that stands at the same place,
/// and names no function that has no index in the output.
pub open spec fn copied(middle: Seq<Instr>, ops: Seq<Operator<'static>>, later: IndexMaps) -> bool {
    forall|k: int|
        0 <= k < middle.len() && k < ops.len() ==> ((#[trigger] middle[k]) matches Instr::Raw(
            bytes,
        ) ==> op_written(ops[k], bytes@, later) && names_bound(ops[k], later))
}

/// What was written with one renumbering was written with every
/// renumbering that extends it.
pub proof fn lemma_copied_stays(
    middle: Seq<Instr>,
    ops: Seq<Operator<'static>>,
    before: IndexMaps,
    after: IndexMaps,
)
    requires
        copied(middle, ops, before),
        maps_extended(before, after),
    ensures
        copied(middle, ops, after),
{
    assert forall|k: int| 0 <= k < middle.len() && k < ops.len() implies ((#[trigger] middle[k]) matches Instr::Raw(
        bytes,
    ) ==> op_written(ops[k], bytes@, after) && names_bound(ops[k], after)) by {
        if let Instr::Raw(bytes) = middle[k] {
            assert(names_bound(ops[k], before));
            if let Some(f) = function_of(ops[k]) {
                assert(before.function_index(f) is Ok);
                assert(before.funcs.contains_key(f));
            }
            assert(op_written(ops[k], bytes@, before));
            let maps = choose|maps: IndexMaps| #[trigger]
                maps_extended(maps, before) && operator_encoded(ops[k], maps) == Ok::<
                    Seq<u8>,
                    Failure,
                >(bytes@);
            assert(maps_extended(maps, after));
        }
    }
}

/// The types of a list of locals.
pub open spec fn local_types(locals: Seq<(u32, ValueType)>) -> Seq<ValueType> {
    Seq::new(locals.len(), |i: int| locals[i].1)
}

/// The locals of a list, each with its type renumbered.
pub open spec fn retyped(locals: Seq<(u32, ValueType)>, maps: IndexMaps) -> Seq<(u32, ValueType)> {
    Seq::new(locals.len(), |i: int| (locals[i].0, maps.val_type(locals[i].1).unwrap()))
}

/// The locals of a list with their types replaced by `types`, one for
/// one.
pub fn with_types(locals: &Vec<(u32, ValueType)>, types: &Vec<ValueType>) -> (r: Vec<
    (u32, ValueType),
>)
    requires
        locals@.len() == types@.len(),
    ensures
        r@.len() == locals@.len(),
        forall|i: int| 0 <= i < r@.len() ==> #[trigger] r@[i] == (locals@[i].0, types@[i]),
{
    let mut out: Vec<(u32, ValueType)> = Vec::new();
    let mut i: usize = 0;
    while i < locals.len()
        invariant
            i <= locals@.len(),
            locals@.len() == types@.len(),
            out@.len() == i,
            forall|k: int| 0 <= k < i ==> #[trigger] out@[k] == (locals@[k].0, types@[k]),
        decreases locals.len() - i,
    {
        out.push((locals[i].0, types[i]));
        i = i + 1;
    }
    out
}

/// The types of a list of locals.
pub fn types_of(locals: &Vec<(u32, ValueType)>) -> (r: Vec<ValueType>)
    ensures
        r@.len() == locals@.len(),
        forall|i: int| 0 <= i < r@.len() ==> #[trigger] r@[i] == locals@[i].1,
{
    let mut out: Vec<ValueType> = Vec::new();
    let mut i: usize = 0;
    while i < locals.len()
        invariant
            i <= locals@.len(),
            out@.len() == i,
            forall|k: int| 0 <= k < i ==> #[trigger] out@[k] == locals@[k].1,
        decreases locals.len() - i,
    {
        out.push(locals[i].1);
        i = i + 1;
    }
    out
}

/// A body with every type of a local and every instruction written anew
/// under the given renumbering. An index that the renumbering does not
/// know is an error.
pub fn reencode_body<T: Renumber>(data: &[u8], body: Span, renumber: &T) -> (r: Result<
    FunctionOut,
    Failure,
>)
    requires
        body.within(data@.len()),
    ensures
        r matches Ok(out) ==> forall|k: int| 0 <= k < out.body@.len() ==> (#[trigger] out.body@[k]) is Raw,
        match locals_read(data@, body.start as int, body.end as int) {
            Some(raw) => r matches Ok(out) ==> renumber.maps().val_types_ok(local_types(raw))
                && out.locals@ == retyped(raw, renumber.maps()),
            None => r matches Err(Failure::ParseError(_)),
        },
        body_taken(data@, body, renumber.maps()) ==> r is Ok,
{
    let ghost all = ops_at(data@, body.start as int, body.end as int);
    let ghost mut seen: Seq<Operator<'static>> = Seq::empty();
    let ghost ready = body_taken(data@, body, renumber.maps());
    let declared = match read_locals(data, body.start, body.end) {
        Ok(declared) => declared,
        Err(e) => {
            return Err(Failure::ParseError(e));
        },
    };
    let list = types_of(&declared);
    proof {
        assert(list@ =~= local_types(declared@));
    }
    let types = renumber_val_types(&list, renumber)?;
    let locals = with_types(&declared, &types);
    proof {
        assert(locals@ =~= retyped(declared@, renumber.maps()));
    }
    let mut reader = match operators_reader(data, body.start, body.end) {
        Ok(reader) => reader,
        Err(e) => {
            return Err(Failure::ParseError(e));
        },
    };
    let mut out: Vec<Instr> = Vec::new();
    while !operators_eof(&reader)
        invariant
            forall|k: int| 0 <= k < out@.len() ==> (#[trigger] out@[k]) is Raw,
            locals_read(data@, body.start as int, body.end as int) == Some(declared@),
            renumber.maps().val_types_ok(local_types(declared@)),
            locals@ == retyped(declared@, renumber.maps()),
            all == ops_at(data@, body.start as int, body.end as int),
            seen + ops_left(reader) == all,
            ready == body_taken(data@, body, renumber.maps()),
            ready ==> reads_on(reader),
        decreases operators_left(reader),
    {
        let ghost rest = ops_left(reader);
        let op = match operators_read(&mut reader) {
            Ok(op) => op,
            Err(e) => {
                return Err(Failure::ParseError(e));
            },
        };
        proof {
            assert(all[seen.len() as int] == rest[0]);
            let old_seen = seen;
            seen = seen.push(op);
            assert(seen + ops_left(reader) == old_seen + rest) by {
                assert(seen + ops_left(reader) =~= old_seen + (seq![op] + ops_left(reader)));
            }
        }
        let bytes = encode_operator(&op, renumber)?;
        out.push(Instr::Raw(bytes));
    }
    Ok(FunctionOut { locals, body: out })
}

/// What the weaver needs of the slab to write a wrapped body.
pub fn slab_use(weaver: &Weaver) -> (r: (u32, SlabUse))
    ensures
        r == weaver.slab_indices(),
{
    match weaver.table_api {
        Some(api) => (api.alloc_fn, SlabUse { take: api.take_fn, items: api.items_table }),
        None => (0, SlabUse { take: 0, items: 0 }),
    }
}

/// Whether the encoder takes the body between the ends of `body` with the
/// given renumbering: its locals can be read and their types renumbered,
/// the body can be read to its end, and the encoder takes every
/// instruction.
pub open spec fn body_taken(data: Seq<u8>, body: Span, maps: IndexMaps) -> bool {
    let ops = ops_at(data, body.start as int, body.end as int);
    &&& locals_read(data, body.start as int, body.end as int) matches Some(raw)
    &&& maps.val_types_ok(local_types(raw))
    &&& body_reads(data, body.start as int, body.end as int)
    &&& forall|k: int| 0 <= k < ops.len() ==> #[trigger] operator_encoded(ops[k], maps) is Ok
}

/// `kinds` are the kinds of the instructions that can be read in the body
/// between `start` and `end`; in a wrapped body but for an `end` that
/// stands in its last byte.
pub open spec fn read_of(kinds: Seq<OpKind>, wrapped: bool, data: Seq<u8>, start: int, end: int)
    -> bool {
    kinds_at(data, start, end) == kinds || (wrapped && kinds_at(data, start, end) == kinds.push(
        OpKind::End,
    ))
}

/// The kinds of the first instructions of a list are the first of the
/// kinds of the list.
pub proof fn lemma_kinds_prefix(seen: Seq<Operator<'static>>, all: Seq<Operator<'static>>)
    requires
        seen.len() <= all.len(),
        forall|k: int| 0 <= k < seen.len() ==> seen[k] == all[k],
    ensures
        kinds_of(seen).len() <= kinds_of(all).len(),
        forall|k: int| 0 <= k < seen.len() ==> kinds_of(seen)[k] == kinds_of(all)[k],
{
}

/// The kinds of a list of instructions with one more are the kinds of the
/// list with the kind of that one more.
pub proof fn lemma_kinds_push(ops: Seq<Operator<'static>>, op: Operator<'static>)
    ensures
        kinds_of(ops.push(op)) == kinds_of(ops).push(kind_of(op)),
{
    assert(kinds_of(ops.push(op)) =~= kinds_of(ops).push(kind_of(op)));
}

impl<'a> Weaver<'a> {
    /// Renumbers the types of the locals that a body declares.
    pub fn declared_locals(&mut self, body: Span) -> (r: Result<Vec<(u32, ValueType)>, Failure>)
        requires
            old(self).wf(),
            body.within(old(self).parsed.data@.len()),
        ensures
            final(self).wf(),
            old(self).types_grown(final(self)),
            match locals_read(old(self).parsed.data@, body.start as int, body.end as int) {
                Some(raw) => {
                    &&& r matches Ok(out) ==> final(self).maps().val_types_ok(local_types(raw))
                        && out@ == retyped(raw, final(self).maps())
                    &&& old(self).maps().val_types_ok(local_types(raw)) ==> (r is Ok) && *final(self)
                        == *old(self)
                },
                None => (r matches Err(Failure::ParseError(_))) && *final(self) == *old(self),
            },
    {
        let declared = match read_locals(self.parsed.data, body.start, body.end) {
            Ok(declared) => declared,
            Err(e) => {
                return Err(Failure::ParseError(e));
            },
        };
        let list = types_of(&declared);
        proof {
            assert(list@ =~= local_types(declared@));
        }
        let types = self.val_types(&list)?;
        let out = with_types(&declared, &types);
        proof {
            assert(out@ =~= retyped(declared@, self.maps()));
        }
        Ok(out)
    }

    /// Writes one instruction that is handed on: encodes it anew with its
    /// indices renumbered, and first writes every type that it names and
    /// that is not written yet.
    pub fn reencode_operator(&mut self, op: &wasmparser::Operator) -> (r: Result<Instr, Failure>)
        requires
            old(self).wf(),
        ensures
            final(self).wf(),
            old(self).types_grown(final(self)),
            r matches Ok(instr) ==> instr is Raw,
            r matches Ok(Instr::Raw(out)) ==> operator_encoded(*op, final(self).maps()) == Ok::<
                Seq<u8>,
                Failure,
            >(out@),
            match operator_encoded(*op, old(self).maps()) {
                Ok(bytes) => (r matches Ok(Instr::Raw(out)) && out@ == bytes) && *final(self) == *old(
                    self,
                ),
                Err(e) => !(e matches Failure::UserError(WeaveError::TypeIndexOutOfBounds(_)))
                    ==> (r matches Err(found) && found == e) && *final(self) == *old(self),
            },
    {
        let mut fuel: usize = self.ty_lookup.len();
        let ghost mut first = true;
        loop
            invariant
                self.wf(),
                old(self).types_grown(self),
                first ==> *self == *old(self),
                !first ==> operator_encoded(*op, old(self).maps()) matches Err(
                    Failure::UserError(WeaveError::TypeIndexOutOfBounds(_)),
                ),
            decreases fuel,
        {
            let attempt = {
                let renumber = Renumbering {
                    indices: &self.indices,
                    callable: &self.callable_functions,
                };
                encode_operator(op, &renumber)
            };
            match attempt {
                Ok(bytes) => {
                    return Ok(Instr::Raw(bytes));
                },
                Err(e) => {
                    let ghost before = *self;
                    self.write_missing_type(e, &mut fuel)?;
                    proof {
                        Self::lemma_types_grown(old(self), &before, self);
                        first = false;
                    }
                },
            }
        }
    }

    /// The maps of a weaver that has written more types extend the maps
    /// of the weaver that it was.
    pub proof fn lemma_maps_extended_types(a: &Weaver<'a>, b: &Weaver<'a>)
        requires
            a.types_grown(b),
        ensures
            maps_extended(a.maps(), b.maps()),
    {
    }

    /// Whether what becomes of instruction `k` of a list can be written at
    /// once: the count of open blocks fits in 32 bits; a call of another
    /// function names a function that has an index in the output; and the
    /// encoder takes an instruction that is handed on, with the indices
    /// that are bound so far.
    pub open spec fn op_ready(
        &self,
        ops: Seq<Operator<'static>>,
        k: int,
        marker: Option<u32>,
        wrapped: bool,
        map: Map<u32, u32>,
    ) -> bool {
        let kinds = kinds_of(ops);
        &&& depth_after(depth_at(kinds, k), kinds[k]) <= u32::MAX
        &&& match step_of(kinds[k], marker, wrapped, depth_at(kinds, k) as u32, map) {
            Step::Call(f) => self.maps().function_index(f) is Ok,
            Step::Reencode => operator_encoded(ops[k], self.maps()) is Ok && names_bound(
                ops[k],
                self.maps(),
            ),
            _ => true,
        }
    }

    /// Whether the instructions of a body can be written at once: the
    /// body can be read to its end, a wrapped body ends with an `end`,
    /// and what becomes of each instruction, in a wrapped body but for
    /// the last, can be written at once.
    pub open spec fn body_ready(
        &self,
        body: Span,
        marker: Option<u32>,
        wrapped: bool,
        map: Map<u32, u32>,
    ) -> bool {
        let ops = ops_at(self.parsed.data@, body.start as int, body.end as int);
        let count = if wrapped {
            ops.len() - 1
        } else {
            ops.len() as int
        };
        &&& body_reads(self.parsed.data@, body.start as int, body.end as int)
        &&& wrapped ==> ops.len() > 0 && kind_of(ops.last()) is End
        &&& forall|k: int| 0 <= k < count ==> #[trigger] self.op_ready(ops, k, marker, wrapped, map)
    }

    /// Reads the instructions of a body and writes what becomes of each, one
    /// for one. In a wrapped body the last `end` is left unread.
    pub fn rewrite_instructions(
        &mut self,
        body: Span,
        marker: Option<u32>,
        wrapped: bool,
        map: &HashMap<u32, u32>,
    ) -> (r: Result<(Vec<Instr>, Ghost<Seq<OpKind>>), Failure>)
        requires
            old(self).wf(),
            body.within(old(self).parsed.data@.len()),
        ensures
            final(self).wf(),
            old(self).types_grown(final(self)),
            r matches Ok((middle, kinds)) ==> {
                &&& follows(middle@, kinds@, marker, wrapped, map@, final(self).maps())
                &&& read_of(
                    kinds@,
                    wrapped,
                    old(self).parsed.data@,
                    body.start as int,
                    body.end as int,
                )
                &&& copied(
                    middle@,
                    ops_at(old(self).parsed.data@, body.start as int, body.end as int),
                    final(self).maps(),
                )
            },
            old(self).body_ready(body, marker, wrapped, map@) ==> r is Ok && *final(self) == *old(
                self,
            ),
    {
        let ghost ready = self.body_ready(body, marker, wrapped, map@);
        let ghost mut kinds: Seq<OpKind> = Seq::empty();
        let ghost mut seen: Seq<Operator<'static>> = Seq::empty();
        let ghost all = ops_at(self.parsed.data@, body.start as int, body.end as int);
        let mut reader = match operators_reader(self.parsed.data, body.start, body.end) {
            Ok(reader) => reader,
            Err(e) => {
                return Err(Failure::ParseError(e));
            },
        };
        let mut out: Vec<Instr> = Vec::new();
        let mut depth: u32 = 0;
        loop
            invariant
                self.wf(),
                old(self).types_grown(self),
                depth == depth_at(kinds, kinds.len() as int),
                follows(out@, kinds, marker, wrapped, map@, self.maps()),
                all == ops_at(old(self).parsed.data@, body.start as int, body.end as int),
                seen + ops_left(reader) == all,
                kinds == kinds_of(seen),
                out@.len() == seen.len(),
                copied(out@, all, self.maps()),
                ready == old(self).body_ready(body, marker, wrapped, map@),
                ready ==> *self == *old(self),
                ready ==> reads_on(reader),
                ready && wrapped ==> ops_left(reader).len() > 0,
            decreases operators_left(reader),
        {
            let done = if wrapped {
                operators_end_then_eof(&reader)
            } else {
                operators_eof(&reader)
            };
            if done {
                proof {
                    if ops_left(reader).len() == 0 {
                        assert(seen + ops_left(reader) == seen);
                    } else {
                        assert(seen + ops_left(reader) == seen.push(ops_left(reader)[0]));
                        lemma_kinds_push(seen, ops_left(reader)[0]);
                    }
                }
                return Ok((out, Ghost(kinds)));
            }
            let ghost rest = ops_left(reader);
            proof {
                if ready {
                    assert(rest.len() > 0);
                    assert(all[seen.len() as int] == rest[0]);
                    if wrapped {
                        assert(all.last() == rest.last());
                        assert(rest.len() >= 2);
                    }
                    assert(self.op_ready(all, seen.len() as int, marker, wrapped, map@));
                    lemma_kinds_prefix(seen, all);
                    lemma_depth_prefix(kinds, kinds_of(all), seen.len() as int);
                }
            }
            let op = match operators_read(&mut reader) {
                Ok(op) => op,
                Err(e) => {
                    return Err(Failure::ParseError(e));
                },
            };
            let kind = operator_kind(&op);
            let (step, after) = match instruction(kind, marker, wrapped, depth, map) {
                Some(found) => found,
                None => {
                    return Err(Failure::Read(ReadError::Malformed));
                },
            };
            let ghost before = *self;
            let ghost so_far = out@;
            let instr = match step {
                Step::Return => Instr::Return,
                Step::Br(d) => Instr::Br(d),
                Step::Call(f) => match self.function_index(f) {
                    Ok(target) => Instr::Call(target),
                    Err(e) => {
                        return Err(Failure::UserError(e));
                    },
                },
                Step::LocalGet(i) => Instr::LocalGet(i),
                Step::LocalSet(i) => Instr::LocalSet(i),
                Step::LocalTee(i) => Instr::LocalTee(i),
                Step::Reencode => {
                    match named_function(&op) {
                        Some(f) => match self.function_index(f) {
                            Ok(_) => {},
                            Err(e) => {
                                return Err(Failure::UserError(e));
                            },
                        },
                        None => {},
                    }
                    self.reencode_operator(&op)?
                },
            };
            out.push(instr);
            proof {
                Self::lemma_types_grown(old(self), &before, self);
                let old_kinds = kinds;
                kinds = kinds.push(kind);
                let old_seen = seen;
                seen = seen.push(op);
                lemma_kinds_push(old_seen, op);
                Self::lemma_maps_extended_types(&before, self);
                lemma_copied_stays(so_far, all, before.maps(), self.maps());
                assert(copied(out@, all, self.maps())) by {
                    assert(maps_extended(self.maps(), self.maps()));
                    assert forall|k: int| 0 <= k < out@.len() && k < all.len() implies ((
                    #[trigger] out@[k]) matches Instr::Raw(bytes) ==> op_written(
                        all[k],
                        bytes@,
                        self.maps(),
                    ) && names_bound(all[k], self.maps())) by {
                        if k < so_far.len() {
                            assert(out@[k] == so_far[k]);
                        } else {
                            assert(all[k] == op);
                        }
                    }
                }
                assert(seen + ops_left(reader) == old_seen + rest) by {
                    assert(seen + ops_left(reader) =~= old_seen + (seq![op] + ops_left(reader)));
                }
                assert(self.maps().funcs == before.maps().funcs);
                assert(self.maps().callable == before.maps().callable);
                assert forall|k: int| 0 <= k < kinds.len() implies #[trigger] depth_at(kinds, k)
                    <= u32::MAX by {
                    lemma_depth_prefix(old_kinds, kinds, k);
                }
                assert forall|k: int| 0 <= k < kinds.len() implies instr_for(
                    #[trigger] out@[k],
                    step_of(kinds[k], marker, wrapped, depth_at(kinds, k) as u32, map@),
                    self.maps(),
                ) by {
                    lemma_depth_prefix(old_kinds, kinds, k);
                    if k < old_kinds.len() {
                        assert(out@[k] == so_far[k]);
                        assert(kinds[k] == old_kinds[k]);
                        assert(instr_for(
                            so_far[k],
                            step_of(
                                old_kinds[k],
                                marker,
                                wrapped,
                                depth_at(old_kinds, k) as u32,
                                map@,
                            ),
                            before.maps(),
                        ));
                    } else {
                        assert(out@[k] == instr);
                    }
                }
                lemma_depth_prefix(old_kinds, kinds, old_kinds.len() as int);
                assert(out@.len() == kinds.len());
                assert(follows(out@, kinds, marker, wrapped, map@, self.maps()));
            }
            depth = after;
        }
    }
}

/// The count of open blocks behind the first `count` instructions does
/// not depend on what follows them.
pub proof fn lemma_depth_prefix(a: Seq<OpKind>, b: Seq<OpKind>, count: int)
    requires
        0 <= count <= a.len(),
        a.len() <= b.len(),
        forall|k: int| 0 <= k < a.len() ==> a[k] == b[k],
    ensures
        depth_at(a, count) == depth_at(b, count),
    decreases count,
{
    if count > 0 {
        lemma_depth_prefix(a, b, count - 1);
    }
}

} // verus!
