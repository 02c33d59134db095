//! What the weaver does to the signature and to the body of an exported
//! function: the signature that the host sees, the layout of the locals,
//! the instructions before and after the body, and what becomes of each
//! instruction of the body.

use crate::encoder::Instr;
use crate::error::WeaveError;
use crate::reader::OpKind;
use crate::types::{FuncType, FuncTypeView, MetaKind, ValueType, ValueTypeMeta};
use std::collections::HashMap;
use vstd::prelude::*;

verus! {

/// What the tag at position `k` asks for, if there is a tag at `k`.
pub open spec fn meta_at(metas: Option<Seq<ValueTypeMeta>>, k: int) -> Option<MetaKind> {
    match metas {
        Some(m) => if 0 <= k < m.len() {
            Some(m[k].spec_kind())
        } else {
            None
        },
        None => None,
    }
}

/// Whether a tag asks for a host reference, owned or borrowed.
pub open spec fn is_externref(meta: Option<MetaKind>) -> bool {
    meta == Some(MetaKind::ExternrefOwned) || meta == Some(MetaKind::ExternrefRef)
}

/// The type that the host sees in a slot: `externref` where the tag asks
/// for a host reference, the type of the guest elsewhere.
pub open spec fn wire_type(ty: ValueType, meta: Option<MetaKind>) -> ValueType {
    if is_externref(meta) {
        ValueType::spec_externref()
    } else {
        ty
    }
}

/// The signature that the host sees of a function with these parameters
/// and results. The tags describe the parameters first and then the
/// results.
pub open spec fn wire_signature(
    params: Seq<ValueType>,
    results: Seq<ValueType>,
    metas: Option<Seq<ValueTypeMeta>>,
) -> FuncTypeView {
    FuncTypeView {
        params: Seq::new(params.len(), |i: int| wire_type(params[i], meta_at(metas, i))),
        results: Seq::new(
            results.len(),
            |i: int| wire_type(results[i], meta_at(metas, params.len() + i)),
        ),
    }
}

/// The signature that the host sees has as many parameters and results as
/// the one it is made of; a slot whose tag asks for a host reference has
/// the type `externref`, and every other slot keeps its type.
pub proof fn lemma_wire_signature(
    params: Seq<ValueType>,
    results: Seq<ValueType>,
    metas: Option<Seq<ValueTypeMeta>>,
)
    ensures
        wire_signature(params, results, metas).params.len() == params.len(),
        wire_signature(params, results, metas).results.len() == results.len(),
        forall|k: int|
            0 <= k < params.len() && is_externref(meta_at(metas, k)) ==> #[trigger] wire_signature(
                params,
                results,
                metas,
            ).params[k] == ValueType::spec_externref(),
        forall|k: int|
            0 <= k < results.len() && is_externref(meta_at(metas, params.len() + k))
                ==> #[trigger] wire_signature(params, results, metas).results[k]
                == ValueType::spec_externref(),
        forall|k: int|
            0 <= k < params.len() && !is_externref(meta_at(metas, k)) ==> #[trigger] wire_signature(
                params,
                results,
                metas,
            ).params[k] == params[k],
        forall|k: int|
            0 <= k < results.len() && !is_externref(meta_at(metas, params.len() + k))
                ==> #[trigger] wire_signature(params, results, metas).results[k] == results[k],
        metas is None ==> wire_signature(params, results, metas) == (FuncTypeView {
            params,
            results,
        }),
{
    if metas is None {
        assert(wire_signature(params, results, metas).params =~= params);
        assert(wire_signature(params, results, metas).results =~= results);
    }
}

/// The tag at position `k`, if there is one.
fn tag_at(metas: Option<&Vec<ValueTypeMeta>>, k: usize) -> (r: Option<MetaKind>)
    ensures
        r == meta_at(
            match metas {
                Some(m) => Some(m@),
                None => None,
            },
            k as int,
        ),
{
    match metas {
        Some(m) => if k < m.len() {
            Some(m[k].kind())
        } else {
            None
        },
        None => None,
    }
}

/// The type that the host sees in a slot.
fn wire(ty: ValueType, meta: Option<MetaKind>) -> (r: ValueType)
    ensures
        r == wire_type(ty, meta),
{
    match meta {
        Some(MetaKind::ExternrefOwned) => ValueType::externref(),
        Some(MetaKind::ExternrefRef) => ValueType::externref(),
        _ => ty,
    }
}

/// The signature that the host sees of a function with these parameters
/// and results.
pub fn rewritten_signature(
    params: &Vec<ValueType>,
    results: &Vec<ValueType>,
    metas: Option<&Vec<ValueTypeMeta>>,
) -> (r: FuncType)
    requires
        params@.len() + results@.len() <= usize::MAX,
    ensures
        r@ == wire_signature(
            params@,
            results@,
            match metas {
                Some(m) => Some(m@),
                None => None,
            },
        ),
{
    let ghost tags = match metas {
        Some(m) => Some(m@),
        None => None,
    };
    let mut new_params: Vec<ValueType> = Vec::new();
    let mut i: usize = 0;
    while i < params.len()
        invariant
            i <= params@.len(),
            new_params@.len() == i,
            tags == match metas {
                Some(m) => Some(m@),
                None => None,
            },
            forall|k: int|
                0 <= k < i ==> #[trigger] new_params@[k] == wire_type(params@[k], meta_at(tags, k)),
        decreases params.len() - i,
    {
        new_params.push(wire(params[i], tag_at(metas, i)));
        i = i + 1;
    }
    let mut new_results: Vec<ValueType> = Vec::new();
    let mut j: usize = 0;
    while j < results.len()
        invariant
            j <= results@.len(),
            params@.len() + results@.len() <= usize::MAX,
            new_results@.len() == j,
            tags == match metas {
                Some(m) => Some(m@),
                None => None,
            },
            forall|k: int|
                0 <= k < j ==> #[trigger] new_results@[k] == wire_type(
                    results@[k],
                    meta_at(tags, params@.len() + k),
                ),
        decreases results.len() - j,
    {
        new_results.push(wire(results[j], tag_at(metas, params.len() + j)));
        j = j + 1;
    }
    let r = FuncType::new(new_params, new_results);
    assert(r@.params =~= wire_signature(params@, results@, tags).params);
    assert(r@.results =~= wire_signature(params@, results@, tags).results);
    r
}

/// The local that the body uses in place of local `index`: parameters that
/// hold an owned host reference are read from the local that the prologue
/// fills, and every other local is itself.
pub open spec fn remapped(map: Map<u32, u32>, index: u32) -> u32 {
    if map.contains_key(index) {
        map[index]
    } else {
        index
    }
}

/// The local that the body reads where it names the local `index`.
pub fn local_index(map: &HashMap<u32, u32>, index: u32) -> (r: u32)
    ensures
        r == remapped(map@, index),
{
    match map.get(&index) {
        Some(target) => *target,
        None => index,
    }
}

/// How many blocks are open behind an instruction of the given kind when
/// `depth` blocks were open before it. An `end` that closes nothing leaves
/// the count at zero.
pub open spec fn depth_after(depth: nat, kind: OpKind) -> nat {
    if kind.opens_block() {
        depth + 1
    } else if kind is End {
        if depth > 0 {
            (depth - 1) as nat
        } else {
            0
        }
    } else {
        depth
    }
}

/// How many blocks are open behind the first `count` instructions of a
/// body.
pub open spec fn depth_at(kinds: Seq<OpKind>, count: int) -> nat
    decreases count,
{
    if count <= 0 {
        0
    } else {
        depth_after(depth_at(kinds, count - 1), kinds[count - 1])
    }
}

/// How many of the first `count` instructions open a block.
pub open spec fn openers_before(kinds: Seq<OpKind>, count: int) -> nat
    decreases count,
{
    if count <= 0 {
        0
    } else {
        openers_before(kinds, count - 1) + if kinds[count - 1].opens_block() {
            1nat
        } else {
            0nat
        }
    }
}

/// How many of the first `count` instructions are an `end`.
pub open spec fn ends_before(kinds: Seq<OpKind>, count: int) -> nat
    decreases count,
{
    if count <= 0 {
        0
    } else {
        ends_before(kinds, count - 1) + if kinds[count - 1] == OpKind::End {
            1nat
        } else {
            0nat
        }
    }
}

/// No prefix of the first `count` instructions closes more blocks than it
/// opens.
pub open spec fn well_nested(kinds: Seq<OpKind>, count: int) -> bool {
    forall|n: int| 0 <= n <= count ==> #[trigger] ends_before(kinds, n) <= openers_before(kinds, n)
}

/// The count of open blocks never exceeds the count of blocks that were
/// opened. In a body that never closes more blocks than it opens, it is the
/// count of blocks that were opened and not closed: the blocks around the
/// instruction that comes next.
pub proof fn lemma_depth(kinds: Seq<OpKind>, count: int)
    requires
        0 <= count <= kinds.len(),
    ensures
        depth_at(kinds, count) <= openers_before(kinds, count),
        well_nested(kinds, count) ==> depth_at(kinds, count) == openers_before(kinds, count)
            - ends_before(kinds, count),
    decreases count,
{
    if count > 0 {
        lemma_depth(kinds, count - 1);
        if well_nested(kinds, count) {
            assert(well_nested(kinds, count - 1)) by {
                assert forall|n: int| 0 <= n <= count - 1 implies #[trigger] ends_before(kinds, n)
                    <= openers_before(kinds, n) by {}
            }
            assert(ends_before(kinds, count) <= openers_before(kinds, count));
        }
    }
}

/// What becomes of one instruction of a body.
#[derive(Clone, Copy, Debug, PartialEq, Eq, Structural)]
pub enum Step {
    /// The instruction is a call of the function's own return stub in a
    /// body without wrapper: the function returns.
    Return,
    /// The instruction is a call of the function's own return stub in a
    /// wrapped body: control leaves the wrapper block, which is the given
    /// number of blocks up.
    Br(u32),
    /// A call of another function, whose index is renumbered.
    Call(u32),
    LocalGet(u32),
    LocalSet(u32),
    LocalTee(u32),
    /// Any other instruction is encoded anew with its indices renumbered.
    Reencode,
}

/// What becomes of an instruction of the given kind in a body in which
/// `depth` blocks are open. `marker` is the function's own return stub, if
/// it has one; `wrapped` tells whether the body stands in a wrapper block.
pub open spec fn step_of(
    kind: OpKind,
    marker: Option<u32>,
    wrapped: bool,
    depth: u32,
    map: Map<u32, u32>,
) -> Step {
    match kind {
        OpKind::Call(f) => if marker == Some(f) {
            if wrapped {
                Step::Br(depth)
            } else {
                Step::Return
            }
        } else {
            Step::Call(f)
        },
        OpKind::LocalGet(i) => Step::LocalGet(remapped(map, i)),
        OpKind::LocalSet(i) => Step::LocalSet(remapped(map, i)),
        OpKind::LocalTee(i) => Step::LocalTee(remapped(map, i)),
        _ => Step::Reencode,
    }
}

/// What becomes of an instruction, and how many blocks are open behind it.
/// Nothing is returned when the count of open blocks does not fit in 32
/// bits.
pub fn instruction(
    kind: OpKind,
    marker: Option<u32>,
    wrapped: bool,
    depth: u32,
    map: &HashMap<u32, u32>,
) -> (r: Option<(Step, u32)>)
    ensures
        match r {
            Some((step, after)) => step == step_of(kind, marker, wrapped, depth, map@) && after
                == depth_after(depth as nat, kind),
            None => depth_after(depth as nat, kind) > u32::MAX,
        },
{
    let step = match kind {
        OpKind::Call(f) => {
            let own = match marker {
                Some(m) => m == f,
                None => false,
            };
            if own {
                if wrapped {
                    Step::Br(depth)
                } else {
                    Step::Return
                }
            } else {
                Step::Call(f)
            }
        },
        OpKind::LocalGet(i) => Step::LocalGet(local_index(map, i)),
        OpKind::LocalSet(i) => Step::LocalSet(local_index(map, i)),
        OpKind::LocalTee(i) => Step::LocalTee(local_index(map, i)),
        _ => Step::Reencode,
    };
    let after: u32 = if kind.is_opener() {
        if depth == u32::MAX {
            return None;
        }
        depth + 1
    } else {
        match kind {
            OpKind::End => if depth > 0 {
                depth - 1
            } else {
                0
            },
            _ => depth,
        }
    };
    Some((step, after))
}

/// Every branch that stands for a call of the return stub goes up exactly
/// as many blocks as are open around it, which are never more than the
/// body has opened: it lands on the wrapper block and nowhere outside the
/// function.
pub proof fn lemma_branch_stays_inside(
    kinds: Seq<OpKind>,
    at: int,
    marker: Option<u32>,
    map: Map<u32, u32>,
)
    requires
        0 <= at < kinds.len(),
        depth_at(kinds, at) <= u32::MAX,
    ensures
        step_of(kinds[at], marker, true, depth_at(kinds, at) as u32, map) matches Step::Br(depth)
            ==> depth == depth_at(kinds, at) && depth <= openers_before(kinds, at),
        !(step_of(kinds[at], marker, false, depth_at(kinds, at) as u32, map) is Br),
{
    lemma_depth(kinds, at);
}

/// How many of the first `count` parameters hold an owned host reference.
pub open spec fn owned_before(metas: Seq<ValueTypeMeta>, count: int) -> nat
    decreases count,
{
    if count <= 0 {
        0
    } else {
        owned_before(metas, count - 1) + if count - 1 < metas.len() && metas[count - 1].spec_kind()
            == MetaKind::ExternrefOwned {
            1nat
        } else {
            0nat
        }
    }
}

/// The count of owned parameters among the first `count` is at most
/// `count`.
pub proof fn lemma_owned_bound(metas: Seq<ValueTypeMeta>, count: int)
    requires
        0 <= count,
    ensures
        owned_before(metas, count) <= count,
    decreases count,
{
    if count > 0 {
        lemma_owned_bound(metas, count - 1);
    }
}

/// The first parameter, if any, whose tag cannot be applied: an unknown
/// tag, or the tag of an owned host reference on a parameter that is no
/// 32-bit integer.
pub open spec fn bad_parameter(params: Seq<ValueType>, metas: Seq<ValueTypeMeta>, count: int)
    -> Option<int>
    decreases count,
{
    if count <= 0 {
        None
    } else {
        match bad_parameter(params, metas, count - 1) {
            Some(i) => Some(i),
            None => if count - 1 < metas.len() && (metas[count - 1].spec_kind() == MetaKind::Unknown
                || (metas[count - 1].spec_kind() == MetaKind::ExternrefOwned && params[count - 1]
                != ValueType::I32)) {
                Some(count - 1)
            } else {
                None
            },
        }
    }
}

/// A parameter that is found bad among the first `a` parameters is found
/// bad among any more.
pub proof fn lemma_bad_parameter_stays(
    params: Seq<ValueType>,
    metas: Seq<ValueTypeMeta>,
    a: int,
    b: int,
)
    requires
        0 <= a <= b,
        bad_parameter(params, metas, a) is Some,
    ensures
        bad_parameter(params, metas, b) == bad_parameter(params, metas, a),
    decreases b,
{
    if a < b {
        lemma_bad_parameter_stays(params, metas, a, b - 1);
    }
}

/// A result that is found bad among the first `a` results is found bad
/// among any more.
pub proof fn lemma_bad_result_stays(
    results: Seq<ValueType>,
    params: int,
    metas: Seq<ValueTypeMeta>,
    a: int,
    b: int,
)
    requires
        0 <= a <= b,
        bad_result(results, params, metas, a) is Some,
    ensures
        bad_result(results, params, metas, b) == bad_result(results, params, metas, a),
    decreases b,
{
    if a < b {
        lemma_bad_result_stays(results, params, metas, a, b - 1);
    }
}

/// Why the tag of a parameter or result cannot be applied to a slot of the
/// given type.
pub open spec fn meta_error(meta: ValueTypeMeta, ty: ValueType) -> WeaveError {
    if meta.spec_kind() == MetaKind::Unknown {
        WeaveError::UnknownMeta(meta)
    } else {
        WeaveError::IncompatibleMetaType(meta, ty)
    }
}

/// Why the locals of a wrapped body cannot be laid out.
#[derive(Debug)]
pub enum LayoutError {
    /// The tag of a parameter cannot be applied.
    Meta(WeaveError),
    /// The body would have more locals than 32 bits can count.
    TooManyLocals,
}

/// The numbers of locals that a wrapped body declares and uses.
pub struct LocalLayout {
    /// For each parameter, the local that the body reads in its place, if
    /// the parameter holds an owned host reference.
    pub map: HashMap<u32, u32>,
    /// How many parameters hold an owned host reference.
    pub owned: u32,
    /// The first of the locals in which the results wait for the epilogue.
    pub staging: u32,
}

/// The layout of the locals of a wrapped body. The body keeps its
/// parameters and the `declared` locals that it declares itself. Behind
/// them stands one 32-bit integer for each parameter that holds an owned
/// host reference, in the order of the parameters, and behind those one
/// local for each result.
pub fn local_layout(
    params: &Vec<ValueType>,
    result_count: usize,
    metas: &Vec<ValueTypeMeta>,
    declared: u32,
) -> (r: Result<LocalLayout, LayoutError>)
    requires
        params@.len() <= u32::MAX,
    ensures
        match r {
            Ok(layout) => {
                &&& bad_parameter(params@, metas@, params@.len() as int) is None
                &&& layout.owned == owned_before(metas@, params@.len() as int)
                &&& layout.staging + result_count <= u32::MAX
                &&& laid_out(
                    layout.map@,
                    layout.staging,
                    params@.len() as int,
                    metas@,
                    declared as int,
                )
            },
            Err(LayoutError::Meta(e)) => match bad_parameter(
                params@,
                metas@,
                params@.len() as int,
            ) {
                Some(i) => e == meta_error(metas@[i], params@[i]),
                None => false,
            },
            Err(LayoutError::TooManyLocals) => {
                &&& bad_parameter(params@, metas@, params@.len() as int) is None
                &&& params@.len() + declared + owned_before(metas@, params@.len() as int)
                    + result_count > u32::MAX
            },
        },
{
    let mut map: HashMap<u32, u32> = HashMap::new();
    let mut owned: u32 = 0;
    let mut i: usize = 0;
    while i < params.len()
        invariant
            i <= params@.len(),
            params@.len() <= u32::MAX,
            owned == owned_before(metas@, i as int),
            owned <= i,
            bad_parameter(params@, metas@, i as int) is None,
            forall|k: u32| #[trigger]
                map@.contains_key(k) <==> (k < i && k < metas@.len() && metas@[k as int].spec_kind()
                    == MetaKind::ExternrefOwned),
            forall|k: u32| #[trigger]
                map@.contains_key(k) ==> map@[k] == if params@.len() + declared + owned_before(
                    metas@,
                    k as int,
                ) <= u32::MAX {
                    (params@.len() + declared + owned_before(metas@, k as int)) as u32
                } else {
                    u32::MAX
                },
        decreases params.len() - i,
    {
        let kind = if i < metas.len() {
            metas[i].kind()
        } else {
            MetaKind::Plain
        };
        match kind {
            MetaKind::ExternrefOwned => {
                if !params[i].is_i32() {
                    proof {
                        assert(bad_parameter(params@, metas@, i + 1) == Some(i as int));
                        lemma_bad_parameter_stays(params@, metas@, i + 1, params@.len() as int);
                    }
                    return Err(
                        LayoutError::Meta(WeaveError::IncompatibleMetaType(metas[i], params[i])),
                    );
                }
                let total: u64 = params.len() as u64 + declared as u64 + owned as u64;
                let target: u32 = if total <= u32::MAX as u64 {
                    total as u32
                } else {
                    u32::MAX
                };
                map.insert(i as u32, target);
                owned = owned + 1;
            },
            MetaKind::Unknown => {
                proof {
                    assert(bad_parameter(params@, metas@, i + 1) == Some(i as int));
                    lemma_bad_parameter_stays(params@, metas@, i + 1, params@.len() as int);
                }
                return Err(LayoutError::Meta(WeaveError::UnknownMeta(metas[i])));
            },
            _ => {},
        }
        i = i + 1;
    }
    let total: u64 = params.len() as u64 + declared as u64 + owned as u64;
    if total > u32::MAX as u64 || result_count as u64 > u32::MAX as u64 - total {
        return Err(LayoutError::TooManyLocals);
    }
    proof {
        assert forall|k: u32| #[trigger] map@.contains_key(k) implies map@[k] == params@.len()
            + declared + owned_before(metas@, k as int) by {
            lemma_owned_monotonic(metas@, k as int, params@.len() as int);
        }
    }
    Ok(LocalLayout { map, owned, staging: total as u32 })
}

/// Whether `map` and `staging` are the layout of the locals of a wrapped
/// body with `params` parameters and `declared` locals of its own: the
/// `k`-th parameter that holds an owned host reference is read from the
/// `k`-th local behind the declared ones, no other parameter stands
/// anywhere else, and the results wait behind those locals.
pub open spec fn laid_out(
    map: Map<u32, u32>,
    staging: u32,
    params: int,
    metas: Seq<ValueTypeMeta>,
    declared: int,
) -> bool {
    &&& staging == params + declared + owned_before(metas, params)
    &&& forall|i: u32| #[trigger]
        map.contains_key(i) <==> (i < params && i < metas.len() && metas[i as int].spec_kind()
            == MetaKind::ExternrefOwned)
    &&& forall|i: u32| #[trigger]
        map.contains_key(i) ==> map[i] == params + declared + owned_before(metas, i as int)
}

/// The layout of the locals that stand in for parameters, see
/// [`laid_out`].
pub open spec fn owned_map(params: int, metas: Seq<ValueTypeMeta>, declared: int) -> Map<u32, u32> {
    Map::new(
        |i: u32|
            i < params && i < metas.len() && metas[i as int].spec_kind()
                == MetaKind::ExternrefOwned,
        |i: u32| (params + declared + owned_before(metas, i as int)) as u32,
    )
}

/// The count of owned parameters grows with the count of parameters.
pub proof fn lemma_owned_monotonic(metas: Seq<ValueTypeMeta>, a: int, b: int)
    requires
        0 <= a <= b,
    ensures
        owned_before(metas, a) <= owned_before(metas, b),
    decreases b,
{
    if a < b {
        lemma_owned_monotonic(metas, a, b - 1);
    }
}

/// The instructions that stand before a wrapped body: for each parameter
/// that holds an owned host reference, in order, the reference is read
/// from the parameter, a slot is allocated for it by the function with
/// index `alloc`, and the slot number is stored in the local that the body
/// reads in place of the parameter.
pub open spec fn prologue_of(map: Map<u32, u32>, alloc: u32, count: int) -> Seq<Instr>
    decreases count,
{
    if count <= 0 {
        Seq::empty()
    } else {
        prologue_of(map, alloc, count - 1) + if map.contains_key((count - 1) as u32) {
            seq![
                Instr::LocalGet((count - 1) as u32),
                Instr::Call(alloc),
                Instr::LocalSet(map[(count - 1) as u32]),
            ]
        } else {
            Seq::empty()
        }
    }
}

/// Adds the instructions that stand before a wrapped body with `params`
/// parameters.
pub fn prologue(out: &mut Vec<Instr>, map: &HashMap<u32, u32>, alloc: u32, params: u32)
    ensures
        final(out)@ == old(out)@ + prologue_of(map@, alloc, params as int),
{
    let ghost before = out@;
    let mut i: u32 = 0;
    assert(out@ == before + prologue_of(map@, alloc, 0));
    while i < params
        invariant
            i <= params,
            out@ == before + prologue_of(map@, alloc, i as int),
        decreases params - i,
    {
        let ghost so_far = out@;
        match map.get(&i) {
            Some(local) => {
                out.push(Instr::LocalGet(i));
                out.push(Instr::Call(alloc));
                out.push(Instr::LocalSet(*local));
                assert(out@ == so_far + seq![
                    Instr::LocalGet(i),
                    Instr::Call(alloc),
                    Instr::LocalSet(*local),
                ]);
            },
            None => {
                assert(out@ == so_far + Seq::<Instr>::empty());
            },
        }
        i = i + 1;
        assert(out@ == before + prologue_of(map@, alloc, i as int));
    }
}

/// The slab functions and the table that the epilogue uses.
#[derive(Clone, Copy, Debug)]
pub struct SlabUse {
    /// The function that takes a host reference out of its slot.
    pub take: u32,
    /// The table that holds the host references.
    pub items: u32,
}

/// The instructions that hand result `i` to the host: the result is read
/// from the local in which it waits and, where its tag asks for it, turned
/// into a host reference, by taking it out of its slot if it is owned and
/// by reading the slot if it is borrowed.
pub open spec fn result_epilogue(
    staging: u32,
    i: int,
    meta: Option<MetaKind>,
    slab: SlabUse,
) -> Seq<Instr> {
    seq![Instr::LocalGet((staging + i) as u32)] + match meta {
        Some(MetaKind::ExternrefOwned) => seq![Instr::Call(slab.take)],
        Some(MetaKind::ExternrefRef) => seq![Instr::TableGet(slab.items), Instr::ExternConvertAny],
        _ => Seq::empty(),
    }
}

/// The instructions that store the results of the wrapper block in the
/// locals in which they wait, the last result first.
pub open spec fn stores_of(staging: u32, results: int, count: int) -> Seq<Instr>
    decreases count,
{
    if count <= 0 {
        Seq::empty()
    } else {
        stores_of(staging, results, count - 1).push(
            Instr::LocalSet((staging + results - count) as u32),
        )
    }
}

/// The instructions that hand the first `count` results to the host.
pub open spec fn loads_of(
    staging: u32,
    params: int,
    metas: Seq<ValueTypeMeta>,
    slab: SlabUse,
    count: int,
) -> Seq<Instr>
    decreases count,
{
    if count <= 0 {
        Seq::empty()
    } else {
        loads_of(staging, params, metas, slab, count - 1) + result_epilogue(
            staging,
            count - 1,
            meta_at(Some(metas), params + count - 1),
            slab,
        )
    }
}

/// The first result, if any, whose tag cannot be applied: an unknown tag,
/// or the tag of a host reference, owned or borrowed, on a result that is
/// no 32-bit integer and so cannot be a slot number.
pub open spec fn bad_result(
    results: Seq<ValueType>,
    params: int,
    metas: Seq<ValueTypeMeta>,
    count: int,
) -> Option<int>
    decreases count,
{
    if count <= 0 {
        None
    } else {
        match bad_result(results, params, metas, count - 1) {
            Some(i) => Some(i),
            None => {
                let meta = meta_at(Some(metas), params + count - 1);
                if meta == Some(MetaKind::Unknown) || ((meta == Some(MetaKind::ExternrefOwned)
                    || meta == Some(MetaKind::ExternrefRef)) && results[count - 1]
                    != ValueType::I32) {
                    Some(count - 1)
                } else {
                    None
                }
            },
        }
    }
}

/// Why the tags of a function cannot be applied, if they cannot: because of
/// the first parameter whose tag cannot be applied, or else because of the
/// first such result.
pub open spec fn tag_error(
    params: Seq<ValueType>,
    results: Seq<ValueType>,
    metas: Seq<ValueTypeMeta>,
) -> Option<WeaveError> {
    match bad_parameter(params, metas, params.len() as int) {
        Some(i) => Some(meta_error(metas[i], params[i])),
        None => match bad_result(results, params.len() as int, metas, results.len() as int) {
            Some(i) => Some(meta_error(metas[params.len() + i], results[i])),
            None => None,
        },
    }
}

/// Tells whether the tag of every result can be applied, and why not where
/// one cannot.
pub fn check_results(results: &Vec<ValueType>, params: usize, metas: &Vec<ValueTypeMeta>) -> (r:
    Result<(), WeaveError>)
    requires
        params + results@.len() <= usize::MAX,
    ensures
        match bad_result(results@, params as int, metas@, results@.len() as int) {
            Some(i) => r == Err::<(), WeaveError>(meta_error(metas@[params + i], results@[i])),
            None => r is Ok,
        },
{
    let mut j: usize = 0;
    while j < results.len()
        invariant
            j <= results@.len(),
            params + results@.len() <= usize::MAX,
            bad_result(results@, params as int, metas@, j as int) is None,
        decreases results.len() - j,
    {
        if params + j < metas.len() {
            let meta = metas[params + j];
            let bad = match meta.kind() {
                MetaKind::Unknown => true,
                MetaKind::ExternrefOwned => !results[j].is_i32(),
                MetaKind::ExternrefRef => !results[j].is_i32(),
                _ => false,
            };
            if bad {
                proof {
                    assert(bad_result(results@, params as int, metas@, j + 1) == Some(j as int));
                    lemma_bad_result_stays(
                        results@,
                        params as int,
                        metas@,
                        j + 1,
                        results@.len() as int,
                    );
                }
                return Err(
                    match meta.kind() {
                        MetaKind::Unknown => WeaveError::UnknownMeta(meta),
                        _ => WeaveError::IncompatibleMetaType(meta, results[j]),
                    },
                );
            }
        }
        j = j + 1;
    }
    Ok(())
}

/// Adds the instructions that stand behind the wrapper block: the results
/// are stored in their locals, the last first, and then handed to the host
/// one by one. A result whose tag is unknown, or whose tag asks for a host
/// reference though the result is no 32-bit integer, is an error.
pub fn epilogue(
    out: &mut Vec<Instr>,
    results: &Vec<ValueType>,
    params: usize,
    metas: &Vec<ValueTypeMeta>,
    staging: u32,
    slab: SlabUse,
) -> (r: Result<(), WeaveError>)
    requires
        staging + results@.len() <= u32::MAX,
        params + results@.len() <= usize::MAX,
    ensures
        match r {
            Ok(()) => {
                &&& bad_result(results@, params as int, metas@, results@.len() as int) is None
                &&& final(out)@ == old(out)@ + stores_of(
                    staging,
                    results@.len() as int,
                    results@.len() as int,
                ) + loads_of(staging, params as int, metas@, slab, results@.len() as int)
            },
            Err(e) => match bad_result(results@, params as int, metas@, results@.len() as int) {
                Some(i) => e == meta_error(metas@[params + i], results@[i]),
                None => false,
            },
        },
{
    let ghost before = out@;
    let count: usize = results.len();
    let mut i: usize = 0;
    assert(out@ == before + stores_of(staging, count as int, 0));
    while i < count
        invariant
            i <= count,
            count == results@.len(),
            staging + count <= u32::MAX,
            out@ == before + stores_of(staging, count as int, i as int),
        decreases count - i,
    {
        let ghost so_far = out@;
        out.push(Instr::LocalSet(staging + (count - 1 - i) as u32));
        i = i + 1;
        assert(out@ == so_far.push(Instr::LocalSet((staging + count - i) as u32)));
        assert(out@ == before + stores_of(staging, count as int, i as int));
    }
    let ghost stored = out@;
    let mut j: usize = 0;
    assert(out@ == stored + loads_of(staging, params as int, metas@, slab, 0));
    while j < count
        invariant
            j <= count,
            count == results@.len(),
            staging + count <= u32::MAX,
            params + count <= usize::MAX,
            bad_result(results@, params as int, metas@, j as int) is None,
            out@ == stored + loads_of(staging, params as int, metas@, slab, j as int),
        decreases count - j,
    {
        let ghost so_far = out@;
        let meta = if params + j < metas.len() {
            Some(metas[params + j].kind())
        } else {
            None
        };
        assert(meta == meta_at(Some(metas@), params + j));
        out.push(Instr::LocalGet(staging + j as u32));
        match meta {
            Some(MetaKind::ExternrefOwned) => {
                if !results[j].is_i32() {
                    proof {
                        assert(bad_result(results@, params as int, metas@, j + 1) == Some(
                            j as int,
                        ));
                        lemma_bad_result_stays(
                            results@,
                            params as int,
                            metas@,
                            j + 1,
                            results@.len() as int,
                        );
                    }
                    return Err(WeaveError::IncompatibleMetaType(metas[params + j], results[j]));
                }
                out.push(Instr::Call(slab.take));
            },
            Some(MetaKind::ExternrefRef) => {
                if !results[j].is_i32() {
                    proof {
                        assert(bad_result(results@, params as int, metas@, j + 1) == Some(
                            j as int,
                        ));
                        lemma_bad_result_stays(
                            results@,
                            params as int,
                            metas@,
                            j + 1,
                            results@.len() as int,
                        );
                    }
                    return Err(WeaveError::IncompatibleMetaType(metas[params + j], results[j]));
                }
                out.push(Instr::TableGet(slab.items));
                out.push(Instr::ExternConvertAny);
            },
            Some(MetaKind::Unknown) => {
                proof {
                    assert(bad_result(results@, params as int, metas@, j + 1) == Some(j as int));
                    lemma_bad_result_stays(
                        results@,
                        params as int,
                        metas@,
                        j + 1,
                        results@.len() as int,
                    );
                }
                return Err(WeaveError::UnknownMeta(metas[params + j]));
            },
            _ => {},
        }
        assert(out@ == so_far + result_epilogue(staging, j as int, meta, slab));
        j = j + 1;
    }
    Ok(())
}

} // verus!
