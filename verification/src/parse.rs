//! Reading a core module into a flat record of its sections.
//!
//! The record keeps what the weaver decides on as plain values: the
//! signatures of the function types, the imports and exports, the type of
//! each function. The entries that are only handed on stay where they are in
//! the input, and the record keeps their ranges.

use crate::error::{DecodeError, Failure, ReadError};
use crate::reader::{
    chunks_of, custom_at, cut, export_at, imports_at, item_end, read_custom, read_export,
    read_imports, read_rec_group, read_var_u32, rec_group_at, skip_item, var_u32_at, Chunk,
    ItemKind, RawExport, RawImport,
};
use crate::signature::{
    has_prefix, signature_key_of, starts_with, SignatureKeyView, SignatureTable,
};
use crate::types::{FuncType, ValueTypeMeta};
use vstd::prelude::*;
use vstd::slice::slice_subrange;

verus! {

/// A range of bytes of the input.
#[derive(Clone, Copy, Debug, PartialEq, Eq, Structural)]
pub struct Span {
    pub start: usize,
    pub end: usize,
}

impl Span {
    /// The range lies within an input of `len` bytes.
    pub open spec fn within(self, len: nat) -> bool {
        self.start <= self.end <= len
    }
}

/// Every range of the list lies within an input of `len` bytes.
pub open spec fn spans_within(spans: Seq<Span>, len: nat) -> bool {
    forall|i: int| 0 <= i < spans.len() ==> (#[trigger] spans[i]).within(len)
}

/// One member of a recursion group.
#[derive(Debug)]
pub struct SubTypeInfo {
    /// The signature, where the member is a function type.
    pub func: Option<FuncType>,
}

/// A recursion group of the type section.
#[derive(Debug)]
pub struct RecGroup {
    /// Whether the group is written as a group, and not as a single type.
    pub explicit: bool,
    pub types: Vec<SubTypeInfo>,
    /// Where the group stands in the input.
    pub span: Span,
}

/// An import of the module.
pub type Import = RawImport;

/// An export of the module.
pub type Export = RawExport;

/// The sections of a core module.
#[derive(Debug)]
pub struct ParsedModule<'a> {
    /// The input that the ranges of this record refer to.
    pub data: &'a [u8],
    pub types: Vec<RecGroup>,
    pub imports: Vec<Import>,
    /// The type index of each function that the module defines.
    pub functions: Vec<u32>,
    pub tables: Vec<Span>,
    pub memories: Vec<Span>,
    pub tags: Vec<Span>,
    pub globals: Vec<Span>,
    pub exports: Vec<Export>,
    pub start: Option<u32>,
    pub elements: Vec<Span>,
    pub data_count: Option<u32>,
    pub data_segments: Vec<Span>,
    /// The body of each function that the module defines.
    pub code: Vec<Span>,
    pub signatures: SignatureTable,
    /// The names of the custom sections that begin with `__signature.`
    /// and were passed over, because their name tells no function or
    /// their payload holds no whole tags.
    pub skipped: Vec<String>,
}

/// The ranges of a list of recursion groups.
pub open spec fn group_spans(groups: Seq<RecGroup>) -> Seq<Span> {
    Seq::new(groups.len(), |i: int| groups[i].span)
}

/// The number of types that the first `count` groups hold.
pub open spec fn types_before(groups: Seq<RecGroup>, count: int) -> int
    decreases count,
{
    if count <= 0 {
        0
    } else {
        types_before(groups, count - 1) + groups[count - 1].types.len()
    }
}

/// The number of types grows with the number of groups.
pub proof fn lemma_types_before_monotonic(groups: Seq<RecGroup>, a: int, b: int)
    requires
        0 <= a <= b,
    ensures
        0 <= types_before(groups, a) <= types_before(groups, b),
    decreases b,
{
    if a < b {
        lemma_types_before_monotonic(groups, a, b - 1);
    } else if a > 0 {
        lemma_types_before_monotonic(groups, a - 1, a - 1);
    }
}

/// The first `count` groups of a list hold the same types whatever follows
/// them.
pub proof fn lemma_types_before_prefix(a: Seq<RecGroup>, b: Seq<RecGroup>, count: int)
    requires
        0 <= count <= a.len(),
        count <= b.len(),
        forall|i: int| 0 <= i < count ==> a[i] == b[i],
    ensures
        types_before(a, count) == types_before(b, count),
    decreases count,
{
    if count > 0 {
        lemma_types_before_prefix(a, b, count - 1);
    }
}

/// A position as a `usize`, where it fits.
pub fn to_usize(x: u64) -> (r: Option<usize>)
    ensures
        r == if x <= usize::MAX {
            Some(x as usize)
        } else {
            None::<usize>
        },
{
    if x <= usize::MAX as u64 {
        Some(x as usize)
    } else {
        None
    }
}

/// The position `next` that a reader reported after it read from `pos`, if
/// it lies behind `pos` and not behind `end`.
pub fn advance(pos: usize, next: u64, end: usize) -> (r: Option<usize>)
    ensures
        r == if pos < next <= end {
            Some(next as usize)
        } else {
            None::<usize>
        },
{
    if (pos as u64) < next && next <= end as u64 {
        Some(next as usize)
    } else {
        None
    }
}

/// The range from `start` to `end`, if it is one of an input of `len` bytes.
pub fn span_of(start: u64, end: u64, len: usize) -> (r: Option<Span>)
    ensures
        match r {
            Some(span) => span.start == start && span.end == end && span.within(len as nat),
            None => !(start <= end <= len),
        },
{
    if start <= end && end <= len as u64 {
        Some(Span { start: start as usize, end: end as usize })
    } else {
        None
    }
}

/// What a section announces: how many entries it holds, and where the
/// first of them stands. Nothing where no number can be read or the number
/// takes no place within the section.
pub open spec fn section_head(data: Seq<u8>, start: int, end: int) -> Option<(u32, int)> {
    match var_u32_at(data, start, end) {
        Some((count, next)) => if start < next <= end {
            Some((count, next))
        } else {
            None
        },
        None => None,
    }
}

/// Where a reader stands after `k` entries that it read one behind the
/// other from `first` on, where `step` tells the position behind the entry
/// at a position. Nothing where an entry cannot be read, takes no place or
/// ends behind `end`.
pub open spec fn reach(step: spec_fn(int) -> Option<int>, first: int, end: int, k: nat) -> Option<
    int,
>
    decreases k,
{
    if k == 0 {
        Some(first)
    } else {
        match reach(step, first, end, (k - 1) as nat) {
            Some(p) => match step(p) {
                Some(next) => if p < next <= end {
                    Some(next)
                } else {
                    None
                },
                None => None,
            },
            None => None,
        }
    }
}

/// A reader that has failed does not come any further.
pub proof fn lemma_reach_fails(
    step: spec_fn(int) -> Option<int>,
    first: int,
    end: int,
    k: nat,
    n: nat,
)
    requires
        k <= n,
        reach(step, first, end, k) is None,
    ensures
        reach(step, first, end, n) is None,
    decreases n,
{
    if k < n {
        lemma_reach_fails(step, first, end, k, (n - 1) as nat);
    }
}

/// The position behind the entry of a section of the given kind.
pub open spec fn item_step(kind: ItemKind, data: Seq<u8>, end: int) -> spec_fn(int) -> Option<int> {
    |p: int| item_end(kind, data, p, end)
}

/// The position behind a number.
pub open spec fn u32_step(data: Seq<u8>, end: int) -> spec_fn(int) -> Option<int> {
    |p: int|
        match var_u32_at(data, p, end) {
            Some((_, next)) => Some(next),
            None => None,
        }
}

/// The position behind an export.
pub open spec fn export_step(data: Seq<u8>, end: int) -> spec_fn(int) -> Option<int> {
    |p: int|
        match export_at(data, p, end) {
            Some((_, next)) => Some(next),
            None => None,
        }
}

/// The position behind a recursion group.
pub open spec fn group_step(data: Seq<u8>, end: int) -> spec_fn(int) -> Option<int> {
    |p: int|
        match rec_group_at(data, p, end) {
            Some((_, _, next)) => Some(next),
            None => None,
        }
}

/// Reads the number of entries that a section announces. Returns the number
/// and the position of the first entry.
fn read_count(data: &[u8], start: usize, end: usize) -> (r: Result<(u32, usize), ReadError>)
    requires
        start <= end <= data.len(),
    ensures
        r matches Ok((_, pos)) ==> start < pos <= end,
        match var_u32_at(data@, start as int, end as int) {
            Some((count, next)) => r == (if start < next <= end {
                Ok::<(u32, usize), ReadError>((count, next as usize))
            } else {
                Err::<(u32, usize), ReadError>(ReadError::Malformed)
            }),
            None => r matches Err(ReadError::Decode(_)),
        },
{
    match read_var_u32(data, start, end) {
        Ok((count, next)) => match advance(start, next, end) {
            Some(pos) => Ok((count, pos)),
            None => Err(ReadError::Malformed),
        },
        Err(e) => Err(ReadError::Decode(e)),
    }
}

/// The ranges of the entries of a section whose entries are handed on as
/// they are. The section lies between `start` and `end`; it announces how
/// many entries it holds, and the entries follow one another up to `end`.
pub fn collect_spans(kind: ItemKind, data: &[u8], start: usize, end: usize) -> (r: Result<
    Vec<Span>,
    ReadError,
>)
    requires
        start <= end <= data.len(),
    ensures
        r matches Ok(spans) ==> {
            &&& spans_within(spans@, data@.len())
            &&& spans@.len() <= u32::MAX
            &&& forall|i: int|
                0 <= i < spans@.len() ==> start < (#[trigger] spans@[i]).start < spans@[i].end
                    <= end
            &&& forall|i: int|
                0 <= i < spans@.len() - 1 ==> (#[trigger] spans@[i]).end == spans@[i + 1].start
            &&& spans@.len() > 0 ==> spans@.last().end == end
        },
        match section_head(data@, start as int, end as int) {
            Some((count, first)) => {
                let step = item_step(kind, data@, end as int);
                &&& (r is Ok) == (reach(step, first, end as int, count as nat) == Some(end as int))
                &&& r matches Ok(spans) ==> {
                    &&& spans@.len() == count
                    &&& forall|i: int|
                        0 <= i < spans@.len() ==> reach(step, first, end as int, i as nat) == Some(
                            (#[trigger] spans@[i]).start as int,
                        )
                }
            },
            None => r is Err,
        },
{
    let (count, first) = read_count(data, start, end)?;
    let ghost step = item_step(kind, data@, end as int);
    let mut spans: Vec<Span> = Vec::new();
    let mut pos: usize = first;
    let mut i: u32 = 0;
    while i < count
        invariant
            start < pos <= end <= data.len(),
            i <= count,
            section_head(data@, start as int, end as int) == Some((count, first as int)),
            step == item_step(kind, data@, end as int),
            reach(step, first as int, end as int, i as nat) == Some(pos as int),
            forall|k: int|
                0 <= k < spans@.len() ==> reach(step, first as int, end as int, k as nat) == Some(
                    (#[trigger] spans@[k]).start as int,
                ),
            spans@.len() == i,
            spans_within(spans@, data@.len()),
            forall|k: int|
                0 <= k < spans@.len() ==> start < (#[trigger] spans@[k]).start < spans@[k].end
                    <= end,
            forall|k: int|
                0 <= k < spans@.len() - 1 ==> (#[trigger] spans@[k]).end == spans@[k + 1].start,
            spans@.len() > 0 ==> spans@.last().end == pos,
        decreases count - i,
    {
        proof {
            if reach(step, first as int, end as int, (i + 1) as nat) is None {
                lemma_reach_fails(step, first as int, end as int, (i + 1) as nat, count as nat);
            }
        }
        let next = match skip_item(kind, data, pos, end) {
            Ok(next) => next,
            Err(e) => {
                return Err(ReadError::Decode(e));
            },
        };
        let next = match advance(pos, next, end) {
            Some(next) => next,
            None => {
                return Err(ReadError::Malformed);
            },
        };
        spans.push(Span { start: pos, end: next });
        pos = next;
        i = i + 1;
    }
    if pos != end {
        return Err(ReadError::Malformed);
    }
    Ok(spans)
}

/// `ty` is the number that stands at place `i` behind the head of a
/// section of numbers.
pub open spec fn function_at(data: Seq<u8>, first: int, end: int, i: int, ty: u32) -> bool {
    match reach(u32_step(data, end), first, end, i as nat) {
        Some(p) => var_u32_at(data, p, end) matches Some((found, _)) && found == ty,
        None => false,
    }
}

/// `export` is the export that stands at place `i` behind the head of an
/// export section.
pub open spec fn export_read(data: Seq<u8>, first: int, end: int, i: int, export: Export) -> bool {
    match reach(export_step(data, end), first, end, i as nat) {
        Some(p) => export_at(data, p, end) matches Some((found, _)) && found == export,
        None => false,
    }
}

/// `group` is the recursion group that stands at place `i` behind the head
/// of a type section.
pub open spec fn group_read(data: Seq<u8>, first: int, end: int, i: int, group: RecGroup) -> bool {
    match reach(group_step(data, end), first, end, i as nat) {
        Some(p) => rec_group_at(data, p, end) matches Some((explicit, signatures, next)) && {
            &&& group.explicit == explicit
            &&& group.span.start == p
            &&& group.span.end == next
            &&& group.types@.len() == signatures.len()
            &&& forall|j: int|
                0 <= j < signatures.len() ==> (#[trigger] group.types@[j]).func == signatures[j]
        },
        None => false,
    }
}

/// The type index of each function that a function section declares.
pub fn collect_functions(data: &[u8], start: usize, end: usize) -> (r: Result<
    Vec<u32>,
    ReadError,
>)
    requires
        start <= end <= data.len(),
    ensures
        r matches Ok(functions) ==> functions@.len() <= u32::MAX,
        match section_head(data@, start as int, end as int) {
            Some((count, first)) => {
                let step = u32_step(data@, end as int);
                &&& (r is Ok) == (reach(step, first, end as int, count as nat) == Some(end as int))
                &&& r matches Ok(functions) ==> {
                    &&& functions@.len() == count
                    &&& forall|i: int|
                        0 <= i < functions@.len() ==> function_at(
                            data@,
                            first,
                            end as int,
                            i,
                            #[trigger] functions@[i],
                        )
                }
            },
            None => r is Err,
        },
{
    let (count, first) = read_count(data, start, end)?;
    let ghost step = u32_step(data@, end as int);
    let mut functions: Vec<u32> = Vec::new();
    let mut pos: usize = first;
    let mut i: u32 = 0;
    while i < count
        invariant
            start < pos <= end <= data.len(),
            i <= count,
            functions@.len() == i,
            section_head(data@, start as int, end as int) == Some((count, first as int)),
            step == u32_step(data@, end as int),
            reach(step, first as int, end as int, i as nat) == Some(pos as int),
            forall|k: int|
                0 <= k < functions@.len() ==> function_at(
                    data@,
                    first as int,
                    end as int,
                    k,
                    #[trigger] functions@[k],
                ),
        decreases count - i,
    {
        proof {
            if reach(step, first as int, end as int, (i + 1) as nat) is None {
                lemma_reach_fails(step, first as int, end as int, (i + 1) as nat, count as nat);
            }
        }
        let ghost before = functions@;
        let (ty, next) = read_count(data, pos, end)?;
        proof {
            assert forall|k: int| 0 <= k < i + 1 implies function_at(
                data@,
                first as int,
                end as int,
                k,
                #[trigger] before.push(ty)[k],
            ) by {
                if k < i {
                    assert(function_at(data@, first as int, end as int, k, before[k]));
                }
            }
        }
        functions.push(ty);
        pos = next;
        i = i + 1;
    }
    if pos != end {
        return Err(ReadError::Malformed);
    }
    Ok(functions)
}

/// The exports that an export section lists.
pub fn collect_exports(data: &[u8], start: usize, end: usize) -> (r: Result<
    Vec<Export>,
    ReadError,
>)
    requires
        start <= end <= data.len(),
    ensures
        r matches Ok(exports) ==> exports@.len() <= u32::MAX,
        match section_head(data@, start as int, end as int) {
            Some((count, first)) => {
                let step = export_step(data@, end as int);
                &&& (r is Ok) == (reach(step, first, end as int, count as nat) == Some(end as int))
                &&& r matches Ok(exports) ==> {
                    &&& exports@.len() == count
                    &&& forall|i: int|
                        0 <= i < exports@.len() ==> export_read(
                            data@,
                            first,
                            end as int,
                            i,
                            #[trigger] exports@[i],
                        )
                }
            },
            None => r is Err,
        },
{
    let (count, first) = read_count(data, start, end)?;
    let ghost step = export_step(data@, end as int);
    let mut exports: Vec<Export> = Vec::new();
    let mut pos: usize = first;
    let mut i: u32 = 0;
    while i < count
        invariant
            start < pos <= end <= data.len(),
            i <= count,
            exports@.len() == i,
            section_head(data@, start as int, end as int) == Some((count, first as int)),
            step == export_step(data@, end as int),
            reach(step, first as int, end as int, i as nat) == Some(pos as int),
            forall|k: int|
                0 <= k < exports@.len() ==> export_read(
                    data@,
                    first as int,
                    end as int,
                    k,
                    #[trigger] exports@[k],
                ),
        decreases count - i,
    {
        proof {
            if reach(step, first as int, end as int, (i + 1) as nat) is None {
                lemma_reach_fails(step, first as int, end as int, (i + 1) as nat, count as nat);
            }
        }
        let ghost before = exports@;
        let (export, next) = match read_export(data, pos, end) {
            Ok(found) => found,
            Err(e) => {
                return Err(ReadError::Decode(e));
            },
        };
        let next = match advance(pos, next, end) {
            Some(next) => next,
            None => {
                return Err(ReadError::Malformed);
            },
        };
        exports.push(export);
        proof {
            assert forall|k: int| 0 <= k < exports@.len() implies export_read(
                data@,
                first as int,
                end as int,
                k,
                #[trigger] exports@[k],
            ) by {
                if k < i {
                    assert(export_read(data@, first as int, end as int, k, before[k]));
                }
            }
        }
        pos = next;
        i = i + 1;
    }
    if pos != end {
        return Err(ReadError::Malformed);
    }
    Ok(exports)
}

/// The members of a group as the record keeps them.
fn sub_types(signatures: Vec<Option<FuncType>>) -> (r: Vec<SubTypeInfo>)
    ensures
        r@.len() == signatures@.len(),
        forall|i: int| 0 <= i < r@.len() ==> (#[trigger] r@[i]).func == signatures@[i],
{
    let mut signatures = signatures;
    let ghost all = signatures@;
    let mut reversed: Vec<SubTypeInfo> = Vec::new();
    while signatures.len() > 0
        invariant
            signatures@.len() + reversed@.len() == all.len(),
            signatures@ == all.subrange(0, signatures@.len() as int),
            forall|i: int|
                0 <= i < reversed@.len() ==> (#[trigger] reversed@[i]).func == all[all.len() - 1
                    - i],
        decreases signatures.len(),
    {
        let func = signatures.pop().unwrap();
        reversed.push(SubTypeInfo { func });
    }
    let mut out: Vec<SubTypeInfo> = Vec::new();
    while reversed.len() > 0
        invariant
            out@.len() + reversed@.len() == all.len(),
            forall|i: int|
                0 <= i < reversed@.len() ==> (#[trigger] reversed@[i]).func == all[all.len() - 1
                    - i],
            forall|i: int| 0 <= i < out@.len() ==> (#[trigger] out@[i]).func == all[i],
        decreases reversed.len(),
    {
        let member = reversed.pop().unwrap();
        out.push(member);
    }
    out
}

/// How many types the first `k` recursion groups behind the head of a type
/// section hold.
pub open spec fn members_to(data: Seq<u8>, first: int, end: int, k: nat) -> int
    decreases k,
{
    if k == 0 {
        0
    } else {
        members_to(data, first, end, (k - 1) as nat) + match reach(
            group_step(data, end),
            first,
            end,
            (k - 1) as nat,
        ) {
            Some(p) => match rec_group_at(data, p, end) {
                Some((_, signatures, _)) => signatures.len() as int,
                None => 0,
            },
            None => 0,
        }
    }
}

/// The more groups are counted, the more types there are.
pub proof fn lemma_members_grow(data: Seq<u8>, first: int, end: int, k: nat, n: nat)
    requires
        k <= n,
    ensures
        members_to(data, first, end, k) <= members_to(data, first, end, n),
    decreases n,
{
    if k < n {
        lemma_members_grow(data, first, end, k, (n - 1) as nat);
    }
}

/// The recursion groups of a type section. A section that holds more types
/// than 32 bits can count is rejected.
pub fn collect_types(data: &[u8], start: usize, end: usize) -> (r: Result<Vec<RecGroup>, ReadError>)
    requires
        start <= end <= data.len(),
    ensures
        r matches Ok(groups) ==> {
            &&& spans_within(group_spans(groups@), data@.len())
            &&& types_before(groups@, groups@.len() as int) <= u32::MAX
        },
        match section_head(data@, start as int, end as int) {
            Some((count, first)) => {
                let step = group_step(data@, end as int);
                &&& (r is Ok) == (reach(step, first, end as int, count as nat) == Some(end as int)
                    && members_to(data@, first, end as int, count as nat) <= u32::MAX)
                &&& r matches Ok(groups) ==> {
                    &&& groups@.len() == count
                    &&& forall|i: int|
                        0 <= i < groups@.len() ==> group_read(
                            data@,
                            first,
                            end as int,
                            i,
                            #[trigger] groups@[i],
                        )
                }
            },
            None => r is Err,
        },
{
    let (count, first) = read_count(data, start, end)?;
    let ghost step = group_step(data@, end as int);
    let mut groups: Vec<RecGroup> = Vec::new();
    let mut pos: usize = first;
    let mut total: u64 = 0;
    let mut i: u32 = 0;
    while i < count
        invariant
            start < pos <= end <= data.len(),
            i <= count,
            section_head(data@, start as int, end as int) == Some((count, first as int)),
            step == group_step(data@, end as int),
            reach(step, first as int, end as int, i as nat) == Some(pos as int),
            forall|k: int|
                0 <= k < groups@.len() ==> group_read(
                    data@,
                    first as int,
                    end as int,
                    k,
                    #[trigger] groups@[k],
                ),
            groups@.len() == i,
            spans_within(group_spans(groups@), data@.len()),
            total == types_before(groups@, groups@.len() as int),
            total == members_to(data@, first as int, end as int, i as nat),
            total <= u32::MAX,
        decreases count - i,
    {
        proof {
            if reach(step, first as int, end as int, (i + 1) as nat) is None {
                lemma_reach_fails(step, first as int, end as int, (i + 1) as nat, count as nat);
            }
        }
        let (explicit, signatures, next) = match read_rec_group(data, pos, end) {
            Ok(found) => found,
            Err(e) => {
                return Err(ReadError::Decode(e));
            },
        };
        let next = match advance(pos, next, end) {
            Some(next) => next,
            None => {
                return Err(ReadError::Malformed);
            },
        };
        let members: usize = signatures.len();
        if members as u64 > u32::MAX as u64 - total {
            proof {
                lemma_members_grow(
                    data@,
                    first as int,
                    end as int,
                    (i + 1) as nat,
                    count as nat,
                );
            }
            return Err(ReadError::Malformed);
        }
        let ghost read = signatures@;
        let types = sub_types(signatures);
        let ghost before = groups@;
        groups.push(RecGroup { explicit, types, span: Span { start: pos, end: next } });
        proof {
            assert forall|k: int| 0 <= k < groups@.len() implies group_read(
                data@,
                first as int,
                end as int,
                k,
                #[trigger] groups@[k],
            ) by {
                if k < i {
                    assert(group_read(data@, first as int, end as int, k, before[k]));
                }
            }
            lemma_types_before_prefix(before, groups@, before.len() as int);
            assert forall|k: int| 0 <= k < groups@.len() implies (#[trigger] group_spans(
                groups@,
            )[k]).within(data@.len()) by {
                if k < before.len() {
                    assert(group_spans(before)[k].within(data@.len()));
                    assert(groups@[k] == before[k]);
                }
            }
        }
        total = total + members as u64;
        pos = next;
        i = i + 1;
    }
    if pos != end {
        return Err(ReadError::Malformed);
    }
    Ok(groups)
}

/// Whether the entries of a section can be read one behind the other, as
/// many as the section announces, up to its end.
pub open spec fn complete(step: spec_fn(int) -> Option<int>, data: Seq<u8>, start: int, end: int)
    -> bool {
    section_head(data, start, end) matches Some((count, first)) && reach(
        step,
        first,
        end,
        count as nat,
    ) == Some(end)
}

/// `spans` are the ranges of the entries of the section between `start`
/// and `end`, whose entries are handed on as they are.
pub open spec fn spans_read(kind: ItemKind, data: Seq<u8>, start: int, end: int, spans: Seq<Span>)
    -> bool {
    section_head(data, start, end) matches Some((count, first)) && {
        &&& spans.len() == count
        &&& forall|i: int|
            0 <= i < spans.len() ==> reach(item_step(kind, data, end), first, end, i as nat)
                == Some((#[trigger] spans[i]).start as int)
        &&& forall|i: int| 0 <= i < spans.len() - 1 ==> (#[trigger] spans[i]).end == spans[i + 1].start
        &&& spans.len() > 0 ==> spans.last().end == end
    }
}

/// `functions` are the type indices that the function section between
/// `start` and `end` lists.
pub open spec fn functions_read(data: Seq<u8>, start: int, end: int, functions: Seq<u32>) -> bool {
    section_head(data, start, end) matches Some((count, first)) && {
        &&& functions.len() == count
        &&& forall|i: int|
            0 <= i < functions.len() ==> function_at(data, first, end, i, #[trigger] functions[i])
    }
}

/// `exports` are the exports that the export section between `start` and
/// `end` lists.
pub open spec fn exports_read(data: Seq<u8>, start: int, end: int, exports: Seq<Export>) -> bool {
    section_head(data, start, end) matches Some((count, first)) && {
        &&& exports.len() == count
        &&& forall|i: int|
            0 <= i < exports.len() ==> export_read(data, first, end, i, #[trigger] exports[i])
    }
}

/// `groups` are the recursion groups that the type section between `start`
/// and `end` lists.
pub open spec fn types_read(data: Seq<u8>, start: int, end: int, groups: Seq<RecGroup>) -> bool {
    section_head(data, start, end) matches Some((count, first)) && {
        &&& groups.len() == count
        &&& forall|i: int| 0 <= i < groups.len() ==> group_read(data, first, end, i, #[trigger] groups[i])
    }
}

/// The kind of the entries of the section with identifier `id`, where they
/// are handed on as they are.
pub open spec fn item_kind_of(id: u8) -> Option<ItemKind> {
    if id == 4 {
        Some(ItemKind::Table)
    } else if id == 5 {
        Some(ItemKind::Memory)
    } else if id == 6 {
        Some(ItemKind::Global)
    } else if id == 9 {
        Some(ItemKind::Element)
    } else if id == 11 {
        Some(ItemKind::Data)
    } else if id == 13 {
        Some(ItemKind::Tag)
    } else {
        None
    }
}

/// Whether the section with identifier `id` whose contents lie between
/// `start` and `end` can be read: the identifier is one of a core module;
/// a custom section has a name, and its payload starts within it; the
/// entries of any other section can be read one behind the other, as many
/// as the section announces, up to its end; the types of a type section
/// and the imports of an import section can be counted in 32 bits; and a
/// start section and a data count section hold a number.
pub open spec fn section_ok(id: u8, data: Seq<u8>, start: int, end: int) -> bool {
    if id == 0 {
        custom_at(data, start, end) matches Some((_, payload)) && start <= payload <= end
    } else if id == 1 {
        section_head(data, start, end) matches Some((count, first)) && reach(
            group_step(data, end),
            first,
            end,
            count as nat,
        ) == Some(end) && members_to(data, first, end, count as nat) <= u32::MAX
    } else if id == 2 {
        imports_at(data, start, end) matches Some(imports) && imports.len() <= u32::MAX
    } else if id == 3 {
        complete(u32_step(data, end), data, start, end)
    } else if id == 7 {
        complete(export_step(data, end), data, start, end)
    } else if id == 8 || id == 12 {
        section_head(data, start, end) is Some
    } else {
        match item_kind_of(id) {
            Some(kind) => complete(item_step(kind, data, end), data, start, end),
            None => false,
        }
    }
}

/// The names of a list of sections.
pub open spec fn names(list: Seq<String>) -> Seq<Seq<char>> {
    Seq::new(list.len(), |i: int| list[i]@)
}

/// The name of the custom section between `start` and `end`, if it is
/// passed over: it begins with `__signature.`, and its name tells no
/// function or its payload holds no whole tags.
pub open spec fn passed_over(data: Seq<u8>, start: int, end: int) -> Seq<Seq<char>> {
    match custom_at(data, start, end) {
        Some((name, _)) => if has_prefix(name, "__signature."@) && signature_at(data, start, end)
            is None {
            seq![name]
        } else {
            Seq::empty()
        },
        None => Seq::empty(),
    }
}

/// The signature that the custom section between `start` and `end` gives
/// a function: the function that its name tells and the tags that its
/// payload holds, if the name tells a function and the payload holds
/// whole tags.
pub open spec fn signature_at(data: Seq<u8>, start: int, end: int) -> Option<
    (SignatureKeyView, Seq<Seq<u8>>),
> {
    match custom_at(data, start, end) {
        Some((name, payload)) => match (
            signature_key_of(name),
            ValueTypeMeta::spec_from_bytes(data.subrange(payload, end)),
        ) {
            (Some(key), Some(tags)) => Some((key, tags)),
            _ => None,
        },
        None => None,
    }
}

/// How far the bodies of a code section are read.
pub ghost struct CodeState {
    /// How many bodies the section announces; zero where none is awaited.
    pub announced: u32,
    /// The bodies that are read so far of those that are announced.
    pub pending: Seq<Span>,
    /// The bodies of the last code section that was read to its end.
    pub code: Seq<Span>,
}

/// What a chunk makes of the bodies that are read so far; nothing where
/// the chunk cannot be taken in. A header has to be that of a core
/// module; a section has to lie within the input and to be readable as
/// [`section_ok`] says; the head of a code section announces its bodies,
/// and each body is taken in with its range, unless none is announced;
/// the end, a fault of the parser and anything else cannot be taken in.
pub open spec fn chunk_step(data: Seq<u8>, state: CodeState, chunk: Result<Chunk, DecodeError>)
    -> Option<CodeState> {
    match chunk {
        Ok(Chunk::Version { module }) => if module {
            Some(state)
        } else {
            None
        },
        Ok(Chunk::Section { id, start, end }) => if start <= end <= data.len() && section_ok(
            id,
            data,
            start as int,
            end as int,
        ) {
            Some(state)
        } else {
            None
        },
        Ok(Chunk::CodeStart { count }) => Some(
            CodeState { announced: count, pending: Seq::empty(), code: state.code },
        ),
        Ok(Chunk::CodeEntry { start, end }) => if state.announced == 0 {
            Some(state)
        } else if !(start <= end <= data.len()) || state.pending.len() >= state.announced {
            None
        } else {
            let pending = state.pending.push(Span { start: start as usize, end: end as usize });
            if pending.len() == state.announced {
                Some(CodeState { announced: 0, pending: Seq::empty(), code: pending })
            } else {
                Some(CodeState { announced: state.announced, pending, code: state.code })
            }
        },
        _ => None,
    }
}

/// How far the bodies are read after the first `k` chunks; nothing where
/// one of them could not be taken in.
pub open spec fn taken(data: Seq<u8>, chunks: Seq<Result<Chunk, DecodeError>>, k: int) -> Option<
    CodeState,
>
    decreases k,
{
    if k <= 0 {
        Some(CodeState { announced: 0, pending: Seq::empty(), code: Seq::empty() })
    } else {
        match taken(data, chunks, k - 1) {
            Some(state) => chunk_step(data, state, chunks[k - 1]),
            None => None,
        }
    }
}

/// The module ends with chunk `k`: every chunk before it is taken in, and
/// chunk `k` is the end.
pub open spec fn ends_at(data: Seq<u8>, chunks: Seq<Result<Chunk, DecodeError>>, k: int) -> bool {
    0 <= k < chunks.len() && taken(data, chunks, k) is Some && chunks[k] matches Ok(Chunk::End)
}

/// Whether an input can be read as a core module: the chunks that the
/// parser cuts it into can be taken in, one by one, up to the end of the
/// module.
pub open spec fn readable(data: Seq<u8>) -> bool {
    exists|k: int| ends_at(data, chunks_of(data), k)
}

/// Where the contents of the last section with identifier `id` among the
/// first `k` chunks lie.
pub open spec fn last_section(chunks: Seq<Result<Chunk, DecodeError>>, id: u8, k: int) -> Option<
    (int, int),
>
    decreases k,
{
    if k <= 0 {
        None
    } else {
        match chunks[k - 1] {
            Ok(Chunk::Section { id: found, start, end }) => if found == id {
                Some((start as int, end as int))
            } else {
                last_section(chunks, id, k - 1)
            },
            _ => last_section(chunks, id, k - 1),
        }
    }
}

/// The tags that the custom sections among the first `k` chunks give the
/// function that `key` names: those of the last section that gives it
/// any.
pub open spec fn tags_after(
    data: Seq<u8>,
    chunks: Seq<Result<Chunk, DecodeError>>,
    k: int,
    key: SignatureKeyView,
) -> Option<Seq<Seq<u8>>>
    decreases k,
{
    if k <= 0 {
        None
    } else {
        let rest = tags_after(data, chunks, k - 1, key);
        match chunks[k - 1] {
            Ok(Chunk::Section { id, start, end }) => if id == 0 {
                match signature_at(data, start as int, end as int) {
                    Some((found, tags)) => if found == key {
                        Some(tags)
                    } else {
                        rest
                    },
                    None => rest,
                }
            } else {
                rest
            },
            _ => rest,
        }
    }
}

/// The names of the custom sections among the first `k` chunks that are
/// passed over, in order.
pub open spec fn skipped_after(data: Seq<u8>, chunks: Seq<Result<Chunk, DecodeError>>, k: int)
    -> Seq<Seq<char>>
    decreases k,
{
    if k <= 0 {
        Seq::empty()
    } else {
        skipped_after(data, chunks, k - 1) + match chunks[k - 1] {
            Ok(Chunk::Section { id, start, end }) => if id == 0 {
                passed_over(data, start as int, end as int)
            } else {
                Seq::empty()
            },
            _ => Seq::empty(),
        }
    }
}

/// Where `k` chunks are taken in, so is every shorter run of them, and
/// none of them is the end.
pub proof fn lemma_taken_before(
    data: Seq<u8>,
    chunks: Seq<Result<Chunk, DecodeError>>,
    j: int,
    k: int,
)
    requires
        0 <= j <= k,
        taken(data, chunks, k) is Some,
    ensures
        taken(data, chunks, j) is Some,
        j < k ==> !(chunks[j] matches Ok(Chunk::End)),
    decreases k,
{
    if j < k {
        if j < k - 1 {
            lemma_taken_before(data, chunks, j, k - 1);
        }
    }
}

/// Where chunk `i` cannot be taken in and is not the end, the module ends
/// nowhere.
pub proof fn lemma_stopped(data: Seq<u8>, chunks: Seq<Result<Chunk, DecodeError>>, i: int)
    requires
        0 <= i,
        taken(data, chunks, i) is Some,
        taken(data, chunks, i + 1) is None,
        !(chunks[i] matches Ok(Chunk::End)),
    ensures
        forall|k: int| !ends_at(data, chunks, k),
{
    assert forall|k: int| !ends_at(data, chunks, k) by {
        if ends_at(data, chunks, k) {
            if k < i {
                lemma_taken_before(data, chunks, k, i);
            } else if k > i {
                lemma_taken_before(data, chunks, i + 1, k);
            }
        }
    }
}

/// Where chunk `i` is the end and every chunk before it is taken in, the
/// module ends there and nowhere else.
pub proof fn lemma_ended(data: Seq<u8>, chunks: Seq<Result<Chunk, DecodeError>>, i: int)
    requires
        0 <= i < chunks.len(),
        taken(data, chunks, i) is Some,
        chunks[i] matches Ok(Chunk::End),
    ensures
        ends_at(data, chunks, i),
        forall|k: int| ends_at(data, chunks, k) ==> k == i,
{
    assert forall|k: int| ends_at(data, chunks, k) implies k == i by {
        if k < i {
            lemma_taken_before(data, chunks, k, i);
        } else if k > i {
            lemma_taken_before(data, chunks, i, k);
        }
    }
}

/// Where every chunk is taken in, the module ends nowhere.
pub proof fn lemma_open(data: Seq<u8>, chunks: Seq<Result<Chunk, DecodeError>>)
    requires
        taken(data, chunks, chunks.len() as int) is Some,
    ensures
        forall|k: int| !ends_at(data, chunks, k),
{
    assert forall|k: int| !ends_at(data, chunks, k) by {
        if ends_at(data, chunks, k) {
            lemma_taken_before(data, chunks, k, chunks.len() as int);
        }
    }
}

impl<'a> ParsedModule<'a> {
    /// Every range of the record lies within the input, no function has two
    /// signatures, and the entries of each kind can be counted in 32 bits.
    pub open spec fn wf(&self) -> bool {
        let len = self.data@.len();
        &&& spans_within(group_spans(self.types@), len)
        &&& spans_within(self.tables@, len)
        &&& spans_within(self.memories@, len)
        &&& spans_within(self.tags@, len)
        &&& spans_within(self.globals@, len)
        &&& spans_within(self.elements@, len)
        &&& spans_within(self.data_segments@, len)
        &&& spans_within(self.code@, len)
        &&& self.signatures.wf()
        &&& types_before(self.types@, self.types@.len() as int) <= u32::MAX
        &&& self.imports@.len() <= u32::MAX
        &&& self.functions@.len() <= u32::MAX
        &&& self.tables@.len() <= u32::MAX
        &&& self.globals@.len() <= u32::MAX
        &&& self.exports@.len() <= u32::MAX
        &&& self.code@.len() <= u32::MAX
    }

    /// A record of a module without sections.
    pub fn empty(data: &'a [u8]) -> (r: Self)
        ensures
            r.wf(),
            r.data@ == data@,
            r.types@.len() == 0,
            r.imports@.len() == 0,
            r.functions@.len() == 0,
            r.tables@.len() == 0,
            r.memories@.len() == 0,
            r.tags@.len() == 0,
            r.globals@.len() == 0,
            r.exports@.len() == 0,
            r.start is None,
            r.elements@.len() == 0,
            r.data_count is None,
            r.data_segments@.len() == 0,
            r.code@.len() == 0,
            r.signatures.entries().len() == 0,
            r.skipped@.len() == 0,
    {
        ParsedModule {
            data,
            types: Vec::new(),
            imports: Vec::new(),
            functions: Vec::new(),
            tables: Vec::new(),
            memories: Vec::new(),
            tags: Vec::new(),
            globals: Vec::new(),
            exports: Vec::new(),
            start: None,
            elements: Vec::new(),
            data_count: None,
            data_segments: Vec::new(),
            code: Vec::new(),
            signatures: SignatureTable::new(),
            skipped: Vec::new(),
        }
    }

    /// The record holds what the section with identifier `id` between
    /// `start` and `end` holds, where the identifier is not that of a
    /// custom section.
    pub open spec fn filled(&self, id: u8, start: int, end: int) -> bool {
        let data = self.data@;
        if id == 1 {
            types_read(data, start, end, self.types@)
        } else if id == 2 {
            imports_at(data, start, end) == Some(self.imports@)
        } else if id == 3 {
            functions_read(data, start, end, self.functions@)
        } else if id == 4 {
            spans_read(ItemKind::Table, data, start, end, self.tables@)
        } else if id == 5 {
            spans_read(ItemKind::Memory, data, start, end, self.memories@)
        } else if id == 6 {
            spans_read(ItemKind::Global, data, start, end, self.globals@)
        } else if id == 7 {
            exports_read(data, start, end, self.exports@)
        } else if id == 8 {
            section_head(data, start, end) matches Some((f, _)) && self.start == Some(f)
        } else if id == 9 {
            spans_read(ItemKind::Element, data, start, end, self.elements@)
        } else if id == 11 {
            spans_read(ItemKind::Data, data, start, end, self.data_segments@)
        } else if id == 12 {
            section_head(data, start, end) matches Some((count, _)) && self.data_count == Some(
                count,
            )
        } else if id == 13 {
            spans_read(ItemKind::Tag, data, start, end, self.tags@)
        } else {
            true
        }
    }

    /// The record holds nothing of the section with identifier `id`.
    pub open spec fn blank(&self, id: u8) -> bool {
        if id == 1 {
            self.types@.len() == 0
        } else if id == 2 {
            self.imports@.len() == 0
        } else if id == 3 {
            self.functions@.len() == 0
        } else if id == 4 {
            self.tables@.len() == 0
        } else if id == 5 {
            self.memories@.len() == 0
        } else if id == 6 {
            self.globals@.len() == 0
        } else if id == 7 {
            self.exports@.len() == 0
        } else if id == 8 {
            self.start is None
        } else if id == 9 {
            self.elements@.len() == 0
        } else if id == 11 {
            self.data_segments@.len() == 0
        } else if id == 12 {
            self.data_count is None
        } else if id == 13 {
            self.tags@.len() == 0
        } else {
            true
        }
    }

    /// `later` holds for every section but the one with identifier `id`
    /// what this record holds, and the same bodies.
    pub open spec fn kept_but(&self, id: u8, later: &ParsedModule<'a>) -> bool {
        &&& later.data == self.data
        &&& later.code == self.code
        &&& id != 0 ==> later.signatures == self.signatures
        &&& id != 0 ==> later.skipped == self.skipped
        &&& id != 1 ==> later.types == self.types
        &&& id != 2 ==> later.imports == self.imports
        &&& id != 3 ==> later.functions == self.functions
        &&& id != 4 ==> later.tables == self.tables
        &&& id != 5 ==> later.memories == self.memories
        &&& id != 6 ==> later.globals == self.globals
        &&& id != 7 ==> later.exports == self.exports
        &&& id != 8 ==> later.start == self.start
        &&& id != 9 ==> later.elements == self.elements
        &&& id != 11 ==> later.data_segments == self.data_segments
        &&& id != 12 ==> later.data_count == self.data_count
        &&& id != 13 ==> later.tags == self.tags
    }

    /// `later` knows the signatures that this record knows and the one
    /// that the custom section between `start` and `end` gives, if it
    /// gives one; where it gives one for a function that has one, the new
    /// one stands.
    pub open spec fn recorded(&self, start: int, end: int, later: &ParsedModule<'a>) -> bool {
        &&& names(later.skipped@) == names(self.skipped@) + passed_over(self.data@, start, end)
        &&& match signature_at(self.data@, start, end) {
            Some((key, tags)) => {
                &&& later.signatures.tags(key) == Some(tags)
                &&& forall|other: SignatureKeyView|
                    other != key ==> #[trigger] later.signatures.tags(other)
                        == self.signatures.tags(other)
            },
            None => later.signatures == self.signatures,
        }
    }

    /// Takes in the section with identifier `id` whose contents lie between
    /// `start` and `end`. A custom section is searched for the tags of a
    /// function; a section with an identifier that a core module does not
    /// have is rejected. The record then holds what the section holds, in
    /// place of what it held of an earlier section with that identifier.
    pub fn read_section(&mut self, id: u8, start: usize, end: usize) -> (r: Result<(), ReadError>)
        requires
            old(self).wf(),
            start <= end <= old(self).data@.len(),
        ensures
            final(self).data == old(self).data,
            (r is Ok) == section_ok(id, old(self).data@, start as int, end as int),
            r is Ok ==> {
                &&& final(self).wf()
                &&& old(self).kept_but(id, final(self))
                &&& id != 0 ==> final(self).filled(id, start as int, end as int)
                &&& id == 0 ==> old(self).recorded(start as int, end as int, final(self))
            },
            !(id <= 13) ==> (r matches Err(ReadError::UnknownSection(found)) && found == id),
    {
        let data = self.data;
        if id == 0 {
            let (name, payload) = match read_custom(data, start, end) {
                Ok(found) => found,
                Err(e) => {
                    return Err(ReadError::Decode(e));
                },
            };
            let payload_start = match to_usize(payload) {
                Some(at) => at,
                None => {
                    return Err(ReadError::Malformed);
                },
            };
            if payload_start < start || payload_start > end {
                return Err(ReadError::Malformed);
            }
            let given = self.signatures.record(
                name.as_str(),
                slice_subrange(data, payload_start, end),
            );
            if !given && starts_with(name.as_str(), "__signature.") {
                let ghost before = self.skipped@;
                self.skipped.push(name);
                assert(names(self.skipped@) =~= names(before) + seq![name@]);
            } else {
                assert(names(self.skipped@) =~= names(self.skipped@) + Seq::<Seq<char>>::empty());
            }
        } else if id == 1 {
            self.types = collect_types(data, start, end)?;
        } else if id == 2 {
            let imports = match read_imports(data, start, end) {
                Ok(imports) => imports,
                Err(Failure::ParseError(e)) => {
                    return Err(ReadError::Decode(e));
                },
                Err(_) => {
                    return Err(ReadError::Malformed);
                },
            };
            if imports.len() > u32::MAX as usize {
                return Err(ReadError::Malformed);
            }
            self.imports = imports;
        } else if id == 3 {
            self.functions = collect_functions(data, start, end)?;
        } else if id == 4 {
            self.tables = collect_spans(ItemKind::Table, data, start, end)?;
        } else if id == 5 {
            self.memories = collect_spans(ItemKind::Memory, data, start, end)?;
        } else if id == 6 {
            self.globals = collect_spans(ItemKind::Global, data, start, end)?;
        } else if id == 7 {
            self.exports = collect_exports(data, start, end)?;
        } else if id == 8 {
            let (func, _) = read_count(data, start, end)?;
            self.start = Some(func);
        } else if id == 9 {
            self.elements = collect_spans(ItemKind::Element, data, start, end)?;
        } else if id == 11 {
            self.data_segments = collect_spans(ItemKind::Data, data, start, end)?;
        } else if id == 12 {
            let (count, _) = read_count(data, start, end)?;
            self.data_count = Some(count);
        } else if id == 13 {
            self.tags = collect_spans(ItemKind::Tag, data, start, end)?;
        } else {
            return Err(ReadError::UnknownSection(id));
        }
        Ok(())
    }

    /// The record holds what the first `k` chunks bring: of each kind of
    /// section what the last section of that kind holds, or nothing where
    /// there is none; the signatures that the custom sections give; and
    /// the bodies of the last code section that was read to its end.
    pub open spec fn gathered(&self, chunks: Seq<Result<Chunk, DecodeError>>, k: int) -> bool {
        &&& forall|id: u8|
            1 <= id <= 13 ==> match #[trigger] last_section(chunks, id, k) {
                Some((start, end)) => self.filled(id, start, end),
                None => self.blank(id),
            }
        &&& forall|key: SignatureKeyView| #[trigger]
            self.signatures.tags(key) == tags_after(self.data@, chunks, k, key)
        &&& names(self.skipped@) == skipped_after(self.data@, chunks, k)
        &&& taken(self.data@, chunks, k) matches Some(state) && self.code@ == state.code
    }

    /// Puts a record together from the chunks that the parser cut the
    /// input into. The chunks are taken in one by one, as [`chunk_step`]
    /// says, up to the end of the module; the record then holds what
    /// [`ParsedModule::gathered`] says. A component, a section that a
    /// core module does not have, a section that cannot be read, a fault
    /// of the parser and an input that does not come to its end are
    /// rejected.
    pub fn assemble(data: &'a [u8], chunks: &Vec<Result<Chunk, DecodeError>>) -> (r: Result<
        Self,
        ReadError,
    >)
        ensures
            (r is Ok) == (exists|k: int| ends_at(data@, chunks@, k)),
            r matches Ok(module) ==> {
                &&& module.wf()
                &&& module.data@ == data@
                &&& forall|k: int| ends_at(data@, chunks@, k) ==> module.gathered(chunks@, k)
            },
            (chunks@.len() > 0 && (chunks@[0] matches Ok(Chunk::Version { module: false }))) ==> (r
                matches Err(ReadError::NotAModule)),
    {
        let mut module = ParsedModule::empty(data);
        let mut announced: u32 = 0;
        let mut bodies: Vec<Span> = Vec::new();
        let mut i: usize = 0;
        proof {
            assert(bodies@ =~= Seq::<Span>::empty());
            assert(module.code@ =~= Seq::<Span>::empty());
            assert(names(module.skipped@) =~= Seq::<Seq<char>>::empty());
            assert forall|key: SignatureKeyView| #[trigger]
                module.signatures.tags(key) == tags_after(data@, chunks@, 0, key) by {
                assert(!module.signatures.contains(key)) by {
                    assert forall|at: int| !module.signatures.at(key, at) by {}
                }
            }
        }
        while i < chunks.len()
            invariant
                i <= chunks@.len(),
                module.wf(),
                module.data == data,
                spans_within(bodies@, data@.len()),
                taken(data@, chunks@, i as int) == Some(
                    CodeState { announced, pending: bodies@, code: module.code@ },
                ),
                module.gathered(chunks@, i as int),
                i > 0 ==> !(chunks@[0] matches Ok(Chunk::Version { module: false })),
            decreases chunks@.len() - i,
        {
            let ghost before = module;
            match &chunks[i] {
                Err(e) => {
                    proof {
                        lemma_stopped(data@, chunks@, i as int);
                    }
                    return Err(
                        ReadError::Decode(
                            DecodeError { message: e.message.clone(), offset: e.offset },
                        ),
                    );
                },
                Ok(Chunk::End) => {
                    proof {
                        lemma_ended(data@, chunks@, i as int);
                    }
                    return Ok(module);
                },
                Ok(Chunk::Version { module: is_module }) => {
                    if !*is_module {
                        proof {
                            lemma_stopped(data@, chunks@, i as int);
                        }
                        return Err(ReadError::NotAModule);
                    }
                },
                Ok(Chunk::Section { id, start, end }) => {
                    let span = match span_of(*start, *end, data.len()) {
                        Some(span) => span,
                        None => {
                            proof {
                                lemma_stopped(data@, chunks@, i as int);
                            }
                            return Err(ReadError::Malformed);
                        },
                    };
                    match module.read_section(*id, span.start, span.end) {
                        Ok(()) => {},
                        Err(e) => {
                            proof {
                                lemma_stopped(data@, chunks@, i as int);
                            }
                            return Err(e);
                        },
                    }
                    proof {
                        assert(before.kept_but(*id, &module));
                        assert forall|other: u8| 1 <= other <= 13 implies match #[trigger] last_section(
                            chunks@,
                            other,
                            i + 1,
                        ) {
                            Some((start, end)) => module.filled(other, start, end),
                            None => module.blank(other),
                        } by {
                            if other != *id {
                                assert(last_section(chunks@, other, i + 1) == last_section(
                                    chunks@,
                                    other,
                                    i as int,
                                ));
                            }
                        }
                    }
                },
                Ok(Chunk::CodeStart { count }) => {
                    announced = *count;
                    bodies = Vec::new();
                },
                Ok(Chunk::CodeEntry { start, end }) => {
                    if announced != 0 {
                        let span = match span_of(*start, *end, data.len()) {
                            Some(span) => span,
                            None => {
                                proof {
                                    lemma_stopped(data@, chunks@, i as int);
                                }
                                return Err(ReadError::Malformed);
                            },
                        };
                        if bodies.len() >= announced as usize {
                            proof {
                                lemma_stopped(data@, chunks@, i as int);
                            }
                            return Err(ReadError::Malformed);
                        }
                        bodies.push(span);
                        if bodies.len() == announced as usize {
                            module.code = bodies;
                            bodies = Vec::new();
                            announced = 0;
                        }
                    }
                },
                Ok(Chunk::Other) => {
                    proof {
                        lemma_stopped(data@, chunks@, i as int);
                    }
                    return Err(ReadError::Malformed);
                },
            }
            proof {
                assert(taken(data@, chunks@, i + 1) matches Some(state) && module.code@ == state.code);
                assert forall|key: SignatureKeyView| #[trigger]
                    module.signatures.tags(key) == tags_after(data@, chunks@, i + 1, key) by {
                    assert(before.signatures.tags(key) == tags_after(data@, chunks@, i as int, key));
                }
                assert forall|other: u8| 1 <= other <= 13 implies match #[trigger] last_section(
                    chunks@,
                    other,
                    i + 1,
                ) {
                    Some((start, end)) => module.filled(other, start, end),
                    None => module.blank(other),
                } by {
                    if !(chunks@[i as int] is Ok && chunks@[i as int]->Ok_0 is Section) {
                        assert(last_section(chunks@, other, i + 1) == last_section(
                            chunks@,
                            other,
                            i as int,
                        ));
                    }
                }
            }
            i = i + 1;
        }
        proof {
            lemma_open(data@, chunks@);
        }
        Err(ReadError::Malformed)
    }

    /// Reads a core module. The parser cuts the input into chunks, and the
    /// record is put together from them as [`ParsedModule::assemble`]
    /// says.
    pub fn read(data: &'a [u8]) -> (r: Result<Self, ReadError>)
        ensures
            (r is Ok) == readable(data@),
            r matches Ok(module) ==> {
                &&& module.wf()
                &&& module.data@ == data@
                &&& forall|k: int|
                    ends_at(data@, chunks_of(data@), k) ==> module.gathered(chunks_of(data@), k)
            },
    {
        let chunks = cut(data);
        Self::assemble(data, &chunks)
    }
}

} // verus!
