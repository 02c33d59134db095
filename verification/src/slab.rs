//! Merging the slab into the module that is woven.
//!
//! The slab is a module of its own. Its types, functions, tables, globals
//! and function bodies are added to the sections of the output, each at the
//! next free index of its kind, and the slab's own indices are renumbered
//! accordingly. What the slab exports under the names `alloc`, `free`,
//! `take` and `items` is what the woven code uses.

use crate::code::{body_taken, reencode_body};
use crate::encoder::{item_refused, reencode_sub_type, sub_type_refused, SectionKind};
use crate::error::{Failure, WeaveError};
use crate::indices::IndexMapper;
use crate::parse::{lemma_types_before_monotonic, types_before, ParsedModule, RecGroup};
use crate::reader::{ExternKind, RawExport};
use crate::renumber::{renumber_val_types, DenseIndices, Renumber};
use crate::sections::{FunctionOut, ItemSection, Sections};
use crate::table_slab::{str_eq, TableSlabApi};
use crate::type_allocator::TypeInterner;
use crate::types::FuncType;
use crate::weaver::Weaver;
use vstd::prelude::*;
use vstd::string::*;

verus! {

/// Whether a module can serve as the slab: it imports nothing, has no
/// memory, no tag, no start function, no element segment and no data, and
/// every body of it has a declaration.
pub open spec fn slab_accepted(slab: &ParsedModule) -> bool {
    &&& slab.imports@.len() == 0
    &&& slab.memories@.len() == 0
    &&& slab.tags@.len() == 0
    &&& slab.start is None
    &&& slab.elements@.len() == 0
    &&& slab.data_segments@.len() == 0
    &&& (slab.data_count is None || slab.data_count == Some(0u32))
    &&& slab.functions@.len() == slab.code@.len()
}

/// Whether a module can serve as the slab.
pub fn is_slab_accepted(slab: &ParsedModule) -> (r: bool)
    ensures
        r == slab_accepted(slab),
{
    let no_data = match slab.data_count {
        None => true,
        Some(count) => count == 0,
    };
    slab.imports.len() == 0 && slab.memories.len() == 0 && slab.tags.len() == 0
        && slab.start.is_none() && slab.elements.len() == 0 && slab.data_segments.len() == 0
        && no_data && slab.functions.len() == slab.code.len()
}

/// Hands out the next free index of a mapper; an error where none is
/// free.
pub fn next_free(mapper: &mut IndexMapper) -> (r: Option<u32>)
    requires
        old(mapper).wf(),
    ensures
        final(mapper).wf(),
        final(mapper).mapping() == old(mapper).mapping(),
        match r {
            Some(index) => index == old(mapper).next() && final(mapper).next() == old(
                mapper,
            ).next() + 1,
            None => old(mapper).next() == u32::MAX && *final(mapper) == *old(mapper),
        },
{
    if mapper.reserved() == u32::MAX {
        None
    } else {
        let ghost before = *mapper;
        let index = mapper.reserve();
        proof {
            IndexMapper::lemma_reserve_keeps(before, *mapper);
        }
        Some(index)
    }
}

/// The functions of a section of function declarations, or an empty list
/// where the section is not there yet.
pub open spec fn declared(functions: Option<Vec<u32>>) -> Seq<u32> {
    match functions {
        Some(f) => f@,
        None => Seq::empty(),
    }
}

/// The bodies of a code section, or an empty list where the section is
/// not there yet.
pub open spec fn bodies(code: Option<Vec<FunctionOut>>) -> Seq<FunctionOut> {
    match code {
        Some(c) => c@,
        None => Seq::empty(),
    }
}

/// The number of entries of a section that the encoder fills, or none
/// where the section is not there yet.
pub open spec fn entries(section: Option<ItemSection>) -> int {
    match section {
        Some(s) => s.count as int,
        None => 0,
    }
}

/// Adds a function declaration to the function section, which is made if
/// it is not there yet.
pub fn declare(functions: &mut Option<Vec<u32>>, type_index: u32)
    ensures
        *final(functions) is Some,
        declared(*final(functions)) == declared(*old(functions)).push(type_index),
{
    match functions.take() {
        Some(mut list) => {
            list.push(type_index);
            *functions = Some(list);
        },
        None => {
            let mut list: Vec<u32> = Vec::new();
            list.push(type_index);
            assert(list@ == Seq::<u32>::empty().push(type_index));
            *functions = Some(list);
        },
    }
}

/// Adds a body to the code section, which is made if it is not there yet.
pub fn add_body(code: &mut Option<Vec<FunctionOut>>, body: FunctionOut)
    ensures
        *final(code) is Some,
        bodies(*final(code)) == bodies(*old(code)).push(body),
{
    match code.take() {
        Some(mut list) => {
            list.push(body);
            *code = Some(list);
        },
        None => {
            let mut list: Vec<FunctionOut> = Vec::new();
            list.push(body);
            assert(list@ == Seq::<FunctionOut>::empty().push(body));
            *code = Some(list);
        },
    }
}

/// The section of the given kind, which is made if it is not there yet.
pub fn section_or_new(section: &mut Option<ItemSection>, kind: SectionKind) -> (r: ItemSection)
    requires
        crate::sections::section_is(*old(section), kind),
    ensures
        *final(section) is None,
        r.is(kind),
        r.count == entries(*old(section)),
        r.held() == crate::sections::item_entries(*old(section)),
{
    match section.take() {
        Some(found) => found,
        None => ItemSection::new(kind),
    }
}

/// `after` begins with the indices of `before`.
pub open spec fn kept_types(before: Seq<u32>, after: Seq<u32>) -> bool {
    &&& before.len() <= after.len()
    &&& forall|k: int| 0 <= k < before.len() ==> #[trigger] after[k] == before[k]
}

/// The indices of the list were handed out one after the other, from
/// `base` on.
pub open spec fn from_base(list: Seq<u32>, base: nat) -> bool {
    forall|k: int| 0 <= k < list.len() ==> (#[trigger] list[k]) == base + k
}

/// What the last of the first `count` exports with this name and kind
/// exports, if it is one of the `defined` things of that kind that the
/// module defines.
pub open spec fn exported(
    exports: Seq<RawExport>,
    name: Seq<char>,
    kind: ExternKind,
    defined: int,
    count: int,
) -> Option<u32>
    decreases count,
{
    if count <= 0 {
        None
    } else if exports[count - 1].name@ == name && exports[count - 1].kind == kind && exports[count
        - 1].index < defined {
        Some(exports[count - 1].index)
    } else {
        exported(exports, name, kind, defined, count - 1)
    }
}

/// The function that a slab exports under this name.
pub open spec fn slab_function(slab: &ParsedModule, name: Seq<char>) -> Option<u32> {
    exported(
        slab.exports@,
        name,
        ExternKind::Func,
        slab.functions@.len() as int,
        slab.exports@.len() as int,
    )
}

/// The table that a slab exports under this name.
pub open spec fn slab_table(slab: &ParsedModule, name: Seq<char>) -> Option<u32> {
    exported(
        slab.exports@,
        name,
        ExternKind::Table,
        slab.tables@.len() as int,
        slab.exports@.len() as int,
    )
}

/// The first of the names `alloc`, `free`, `take` and `items` under which
/// a slab exports nothing of the kind that is asked for: a function for
/// the first three, a table for the last.
pub open spec fn missing_export(slab: &ParsedModule) -> Option<Seq<char>> {
    if slab_function(slab, "alloc"@) is None {
        Some("alloc"@)
    } else if slab_function(slab, "free"@) is None {
        Some("free"@)
    } else if slab_function(slab, "take"@) is None {
        Some("take"@)
    } else if slab_table(slab, "items"@) is None {
        Some("items"@)
    } else {
        None
    }
}

/// The slab exports these functions under the names `alloc`, `free` and
/// `take`, and this table under the name `items`.
pub open spec fn exports_found(slab: &ParsedModule, alloc: u32, free: u32, take: u32, items: u32)
    -> bool {
    &&& slab_function(slab, "alloc"@) == Some(alloc)
    &&& slab_function(slab, "free"@) == Some(free)
    &&& slab_function(slab, "take"@) == Some(take)
    &&& slab_table(slab, "items"@) == Some(items)
    &&& alloc < slab.functions@.len()
    &&& free < slab.functions@.len()
    &&& take < slab.functions@.len()
    &&& items < slab.tables@.len()
}

/// What the last export with this name and kind exports, if it is one of
/// the `defined` things of that kind.
pub fn find_export(exports: &Vec<RawExport>, name: &str, kind: ExternKind, defined: usize) -> (r:
    Option<u32>)
    ensures
        r == exported(exports@, name@, kind, defined as int, exports@.len() as int),
        r matches Some(at) ==> at < defined,
{
    let mut found: Option<u32> = None;
    let mut e: usize = 0;
    while e < exports.len()
        invariant
            e <= exports@.len(),
            found == exported(exports@, name@, kind, defined as int, e as int),
            found matches Some(at) ==> at < defined,
        decreases exports.len() - e,
    {
        let export = &exports[e];
        if str_eq(export.name.as_str(), name) && export.kind == kind && (export.index as usize)
            < defined {
            found = Some(export.index);
        }
        e = e + 1;
    }
    found
}

/// The error for a slab that exports nothing under a name.
pub fn not_exported(name: &str) -> (r: Failure)
    ensures
        r matches Failure::UserError(WeaveError::ImportNotFound(n)) && n@ == name@,
{
    Failure::UserError(WeaveError::ImportNotFound(String::from_str(name)))
}

/// Merging the slab leaves these sections as they are.
pub open spec fn rest_same(before: &Sections, after: &Sections) -> bool {
    &&& after.imports == before.imports
    &&& after.memories == before.memories
    &&& after.tags == before.tags
    &&& after.exports == before.exports
    &&& after.start == before.start
    &&& after.elements == before.elements
    &&& after.data_count == before.data_count
    &&& after.data == before.data
}

/// Whether the encoder takes the types of a slab, whatever places the
/// types before them get in the output: it takes every member of every
/// recursion group, and the value types of every signature can be
/// renumbered.
pub open spec fn types_taken(slab: &ParsedModule) -> bool {
    forall|d: DenseIndices, g: int, k: int|
        #![trigger sub_type_refused(
            slab.data@,
            slab.types@[g].span.start as int,
            slab.types@[g].span.end as int,
            k,
            d.maps(),
        )]
        0 <= g < slab.types@.len() && 0 <= k < slab.types@[g].types@.len() && d.types@.len()
            == types_before(slab.types@, g) ==> sub_type_refused(
            slab.data@,
            slab.types@[g].span.start as int,
            slab.types@[g].span.end as int,
            k,
            d.maps(),
        ) is None && match slab.types@[g].types@[k].func {
            Some(func) => d.maps().val_types_ok(func.params@) && d.maps().val_types_ok(
                func.results@,
            ),
            None => true,
        }
}

/// The renumbering `d` gives places to all the types and functions of a
/// slab, to `tables` of its tables and to `globals` of its globals.
pub open spec fn places(d: &DenseIndices, slab: &ParsedModule, tables: int, globals: int) -> bool {
    &&& d.types@.len() == types_before(slab.types@, slab.types@.len() as int)
    &&& d.funcs@.len() == slab.functions@.len()
    &&& d.tables@.len() == tables
    &&& d.globals@.len() == globals
}

/// Whether the encoder takes everything of a slab, whatever places its
/// types, functions, tables and globals get in the output: its types,
/// each table and each global with the places that are given when its
/// turn comes, and each body with all the places; and every function of
/// the slab is of a type of the slab.
pub open spec fn slab_taken(slab: &ParsedModule) -> bool {
    let data = slab.data@;
    &&& types_taken(slab)
    &&& forall|f: int|
        0 <= f < slab.functions@.len() ==> (#[trigger] slab.functions@[f]) < types_before(
            slab.types@,
            slab.types@.len() as int,
        )
    &&& forall|d: DenseIndices, t: int|
        #![trigger item_refused(
            SectionKind::Tables,
            data,
            slab.tables@[t].start as int,
            slab.tables@[t].end as int,
            d.maps(),
        )]
        0 <= t < slab.tables@.len() && places(&d, slab, t + 1, 0) ==> item_refused(
            SectionKind::Tables,
            data,
            slab.tables@[t].start as int,
            slab.tables@[t].end as int,
            d.maps(),
        ) is None
    &&& forall|d: DenseIndices, g: int|
        #![trigger item_refused(
            SectionKind::Globals,
            data,
            slab.globals@[g].start as int,
            slab.globals@[g].end as int,
            d.maps(),
        )]
        0 <= g < slab.globals@.len() && places(&d, slab, slab.tables@.len() as int, g + 1)
            ==> item_refused(
            SectionKind::Globals,
            data,
            slab.globals@[g].start as int,
            slab.globals@[g].end as int,
            d.maps(),
        ) is None
    &&& forall|d: DenseIndices, c: int|
        0 <= c < slab.code@.len() && places(
            &d,
            slab,
            slab.tables@.len() as int,
            slab.globals@.len() as int,
        ) ==> #[trigger] body_taken(data, slab.code@[c], d.maps())
}

/// Whether a slab can be merged: it exports what the weaver uses, the
/// encoder takes everything of it, and the output has room for its
/// types, functions, tables and globals.
pub open spec fn merge_ready(weaver: &Weaver, sections: &Sections, slab: &ParsedModule) -> bool {
    &&& missing_export(slab) is None
    &&& slab_taken(slab)
    &&& weaver.indices.types.next() + types_before(slab.types@, slab.types@.len() as int)
        <= u32::MAX
    &&& weaver.indices.funcs.next() + slab.functions@.len() <= u32::MAX
    &&& weaver.indices.tables.next() + slab.tables@.len() <= u32::MAX
    &&& weaver.indices.globals.next() + slab.globals@.len() <= u32::MAX
    &&& entries(sections.tables) + slab.tables@.len() <= u32::MAX
    &&& entries(sections.globals) + slab.globals@.len() <= u32::MAX
}

impl TableSlabApi {
    /// Writes the types of the slab. Returns nothing where a type cannot
    /// be written.
    fn merge_types(
        interner: &mut TypeInterner,
        types: &mut IndexMapper,
        slab: &ParsedModule,
        dense: &mut DenseIndices,
    ) -> (r: Result<(), Failure>)
        requires
            old(interner).wf(old(types)),
            old(types).wf(),
            slab.wf(),
        ensures
            final(interner).wf(final(types)),
            final(types).wf(),
            old(interner).kept_by(final(interner)),
            final(types).mapping() == old(types).mapping(),
            old(types).next() <= final(types).next(),
            final(dense).funcs == old(dense).funcs,
            final(dense).tables == old(dense).tables,
            final(dense).globals == old(dense).globals,
            slab.types@.len() == 0 ==> r is Ok,
            r is Ok ==> {
                &&& final(dense).types@.len() == old(dense).types@.len() + types_before(
                    slab.types@,
                    slab.types@.len() as int,
                )
                &&& kept_types(old(dense).types@, final(dense).types@)
            },
            types_taken(slab) && old(dense).types@.len() == 0 && old(types).next() + types_before(
                slab.types@,
                slab.types@.len() as int,
            ) <= u32::MAX ==> r is Ok && final(types).next() <= old(types).next() + types_before(
                slab.types@,
                slab.types@.len() as int,
            ),
    {
        let data = slab.data;
        let ghost total = types_before(slab.types@, slab.types@.len() as int);
        let ghost ready = types_taken(slab) && dense.types@.len() == 0 && types.next() + total
            <= u32::MAX;
        let mut g: usize = 0;
        while g < slab.types.len()
            invariant
                g <= slab.types@.len(),
                slab.wf(),
                data == slab.data,
                dense.types@.len() == old(dense).types@.len() + types_before(slab.types@, g as int),
                kept_types(old(dense).types@, dense.types@),
                total == types_before(slab.types@, slab.types@.len() as int),
                ready == (types_taken(slab) && old(dense).types@.len() == 0 && old(types).next()
                    + total <= u32::MAX),
                ready ==> types.next() <= old(types).next() + types_before(slab.types@, g as int),
                old(types).wf(),
                interner.wf(types),
                types.wf(),
                old(interner).kept_by(interner),
                types.mapping() == old(types).mapping(),
                old(types).next() <= types.next(),
                dense.funcs == old(dense).funcs,
                dense.tables == old(dense).tables,
                dense.globals == old(dense).globals,
            decreases slab.types.len() - g,
        {
            let group: &RecGroup = &slab.types[g];
            let span = group.span;
            proof {
                assert(crate::parse::group_spans(slab.types@)[g as int].within(data@.len()));
                lemma_types_before_monotonic(slab.types@, g + 1, slab.types@.len() as int);
            }
            let ghost next_before = types.next();
            let members: usize = group.types.len();
            let mut funcs: Vec<Option<FuncType>> = Vec::new();
            let mut encoded: Vec<wasm_encoder::SubType> = Vec::new();
            let mut offset: usize = 0;
            let ghost start_types = dense.types;
            while offset < members
                invariant
                    offset <= members,
                    g < slab.types@.len(),
                    dense.types == start_types,
                    members == group.types@.len(),
                    *group == slab.types@[g as int],
                    span == group.span,
                    data == slab.data,
                    start_types@.len() == old(dense).types@.len() + types_before(
                        slab.types@,
                        g as int,
                    ),
                    ready == (types_taken(slab) && old(dense).types@.len() == 0 && old(
                        types,
                    ).next() + total <= u32::MAX),
                    types.next() == next_before,
                    members <= u32::MAX,
                    span.within(data@.len()),
                    interner.wf(types),
                    types.wf(),
                    old(interner).kept_by(interner),
                    types.mapping() == old(types).mapping(),
                    old(types).next() <= types.next(),
                    dense.funcs == old(dense).funcs,
                    dense.tables == old(dense).tables,
                    dense.globals == old(dense).globals,
                    funcs@.len() == offset,
                    encoded@.len() == offset,
                decreases members - offset,
            {
                if offset > u32::MAX as usize {
                    return Err(Failure::UserError(WeaveError::TypeIndexOutOfBounds(u32::MAX)));
                }
                let sub_type = reencode_sub_type(data, span.start, span.end, offset as u32, &*dense)?;
                let func = match &group.types[offset].func {
                    Some(func) => {
                        let params = renumber_val_types(&func.params, &*dense)?;
                        let results = renumber_val_types(&func.results, &*dense)?;
                        Some(FuncType::new(params, results))
                    },
                    None => None,
                };
                funcs.push(func);
                encoded.push(sub_type);
                offset = offset + 1;
            }
            let ghost before = *interner;
            let written = if !group.explicit && members == 1 {
                let func = funcs.pop().unwrap();
                interner.new_ty(types, func, &encoded[0])
            } else {
                interner.new_rec_group(types, funcs, encoded)
            };
            let target: u32 = match written {
                Some(target) => target,
                None => {
                    return Err(Failure::UserError(WeaveError::TypeIndexOutOfBounds(u32::MAX)));
                },
            };
            proof {
                IndexMapper::lemma_reserve_keeps(*old(types), *types);
                assert(interner.emitted() == types.next());
                assert(before.emitted() == next_before);
                types.lemma_next_bounded();
                assert(target + members <= types.next());
                assert(types_before(slab.types@, g + 1) == types_before(slab.types@, g as int)
                    + members);
            }
            let mut i: usize = 0;
            while i < members
                invariant
                    i <= members,
                    g < slab.types@.len(),
                    members == slab.types@[g as int].types@.len(),
                    dense.types@.len() == old(dense).types@.len() + types_before(
                        slab.types@,
                        g as int,
                    ) + i,
                    kept_types(old(dense).types@, dense.types@),
                    interner.wf(types),
                    types.wf(),
                    old(interner).kept_by(interner),
                    types.mapping() == old(types).mapping(),
                    old(types).next() <= types.next(),
                    ready == (types_taken(slab) && old(dense).types@.len() == 0 && old(
                        types,
                    ).next() + types_before(slab.types@, slab.types@.len() as int) <= u32::MAX),
                    ready ==> target + members <= u32::MAX && types.next() <= old(types).next()
                        + types_before(slab.types@, g + 1),
                    dense.funcs == old(dense).funcs,
                    dense.tables == old(dense).tables,
                    dense.globals == old(dense).globals,
                decreases members - i,
            {
                if i as u64 > (u32::MAX - target) as u64 {
                    return Err(Failure::UserError(WeaveError::TypeIndexOutOfBounds(u32::MAX)));
                }
                dense.types.push(target + i as u32);
                i = i + 1;
            }
            g = g + 1;
        }
        Ok(())
    }

    /// Merges the slab into the module that is woven: the types,
    /// functions, tables, globals and function bodies of the slab are added
    /// to the output, each at the next free index of its kind. Returns
    /// where the exports `alloc`, `free`, `take` and `items` of the slab
    /// stand in the output. A slab that lacks one of them is an error.
    pub fn merge(weaver: &mut Weaver, sections: &mut Sections, slab: &ParsedModule) -> (r: Result<
        TableSlabApi,
        Failure,
    >)
        requires
            old(weaver).wf(),
            old(sections).wf(),
            slab.wf(),
            slab_accepted(slab),
        ensures
            final(weaver).wf(),
            final(sections).wf(),
            old(weaver).slab_merged(final(weaver)),
            rest_same(old(sections), final(sections)),
            r matches Ok(api) ==> {
                &&& api.wf(&final(weaver).indices)
                &&& crate::sections::all_encodable(
                    bodies(old(sections).code),
                    bodies(old(sections).code).len() as int,
                ) ==> crate::sections::all_encodable(
                    bodies(final(sections).code),
                    bodies(final(sections).code).len() as int,
                )
                &&& declared(final(sections).functions).len() == declared(
                    old(sections).functions,
                ).len() + slab.functions@.len()
                &&& bodies(final(sections).code).len() == bodies(old(sections).code).len()
                    + slab.code@.len()
                &&& entries(final(sections).tables) == entries(old(sections).tables)
                    + slab.tables@.len()
                &&& entries(final(sections).globals) == entries(old(sections).globals)
                    + slab.globals@.len()
                &&& (final(sections).functions is Some) == (old(sections).functions is Some
                    || slab.functions@.len() > 0)
                &&& (final(sections).code is Some) == (old(sections).code is Some
                    || slab.code@.len() > 0)
                &&& final(sections).tables is Some
                &&& final(sections).globals is Some
                &&& final(weaver).indices.funcs.next() == old(weaver).indices.funcs.next()
                    + slab.functions@.len()
                &&& final(weaver).indices.tables.next() == old(weaver).indices.tables.next()
                    + slab.tables@.len()
                &&& final(weaver).indices.globals.next() == old(weaver).indices.globals.next()
                    + slab.globals@.len()
                &&& missing_export(slab) is None
                &&& api.alloc_fn == old(weaver).indices.funcs.next() + slab_function(
                    slab,
                    "alloc"@,
                )->0
                &&& api.free_fn == old(weaver).indices.funcs.next() + slab_function(slab, "free"@)->0
                &&& api.take_fn == old(weaver).indices.funcs.next() + slab_function(slab, "take"@)->0
                &&& api.items_table == old(weaver).indices.tables.next() + slab_table(
                    slab,
                    "items"@,
                )->0
            },
            missing_export(slab) matches Some(name) ==> {
                &&& r matches Err(Failure::UserError(WeaveError::ImportNotFound(n))) && n@ == name
                &&& *final(weaver) == *old(weaver)
                &&& *final(sections) == *old(sections)
            },
            merge_ready(old(weaver), old(sections), slab) ==> r is Ok && old(weaver).grown_within(
                final(weaver),
                types_before(slab.types@, slab.types@.len() as int),
            ),
    {
        let ghost ready = merge_ready(weaver, sections, slab);
        let ghost total = types_before(slab.types@, slab.types@.len() as int);
        let alloc_at = match find_export(
            &slab.exports,
            "alloc",
            ExternKind::Func,
            slab.functions.len(),
        ) {
            Some(at) => at,
            None => {
                return Err(not_exported("alloc"));
            },
        };
        let free_at = match find_export(
            &slab.exports,
            "free",
            ExternKind::Func,
            slab.functions.len(),
        ) {
            Some(at) => at,
            None => {
                return Err(not_exported("free"));
            },
        };
        let take_at = match find_export(
            &slab.exports,
            "take",
            ExternKind::Func,
            slab.functions.len(),
        ) {
            Some(at) => at,
            None => {
                return Err(not_exported("take"));
            },
        };
        let items_at = match find_export(
            &slab.exports,
            "items",
            ExternKind::Table,
            slab.tables.len(),
        ) {
            Some(at) => at,
            None => {
                return Err(not_exported("items"));
            },
        };
        let mut dense = DenseIndices::new();
        let ghost start = *weaver;
        let merged = Self::merge_types(
            &mut weaver.interner,
            &mut weaver.indices.types,
            slab,
            &mut dense,
        );
        proof {
            Weaver::lemma_typed_on(&start, weaver.indices.types, weaver.interner);
        }
        match merged {
            Ok(()) => {},
            Err(e) => {
                return Err(e);
            },
        }
        let data = slab.data;
        let mut f: usize = 0;
        while f < slab.functions.len()
            invariant
                f <= slab.functions@.len(),
                weaver.wf(),
                sections.wf(),
                old(weaver).slab_merged(weaver),
                exports_found(slab, alloc_at, free_at, take_at, items_at),
                ready == merge_ready(old(weaver), old(sections), slab),
                total == types_before(slab.types@, slab.types@.len() as int),
                ready ==> dense.types@.len() == total,
                ready ==> weaver.indices.types.next() <= old(weaver).indices.types.next() + total,
                weaver.indices.funcs.next() == old(weaver).indices.funcs.next() + f,
                weaver.indices.tables.next() == old(weaver).indices.tables.next(),
                weaver.indices.globals.next() == old(weaver).indices.globals.next(),
                from_base(dense.funcs@, old(weaver).indices.funcs.next()),
                dense.funcs@.len() == f,
                forall|k: int| 0 <= k < f ==> (#[trigger] dense.funcs@[k]) < weaver.indices.funcs.next(),
                dense.tables@.len() == 0,
                dense.globals@.len() == 0,
                declared(sections.functions).len() == declared(old(sections).functions).len() + f,
                (sections.functions is Some) == (old(sections).functions is Some || f > 0),
                rest_same(old(sections), sections),
                sections.tables == old(sections).tables,
                sections.globals == old(sections).globals,
                sections.code == old(sections).code,
            decreases slab.functions.len() - f,
        {
            let index = match next_free(&mut weaver.indices.funcs) {
                Some(index) => index,
                None => {
                    return Err(Failure::UserError(WeaveError::FunctionIndexOutOfBounds(u32::MAX)));
                },
            };
            dense.funcs.push(index);
            let type_index = match dense.type_index(slab.functions[f]) {
                Ok(type_index) => type_index,
                Err(e) => {
                    return Err(Failure::UserError(e));
                },
            };
            declare(&mut sections.functions, type_index);
            f = f + 1;
        }
        let mut tables = section_or_new(&mut sections.tables, SectionKind::Tables);
        let mut t: usize = 0;
        while t < slab.tables.len()
            invariant
                t <= slab.tables@.len(),
                slab.wf(),
                data == slab.data,
                weaver.wf(),
                old(weaver).slab_merged(weaver),
                exports_found(slab, alloc_at, free_at, take_at, items_at),
                ready == merge_ready(old(weaver), old(sections), slab),
                total == types_before(slab.types@, slab.types@.len() as int),
                ready ==> dense.types@.len() == total,
                ready ==> weaver.indices.types.next() <= old(weaver).indices.types.next() + total,
                weaver.indices.funcs.next() == old(weaver).indices.funcs.next() + slab.functions@.len(),
                weaver.indices.tables.next() == old(weaver).indices.tables.next() + t,
                weaver.indices.globals.next() == old(weaver).indices.globals.next(),
                from_base(dense.funcs@, old(weaver).indices.funcs.next()),
                from_base(dense.tables@, old(weaver).indices.tables.next()),
                sections.wf(),
                rest_same(old(sections), sections),
                sections.globals == old(sections).globals,
                sections.code == old(sections).code,
                declared(sections.functions).len() == declared(old(sections).functions).len()
                    + slab.functions@.len(),
                (sections.functions is Some) == (old(sections).functions is Some
                    || slab.functions@.len() > 0),
                tables.is(SectionKind::Tables),
                tables.count == entries(old(sections).tables) + t,
                dense.tables@.len() == t,
                forall|k: int|
                    0 <= k < t ==> (#[trigger] dense.tables@[k]) < weaver.indices.tables.next(),
                dense.funcs@.len() == slab.functions@.len(),
                forall|k: int|
                    0 <= k < dense.funcs@.len() ==> (#[trigger] dense.funcs@[k])
                        < weaver.indices.funcs.next(),
                dense.globals@.len() == 0,
            decreases slab.tables.len() - t,
        {
            let index = match next_free(&mut weaver.indices.tables) {
                Some(index) => index,
                None => {
                    sections.tables = Some(tables);
                    return Err(Failure::UserError(WeaveError::TableIndexOutOfBounds(u32::MAX)));
                },
            };
            dense.tables.push(index);
            match tables.add(data, slab.tables[t], &dense) {
                Ok(()) => {},
                Err(e) => {
                    sections.tables = Some(tables);
                    return Err(e);
                },
            }
            t = t + 1;
        }
        sections.tables = Some(tables);
        let mut globals = section_or_new(&mut sections.globals, SectionKind::Globals);
        let mut g: usize = 0;
        while g < slab.globals.len()
            invariant
                g <= slab.globals@.len(),
                slab.wf(),
                data == slab.data,
                weaver.wf(),
                old(weaver).slab_merged(weaver),
                exports_found(slab, alloc_at, free_at, take_at, items_at),
                ready == merge_ready(old(weaver), old(sections), slab),
                total == types_before(slab.types@, slab.types@.len() as int),
                ready ==> dense.types@.len() == total,
                ready ==> weaver.indices.types.next() <= old(weaver).indices.types.next() + total,
                weaver.indices.funcs.next() == old(weaver).indices.funcs.next() + slab.functions@.len(),
                weaver.indices.tables.next() == old(weaver).indices.tables.next() + slab.tables@.len(),
                weaver.indices.globals.next() == old(weaver).indices.globals.next() + g,
                from_base(dense.funcs@, old(weaver).indices.funcs.next()),
                from_base(dense.tables@, old(weaver).indices.tables.next()),
                sections.wf(),
                rest_same(old(sections), sections),
                sections.code == old(sections).code,
                declared(sections.functions).len() == declared(old(sections).functions).len()
                    + slab.functions@.len(),
                (sections.functions is Some) == (old(sections).functions is Some
                    || slab.functions@.len() > 0),
                entries(sections.tables) == entries(old(sections).tables) + slab.tables@.len(),
                sections.tables is Some,
                globals.is(SectionKind::Globals),
                globals.count == entries(old(sections).globals) + g,
                dense.globals@.len() == g,
                dense.tables@.len() == slab.tables@.len(),
                forall|k: int|
                    0 <= k < dense.tables@.len() ==> (#[trigger] dense.tables@[k])
                        < weaver.indices.tables.next(),
                dense.funcs@.len() == slab.functions@.len(),
                forall|k: int|
                    0 <= k < dense.funcs@.len() ==> (#[trigger] dense.funcs@[k])
                        < weaver.indices.funcs.next(),
            decreases slab.globals.len() - g,
        {
            let index = match next_free(&mut weaver.indices.globals) {
                Some(index) => index,
                None => {
                    sections.globals = Some(globals);
                    return Err(Failure::UserError(WeaveError::GlobalIndexOutOfBounds(u32::MAX)));
                },
            };
            dense.globals.push(index);
            match globals.add(data, slab.globals[g], &dense) {
                Ok(()) => {},
                Err(e) => {
                    sections.globals = Some(globals);
                    return Err(e);
                },
            }
            g = g + 1;
        }
        sections.globals = Some(globals);
        let mut c: usize = 0;
        while c < slab.code.len()
            invariant
                c <= slab.code@.len(),
                slab.wf(),
                data == slab.data,
                sections.wf(),
                bodies(sections.code).len() == bodies(old(sections).code).len() + c,
                (sections.code is Some) == (old(sections).code is Some || c > 0),
                crate::sections::all_encodable(
                    bodies(old(sections).code),
                    bodies(old(sections).code).len() as int,
                ) ==> crate::sections::all_encodable(
                    bodies(sections.code),
                    bodies(sections.code).len() as int,
                ),
                declared(sections.functions).len() == declared(old(sections).functions).len()
                    + slab.functions@.len(),
                (sections.functions is Some) == (old(sections).functions is Some
                    || slab.functions@.len() > 0),
                entries(sections.tables) == entries(old(sections).tables) + slab.tables@.len(),
                sections.tables is Some,
                entries(sections.globals) == entries(old(sections).globals) + slab.globals@.len(),
                sections.globals is Some,
                rest_same(old(sections), sections),
                weaver.wf(),
                old(weaver).slab_merged(weaver),
                exports_found(slab, alloc_at, free_at, take_at, items_at),
                ready == merge_ready(old(weaver), old(sections), slab),
                total == types_before(slab.types@, slab.types@.len() as int),
                ready ==> dense.types@.len() == total,
                ready ==> weaver.indices.types.next() <= old(weaver).indices.types.next() + total,
                weaver.indices.funcs.next() == old(weaver).indices.funcs.next() + slab.functions@.len(),
                weaver.indices.tables.next() == old(weaver).indices.tables.next() + slab.tables@.len(),
                weaver.indices.globals.next() == old(weaver).indices.globals.next() + slab.globals@.len(),
                from_base(dense.funcs@, old(weaver).indices.funcs.next()),
                from_base(dense.tables@, old(weaver).indices.tables.next()),
                dense.funcs@.len() == slab.functions@.len(),
                dense.tables@.len() == slab.tables@.len(),
                dense.globals@.len() == slab.globals@.len(),
            decreases slab.code.len() - c,
        {
            let body = reencode_body(data, slab.code[c], &dense)?;
            let ghost had = bodies(sections.code);
            proof {
                let raw = crate::reader::locals_read(
                    data@,
                    slab.code@[c as int].start as int,
                    slab.code@[c as int].end as int,
                )->0;
                assert forall|k: int| 0 <= k < body.locals@.len() implies crate::encoder::encodable(
                    #[trigger] body.locals@[k].1,
                ) by {
                    assert(dense.maps().val_type(crate::code::local_types(raw)[k]) is Ok);
                }
            }
            add_body(&mut sections.code, body);
            proof {
                if crate::sections::all_encodable(had, had.len() as int) {
                    assert forall|i: int, k: int|
                        0 <= i < had.len() + 1 && 0 <= k < bodies(sections.code)[i].locals@.len() implies crate::encoder::encodable(
                        #[trigger] bodies(sections.code)[i].locals@[k].1,
                    ) by {
                        if i < had.len() {
                            assert(bodies(sections.code)[i] == had[i]);
                            assert(crate::encoder::encodable(had[i].locals@[k].1));
                        } else {
                            assert(bodies(sections.code)[i] == body);
                            assert(crate::encoder::encodable(body.locals@[k].1));
                        }
                    }
                }
            }
            c = c + 1;
        }
        Ok(
            TableSlabApi {
                alloc_fn: dense.funcs[alloc_at as usize],
                free_fn: dense.funcs[free_at as usize],
                take_fn: dense.funcs[take_at as usize],
                items_table: dense.tables[items_at as usize],
            },
        )
    }
}

impl<'a> Weaver<'a> {
    /// `later` is this weaver after something was merged into its output:
    /// more indices are handed out, none is bound anew, every record of a
    /// type is still in place, and nothing else has changed.
    pub open spec fn slab_merged(&self, later: &Weaver<'a>) -> bool {
        &&& later.parsed == self.parsed
        &&& later.ty_lookup == self.ty_lookup
        &&& later.fn_lookup == self.fn_lookup
        &&& later.returns_lookup == self.returns_lookup
        &&& later.callable_functions == self.callable_functions
        &&& later.table_api == self.table_api
        &&& later.indices.types.mapping() == self.indices.types.mapping()
        &&& later.indices.funcs.mapping() == self.indices.funcs.mapping()
        &&& later.indices.tables.mapping() == self.indices.tables.mapping()
        &&& later.indices.globals.mapping() == self.indices.globals.mapping()
        &&& self.indices.types.next() <= later.indices.types.next()
        &&& self.indices.funcs.next() <= later.indices.funcs.next()
        &&& self.indices.tables.next() <= later.indices.tables.next()
        &&& self.indices.globals.next() <= later.indices.globals.next()
        &&& self.interner.kept_by(&later.interner)
    }
}

} // verus!
