//! Tables that answer, for an index of the module that is read, what stands
//! there: for a type index the member of a recursion group, for a function
//! index the import or the body.

use crate::error::WeaveError;
use crate::parse::{
    lemma_types_before_monotonic, types_before, Export, Import, ParsedModule, RecGroup, Span,
    SubTypeInfo,
};
use crate::reader::ExternKind;
use crate::types::FuncType;
use vstd::prelude::*;

verus! {

/// What stands at a type index.
#[derive(Clone, Copy, Debug)]
pub struct TypeLookupEntry<'a> {
    /// The recursion group that the type belongs to.
    pub group: &'a RecGroup,
    /// The position of that group in the type section.
    pub group_index: usize,
    /// The type index of the first member of the group.
    pub group_base: u32,
    /// The position of the type in its group.
    pub group_offset: u32,
    pub sub_type: &'a SubTypeInfo,
}

impl<'a> TypeLookupEntry<'a> {
    /// This is what stands at type index `index` of a type section that
    /// holds `groups`.
    pub open spec fn describes(&self, groups: Seq<RecGroup>, index: int) -> bool {
        &&& self.group_index < groups.len()
        &&& *self.group == groups[self.group_index as int]
        &&& self.group_base == types_before(groups, self.group_index as int)
        &&& self.group_offset < self.group.types@.len()
        &&& self.group_base + self.group_offset == index
        &&& *self.sub_type == self.group.types@[self.group_offset as int]
    }

    /// The signature of the type, which has to be a function type.
    pub fn try_fn_ty(&self) -> (r: Result<&'a FuncType, WeaveError>)
        requires
            self.group_base + self.group_offset <= u32::MAX,
        ensures
            match self.sub_type.func {
                Some(func) => r == Ok::<&FuncType, WeaveError>(&func),
                None => r == Err::<&FuncType, WeaveError>(
                    WeaveError::FunctionTypeIsNotFunction(
                        (self.group_base + self.group_offset) as u32,
                    ),
                ),
            },
    {
        match &self.sub_type.func {
            Some(func) => Ok(func),
            None => Err(WeaveError::FunctionTypeIsNotFunction(self.group_base + self.group_offset)),
        }
    }
}

/// The types of a module, by type index.
#[derive(Debug)]
pub struct TypeLookup<'a> {
    table: Vec<TypeLookupEntry<'a>>,
}

impl<'a> TypeLookup<'a> {
    /// The entries, by type index.
    pub closed spec fn entries(&self) -> Seq<TypeLookupEntry<'a>> {
        self.table@
    }

    /// The table holds one entry for each type of `groups`, in order.
    pub open spec fn wf(&self, groups: Seq<RecGroup>) -> bool {
        &&& self.entries().len() == types_before(groups, groups.len() as int)
        &&& self.entries().len() <= u32::MAX
        &&& forall|k: int|
            0 <= k < self.entries().len() ==> (#[trigger] self.entries()[k]).describes(groups, k)
    }

    /// The members of the recursion group of the type `t` stand one behind
    /// the other from the first index of the group on: the entry at an
    /// index of the group tells the same group and the member at that
    /// place.
    pub proof fn lemma_member(&self, groups: Seq<RecGroup>, t: int, k: int)
        requires
            self.wf(groups),
            0 <= t < self.entries().len(),
            self.entries()[t].group_base <= k < self.entries()[t].group_base
                + self.entries()[t].group.types@.len(),
        ensures
            k < self.entries().len(),
            *self.entries()[k].group == *self.entries()[t].group,
            self.entries()[k].group_base == self.entries()[t].group_base,
            *self.entries()[k].sub_type == self.entries()[t].group.types@[k
                - self.entries()[t].group_base],
    {
        let e = self.entries()[t];
        assert(e.describes(groups, t));
        let gi = e.group_index as int;
        lemma_types_before_monotonic(groups, gi + 1, groups.len() as int);
        assert(k < self.entries().len());
        let f = self.entries()[k];
        assert(f.describes(groups, k));
        let gk = f.group_index as int;
        if gk < gi {
            lemma_types_before_monotonic(groups, gk + 1, gi);
        } else if gk > gi {
            lemma_types_before_monotonic(groups, gi + 1, gk);
        }
        assert(gk == gi);
    }

    /// Lays the members of all groups out in one row.
    pub fn new(groups: &'a [RecGroup]) -> (r: Self)
        requires
            types_before(groups@, groups@.len() as int) <= u32::MAX,
        ensures
            r.wf(groups@),
    {
        let mut table: Vec<TypeLookupEntry<'a>> = Vec::new();
        let mut base: u32 = 0;
        let mut g: usize = 0;
        while g < groups.len()
            invariant
                g <= groups@.len(),
                types_before(groups@, groups@.len() as int) <= u32::MAX,
                base == types_before(groups@, g as int),
                table@.len() == base,
                forall|k: int| 0 <= k < table@.len() ==> (#[trigger] table@[k]).describes(groups@, k),
            decreases groups.len() - g,
        {
            let group = &groups[g];
            proof {
                lemma_types_before_monotonic(groups@, g + 1, groups@.len() as int);
            }
            let mut offset: u32 = 0;
            while (offset as usize) < group.types.len()
                invariant
                    g < groups@.len(),
                    *group == groups@[g as int],
                    base == types_before(groups@, g as int),
                    base + group.types@.len() <= u32::MAX,
                    offset <= group.types@.len(),
                    table@.len() == base + offset,
                    forall|k: int|
                        0 <= k < table@.len() ==> (#[trigger] table@[k]).describes(groups@, k),
                decreases group.types@.len() - offset,
            {
                table.push(
                    TypeLookupEntry {
                        group,
                        group_index: g,
                        group_base: base,
                        group_offset: offset,
                        sub_type: &group.types[offset as usize],
                    },
                );
                offset = offset + 1;
            }
            base = base + offset;
            g = g + 1;
        }
        TypeLookup { table }
    }

    /// The number of types.
    pub fn len(&self) -> (r: usize)
        ensures
            r == self.entries().len(),
    {
        self.table.len()
    }

    /// What stands at type index `index`, if the module has that many types.
    pub fn get(&self, index: u32) -> (r: Option<TypeLookupEntry<'a>>)
        ensures
            r == if index < self.entries().len() {
                Some(self.entries()[index as int])
            } else {
                None::<TypeLookupEntry<'a>>
            },
    {
        if (index as usize) < self.table.len() {
            Some(self.table[index as usize])
        } else {
            None
        }
    }

    /// What stands at type index `index`; an error if the module has fewer
    /// types.
    pub fn try_get(&self, index: u32) -> (r: Result<TypeLookupEntry<'a>, WeaveError>)
        ensures
            r == if index < self.entries().len() {
                Ok::<TypeLookupEntry<'a>, WeaveError>(self.entries()[index as int])
            } else {
                Err::<TypeLookupEntry<'a>, WeaveError>(WeaveError::TypeIndexOutOfBounds(index))
            },
    {
        match self.get(index) {
            Some(entry) => Ok(entry),
            None => Err(WeaveError::TypeIndexOutOfBounds(index)),
        }
    }
}

/// What stands at a function index.
#[derive(Clone, Copy, Debug)]
pub enum FunctionLookupEntry<'a> {
    /// A function that the module imports.
    Import {
        /// The position of the import among all imports.
        index: u32,
        ty: u32,
        import: &'a Import,
    },
    /// A function that the module defines.
    Body {
        /// The position of the body among all bodies.
        index: u32,
        ty: u32,
        body: Span,
        /// The name under which the function is exported, if it is.
        export_name: Option<&'a String>,
    },
}

impl<'a> FunctionLookupEntry<'a> {
    /// The index of the function's type.
    pub fn ty(&self) -> (r: u32)
        ensures
            r == match *self {
                FunctionLookupEntry::Import { ty, .. } => ty,
                FunctionLookupEntry::Body { ty, .. } => ty,
            },
    {
        match self {
            FunctionLookupEntry::Import { ty, .. } => *ty,
            FunctionLookupEntry::Body { ty, .. } => *ty,
        }
    }

    /// The name under which a defined function is exported.
    pub fn export_name(&self) -> (r: Option<&'a String>)
        ensures
            r == match *self {
                FunctionLookupEntry::Import { .. } => None::<&String>,
                FunctionLookupEntry::Body { export_name, .. } => export_name,
            },
    {
        match self {
            FunctionLookupEntry::Body { export_name, .. } => *export_name,
            _ => None,
        }
    }
}

/// How many of the first `count` imports are functions.
pub open spec fn function_imports_before(imports: Seq<Import>, count: int) -> int
    decreases count,
{
    if count <= 0 {
        0
    } else {
        function_imports_before(imports, count - 1) + if imports[count - 1].type_index is Some {
            1int
        } else {
            0int
        }
    }
}

/// The count of function imports is bounded by the count of imports.
pub proof fn lemma_function_imports_bound(imports: Seq<Import>, count: int)
    requires
        0 <= count,
    ensures
        0 <= function_imports_before(imports, count) <= count,
    decreases count,
{
    if count > 0 {
        lemma_function_imports_bound(imports, count - 1);
    }
}

/// The last of the first `count` exports that exports the function with
/// index `function`.
pub open spec fn export_of(exports: Seq<Export>, function: int, count: int) -> Option<int>
    decreases count,
{
    if count <= 0 {
        None
    } else if exports[count - 1].kind == ExternKind::Func && exports[count - 1].index == function {
        Some(count - 1)
    } else {
        export_of(exports, function, count - 1)
    }
}

/// What [`export_of`] finds is an export of the function.
pub proof fn lemma_export_of(exports: Seq<Export>, function: int, count: int)
    requires
        0 <= count <= exports.len(),
    ensures
        match export_of(exports, function, count) {
            Some(e) => 0 <= e < count && exports[e].kind == ExternKind::Func && exports[e].index
                == function,
            None => forall|e: int|
                0 <= e < count ==> !((#[trigger] exports[e]).kind == ExternKind::Func
                    && exports[e].index == function),
        },
    decreases count,
{
    if count > 0 {
        lemma_export_of(exports, function, count - 1);
    }
}

/// Whether a module can be woven: every body has a declaration, and the
/// functions, imported and defined, can be counted in 32 bits.
pub open spec fn weavable(module: &ParsedModule) -> bool {
    &&& module.code@.len() <= module.functions@.len()
    &&& function_imports_before(module.imports@, module.imports@.len() as int)
        + module.code@.len() <= u32::MAX
}

/// Whether a module can be woven.
pub fn is_weavable(module: &ParsedModule) -> (r: bool)
    requires
        module.wf(),
    ensures
        r == weavable(module),
{
    if module.code.len() > module.functions.len() {
        return false;
    }
    let mut imported: u64 = 0;
    let mut p: usize = 0;
    while p < module.imports.len()
        invariant
            module.wf(),
            p <= module.imports@.len(),
            imported == function_imports_before(module.imports@, p as int),
            imported <= p,
        decreases module.imports.len() - p,
    {
        if module.imports[p].type_index.is_some() {
            imported = imported + 1;
        }
        p = p + 1;
    }
    imported + module.code.len() as u64 <= u32::MAX as u64
}

/// The functions of a module, by function index: imports first, then
/// bodies.
#[derive(Debug)]
pub struct FunctionLookup<'a> {
    table: Vec<FunctionLookupEntry<'a>>,
    num_imports: u32,
}

impl<'a> FunctionLookup<'a> {
    /// The entries, by function index.
    pub closed spec fn entries(&self) -> Seq<FunctionLookupEntry<'a>> {
        self.table@
    }

    /// The number of imported functions.
    pub closed spec fn imported(&self) -> nat {
        self.num_imports as nat
    }

    /// The entry at `k` is the import that stands at function index `k`.
    pub open spec fn import_at(&self, imports: Seq<Import>, k: int) -> bool {
        self.entries()[k] matches FunctionLookupEntry::Import { index, ty, import } && {
            &&& index < imports.len()
            &&& *import == imports[index as int]
            &&& import.type_index == Some(ty)
            &&& function_imports_before(imports, index as int) == k
        }
    }

    /// The entry at `k` is the body that stands at function index `k`, with
    /// the name of the last export that exports it.
    pub open spec fn body_at(&self, module: &ParsedModule, k: int) -> bool {
        self.entries()[k] matches FunctionLookupEntry::Body { index, ty, body, export_name } && {
            &&& index == k - self.imported()
            &&& ty == module.functions@[index as int]
            &&& body == module.code@[index as int]
            &&& match export_of(module.exports@, k, module.exports@.len() as int) {
                Some(e) => export_name == Some(&module.exports@[e].name),
                None => export_name is None,
            }
        }
    }

    /// The table holds the function imports of `module` in order and then
    /// its bodies in order.
    pub open spec fn wf(&self, module: &ParsedModule) -> bool {
        &&& self.entries().len() <= u32::MAX
        &&& self.imported() == function_imports_before(
            module.imports@,
            module.imports@.len() as int,
        )
        &&& self.entries().len() == self.imported() + module.code@.len()
        &&& forall|k: int| 0 <= k < self.imported() ==> #[trigger] self.import_at(module.imports@, k)
        &&& forall|k: int|
            self.imported() <= k < self.entries().len() ==> #[trigger] self.body_at(module, k)
    }

    /// Lists the imported functions and then the defined ones, and gives
    /// each defined function the name of the last export that exports it.
    pub fn new(module: &'a ParsedModule<'a>) -> (r: Self)
        requires
            module.wf(),
            weavable(module),
        ensures
            r.wf(module),
    {
        let mut table: Vec<FunctionLookupEntry<'a>> = Vec::new();
        let mut num_imports: u32 = 0;
        let mut p: usize = 0;
        while p < module.imports.len()
            invariant
                module.wf(),
                p <= module.imports@.len(),
                num_imports == function_imports_before(module.imports@, p as int),
                num_imports <= p,
                table@.len() == num_imports,
                forall|k: int|
                    0 <= k < table@.len() ==> (#[trigger] table@[k] matches FunctionLookupEntry::Import {
                        index,
                        ty,
                        import,
                    } && {
                        &&& index < module.imports@.len()
                        &&& *import == module.imports@[index as int]
                        &&& import.type_index == Some(ty)
                        &&& function_imports_before(module.imports@, index as int) == k
                    }),
            decreases module.imports.len() - p,
        {
            let import = &module.imports[p];
            match import.type_index {
                Some(ty) => {
                    table.push(FunctionLookupEntry::Import { index: p as u32, ty, import });
                    num_imports = num_imports + 1;
                },
                None => {},
            }
            p = p + 1;
        }
        let mut i: usize = 0;
        while i < module.code.len()
            invariant
                module.wf(),
                weavable(module),
                i <= module.code@.len(),
                num_imports == function_imports_before(
                    module.imports@,
                    module.imports@.len() as int,
                ),
                table@.len() == num_imports + i,
                forall|k: int|
                    0 <= k < num_imports ==> (#[trigger] table@[k] matches FunctionLookupEntry::Import {
                        index,
                        ty,
                        import,
                    } && {
                        &&& index < module.imports@.len()
                        &&& *import == module.imports@[index as int]
                        &&& import.type_index == Some(ty)
                        &&& function_imports_before(module.imports@, index as int) == k
                    }),
                forall|k: int|
                    num_imports <= k < table@.len() ==> (#[trigger] table@[k] matches FunctionLookupEntry::Body {
                        index,
                        ty,
                        body,
                        export_name,
                    } && {
                        &&& index == k - num_imports
                        &&& ty == module.functions@[index as int]
                        &&& body == module.code@[index as int]
                        &&& export_name is None
                    }),
            decreases module.code.len() - i,
        {
            table.push(
                FunctionLookupEntry::Body {
                    index: i as u32,
                    ty: module.functions[i],
                    body: module.code[i],
                    export_name: None,
                },
            );
            i = i + 1;
        }
        let mut e: usize = 0;
        while e < module.exports.len()
            invariant
                module.wf(),
                weavable(module),
                e <= module.exports@.len(),
                num_imports == function_imports_before(
                    module.imports@,
                    module.imports@.len() as int,
                ),
                table@.len() == num_imports + module.code@.len(),
                forall|k: int|
                    0 <= k < num_imports ==> (#[trigger] table@[k] matches FunctionLookupEntry::Import {
                        index,
                        ty,
                        import,
                    } && {
                        &&& index < module.imports@.len()
                        &&& *import == module.imports@[index as int]
                        &&& import.type_index == Some(ty)
                        &&& function_imports_before(module.imports@, index as int) == k
                    }),
                forall|k: int|
                    num_imports <= k < table@.len() ==> (#[trigger] table@[k] matches FunctionLookupEntry::Body {
                        index,
                        ty,
                        body,
                        export_name,
                    } && {
                        &&& index == k - num_imports
                        &&& ty == module.functions@[index as int]
                        &&& body == module.code@[index as int]
                        &&& match export_of(module.exports@, k, e as int) {
                            Some(found) => export_name == Some(&module.exports@[found].name),
                            None => export_name is None,
                        }
                    }),
            decreases module.exports.len() - e,
        {
            let export = &module.exports[e];
            if export.kind == ExternKind::Func && (export.index as usize) < table.len() {
                let at: usize = export.index as usize;
                match table[at] {
                    FunctionLookupEntry::Body { index, ty, body, .. } => {
                        table.set(
                            at,
                            FunctionLookupEntry::Body {
                                index,
                                ty,
                                body,
                                export_name: Some(&export.name),
                            },
                        );
                    },
                    FunctionLookupEntry::Import { .. } => {},
                }
            }
            e = e + 1;
        }
        let r = FunctionLookup { table, num_imports };
        proof {
            assert forall|k: int| 0 <= k < r.imported() implies #[trigger] r.import_at(
                module.imports@,
                k,
            ) by {
                assert(r.entries()[k] matches FunctionLookupEntry::Import { .. });
            }
            assert forall|k: int| r.imported() <= k < r.entries().len() implies #[trigger] r.body_at(
                module,
                k,
            ) by {
                assert(r.entries()[k] matches FunctionLookupEntry::Body { .. });
            }
        }
        r
    }

    /// The number of functions, imported and defined.
    pub fn count(&self) -> (r: usize)
        ensures
            r == self.entries().len(),
    {
        self.table.len()
    }

    /// The number of imported functions.
    pub fn import_count(&self) -> (r: u32)
        ensures
            r == self.imported(),
    {
        self.num_imports
    }

    /// The function index of the body at position `body_index`.
    pub fn index_of_body(&self, body_index: u32) -> (r: u32)
        requires
            self.imported() + body_index <= u32::MAX,
        ensures
            r == self.imported() + body_index,
    {
        self.num_imports + body_index
    }

    /// What stands at function index `index`, if the module has that many
    /// functions.
    pub fn get(&self, index: u32) -> (r: Option<FunctionLookupEntry<'a>>)
        ensures
            r == if index < self.entries().len() {
                Some(self.entries()[index as int])
            } else {
                None::<FunctionLookupEntry<'a>>
            },
    {
        if (index as usize) < self.table.len() {
            Some(self.table[index as usize])
        } else {
            None
        }
    }

    /// What stands at function index `index`; an error if the module has
    /// fewer functions.
    pub fn try_get(&self, index: u32) -> (r: Result<FunctionLookupEntry<'a>, WeaveError>)
        ensures
            r == if index < self.entries().len() {
                Ok::<FunctionLookupEntry<'a>, WeaveError>(self.entries()[index as int])
            } else {
                Err::<FunctionLookupEntry<'a>, WeaveError>(
                    WeaveError::FunctionIndexOutOfBounds(index),
                )
            },
    {
        match self.get(index) {
            Some(entry) => Ok(entry),
            None => Err(WeaveError::FunctionIndexOutOfBounds(index)),
        }
    }
}

} // verus!
