//! What the passes over a module ask of the weaver: whether the module
//! needs the slab, an entry handed to the encoder with the types that it
//! names, and the index that an exported item has in the output.

use crate::encoder::SectionKind;
use crate::error::{Failure, WeaveError};
use crate::function::{asks_for_externref, has_externref};
use crate::parse::Span;
use crate::reader::ExternKind;
use crate::renumber::Renumbering;
use crate::sections::ItemSection;
use crate::weaver::Weaver;
use vstd::prelude::*;

verus! {

impl<'a> Weaver<'a> {
    /// Whether one of the first `count` signatures of the module asks for a
    /// host reference.
    pub open spec fn asks_for_slab(&self, count: int) -> bool {
        exists|i: int|
            0 <= i < count && asks_for_externref(
                (#[trigger] self.parsed.signatures.entries()[i]).metas@,
            )
    }

    /// Whether one of the signatures of the module asks for a host
    /// reference.
    pub fn needs_slab(&self) -> (r: bool)
        ensures
            r == self.asks_for_slab(self.parsed.signatures.entries().len() as int),
    {
        let mut i: usize = 0;
        while i < self.parsed.signatures.len()
            invariant
                i <= self.parsed.signatures.entries().len(),
                !self.asks_for_slab(i as int),
            decreases self.parsed.signatures.entries().len() - i,
        {
            if has_externref(&self.parsed.signatures.entry(i).metas) {
                return true;
            }
            i = i + 1;
        }
        false
    }

    /// Hands an entry of the input to the encoder, which adds it to a
    /// section with its indices renumbered; every type that the entry names
    /// and that is not written yet is written first.
    pub fn add_item(&mut self, section: &mut ItemSection, span: Span) -> (r: Result<(), Failure>)
        requires
            old(self).wf(),
            span.within(old(self).parsed.data@.len()),
            old(section).renumbered() || old(section).is(SectionKind::Memories) || old(section).is(
                SectionKind::Tags,
            ),
        ensures
            final(self).wf(),
            old(self).types_grown(final(self)),
            final(section).builder.kind() == old(section).builder.kind(),
            match r {
                Ok(()) => final(section).count == old(section).count + 1,
                Err(_) => final(section).count == old(section).count,
            },
            old(section).count == u32::MAX ==> {
                &&& r == Err::<(), Failure>(Failure::Read(crate::error::ReadError::Malformed))
                &&& *final(self) == *old(self)
            },
            old(section).count < u32::MAX ==> match crate::encoder::item_refused(
                old(section).builder.kind(),
                old(self).parsed.data@,
                span.start as int,
                span.end as int,
                old(self).maps(),
            ) {
                None => r is Ok && *final(self) == *old(self),
                Some(e) => !(e matches Failure::UserError(WeaveError::TypeIndexOutOfBounds(_)))
                    ==> r == Err::<(), Failure>(e) && *final(self) == *old(self),
            },
            r is Ok ==> (crate::encoder::item_written(
                old(section).builder.kind(),
                old(self).parsed.data@,
                span.start as int,
                span.end as int,
                final(self).maps(),
            ) matches Ok(bytes) && final(section).held() == old(section).held().push(
                crate::encoder::Entry::Item(bytes),
            )),
            r is Err ==> final(section).held() == old(section).held(),
    {
        let mut fuel: usize = self.ty_lookup.len();
        let ghost mut first = true;
        loop
            invariant
                self.wf(),
                old(self).types_grown(self),
                first ==> *self == *old(self),
                !first ==> (old(section).count < u32::MAX ==> crate::encoder::item_refused(
                    old(section).builder.kind(),
                    old(self).parsed.data@,
                    span.start as int,
                    span.end as int,
                    old(self).maps(),
                ) matches Some(Failure::UserError(WeaveError::TypeIndexOutOfBounds(_)))),
                span.within(self.parsed.data@.len()),
                section.builder.kind() == old(section).builder.kind(),
                section.count == old(section).count,
                section.held() == old(section).held(),
                old(section).count == u32::MAX ==> *self == *old(self),
                section.renumbered() || section.is(SectionKind::Memories) || section.is(
                    SectionKind::Tags,
                ),
            decreases fuel,
        {
            let attempt = {
                let renumber = Renumbering {
                    indices: &self.indices,
                    callable: &self.callable_functions,
                };
                section.add(self.parsed.data, span, &renumber)
            };
            match attempt {
                Ok(()) => {
                    return Ok(());
                },
                Err(e) => {
                    let ghost before = *self;
                    self.write_missing_type(e, &mut fuel)?;
                    proof {
                        Self::lemma_types_grown(old(self), &before, self);
                        first = false;
                    }
                },
            }
        }
    }

    /// The index that the item of an export has in the output.
    pub fn external_index(&self, kind: ExternKind, index: u32) -> (r: Result<u32, WeaveError>)
        ensures
            r == self.exported_index(kind, index),
    {
        match kind {
            ExternKind::Func => self.function_index(index),
            ExternKind::FuncExact => self.function_index(index),
            ExternKind::Table => self.table_index(index),
            ExternKind::Global => self.global_index(index),
            ExternKind::Memory => Ok(index),
            ExternKind::Tag => Ok(index),
        }
    }

    /// The index that the item of an export has in the output: functions,
    /// tables and globals are renumbered, memories and tags keep their
    /// index.
    pub open spec fn exported_index(&self, kind: ExternKind, index: u32) -> Result<u32, WeaveError> {
        match kind {
            ExternKind::Func => self.maps().function_index(index),
            ExternKind::FuncExact => self.maps().function_index(index),
            ExternKind::Table => self.maps().table_index(index),
            ExternKind::Global => self.maps().global_index(index),
            ExternKind::Memory => Ok(index),
            ExternKind::Tag => Ok(index),
        }
    }
}

} // verus!
