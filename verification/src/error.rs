//! What can go wrong while a module is read, woven and checked.

use crate::types::{ValueType, ValueTypeMeta};
use vstd::prelude::*;

verus! {

/// A fault that the binary reader found in its input.
#[derive(Debug)]
pub struct DecodeError {
    /// What the reader had to say.
    pub message: String,
    /// Where in the input it stopped.
    pub offset: u64,
}

/// Why a byte string could not be taken apart into the sections of a module.
#[derive(Debug)]
pub enum ReadError {
    /// The binary reader rejected the input.
    Decode(DecodeError),
    /// The input is a component, not a core module.
    NotAModule,
    /// The input holds a section that a core module has no place for.
    UnknownSection(u8),
    /// A section or one of its entries does not end where it should, or the
    /// input ends in the middle of one.
    Malformed,
}

/// A rule of weaving that the module breaks.
#[derive(Debug)]
pub enum WeaveError {
    TypeIndexOutOfBounds(u32),
    FunctionIndexOutOfBounds(u32),
    TableIndexOutOfBounds(u32),
    GlobalIndexOutOfBounds(u32),
    /// The type that a function declares is no function type.
    FunctionTypeIsNotFunction(u32),
    /// An import of the namespace of return stubs is no function.
    ReturnsMarkerIsNotFunction(String),
    /// The slab offers nothing under this name.
    ImportNotFound(String),
    /// A function refers to a return stub that is not its own to return through.
    UnexpectedMarkerFunctionCall(Option<u32>),
    UnknownMeta(ValueTypeMeta),
    IncompatibleMetaType(ValueTypeMeta, ValueType),
}

/// Why weaving stopped.
#[derive(Debug)]
pub enum Failure {
    /// A type refers to another one in a form that no module index stands for.
    CanonicalizedHeapTypeReference,
    InvalidConstExpr,
    InvalidCodeSectionSize,
    UnexpectedNonCoreModuleSection,
    UnexpectedNonComponentSection,
    UnsupportedCoreTypeInComponent,
    /// The binary reader rejected a piece of the module.
    ParseError(DecodeError),
    /// The module breaks a rule of weaving.
    UserError(WeaveError),
    /// The module could not be taken apart.
    Read(ReadError),
    /// The woven module did not pass validation.
    Validate(DecodeError),
}

} // verus!
