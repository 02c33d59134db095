pub mod args;
pub mod bindgen;
pub mod body;
pub mod cargo;
pub mod code;
pub mod driver;
pub mod encoder;
pub mod error;
pub mod function;
pub mod guarantees;
pub mod import_pass;
pub mod indices;
pub mod lookup;
pub mod parse;
pub mod passes;
pub mod persist;
pub mod progress;
pub mod reader;
pub mod renumber;
pub mod sections;
pub mod signature;
pub mod slab;
pub mod table_slab;
pub mod type_allocator;
pub mod types;
pub mod weave;
pub mod weaver;
pub mod woven;
pub mod wrap;
