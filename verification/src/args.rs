//! What the command line asks for.

use vstd::prelude::*;

verus! {

/// What to do.
#[derive(Debug)]
pub enum RootArgs {
    /// Build a Rust project and weave what comes out.
    Build(BuildArgs),
    /// Weave a module.
    Weave(WeaveArgs),
}

/// How to build a Rust project.
#[derive(Debug)]
pub struct BuildArgs {
    /// The package to build, where the workspace has several.
    pub project: Option<String>,
    /// The features to build with.
    pub feature: Vec<String>,
    /// Where the woven module goes.
    pub output: String,
    /// What is handed on to the build tool as it is.
    pub cargo_args: Vec<String>,
}

/// Which module to weave.
#[derive(Debug)]
pub struct WeaveArgs {
    /// Where the module is.
    pub input: String,
    /// Where the woven module goes.
    pub output: String,
}

} // verus!
