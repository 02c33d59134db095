//! Building a Rust project: what the build tool is asked, and which of
//! its answers names the module to weave.

use crate::args::BuildArgs;
use crate::table_slab::str_eq;
use vstd::prelude::*;
use vstd::string::*;

verus! {

/// The texts of a list of strings.
pub open spec fn texts(list: Seq<String>) -> Seq<Seq<char>> {
    Seq::new(list.len(), |i: int| list[i]@)
}

/// The first `count` strings of a list, joined by commas.
pub open spec fn joined(list: Seq<String>, count: int) -> Seq<char>
    decreases count,
{
    if count <= 0 {
        Seq::empty()
    } else if count == 1 {
        list[0]@
    } else {
        joined(list, count - 1) + ","@ + list[count - 1]@
    }
}

/// The strings of a list, joined by commas.
pub fn join(list: &Vec<String>) -> (r: String)
    ensures
        r@ == joined(list@, list@.len() as int),
{
    let mut out = String::new();
    let mut i: usize = 0;
    while i < list.len()
        invariant
            i <= list@.len(),
            out@ == joined(list@, i as int),
        decreases list@.len() - i,
    {
        if i != 0 {
            out.append(",");
        }
        out.append(list[i].as_str());
        proof {
            if i == 0 {
                assert(out@ =~= list@[0]@);
            }
        }
        i = i + 1;
    }
    out
}

/// What names the package to build, if one is named.
pub open spec fn package_arguments(project: Option<String>) -> Seq<Seq<char>> {
    match project {
        Some(name) => seq!["--package"@, name@],
        None => Seq::empty(),
    }
}

/// What names the features to build with, if there are any.
pub open spec fn feature_arguments(feature: Seq<String>) -> Seq<Seq<char>> {
    if feature.len() == 0 {
        Seq::empty()
    } else {
        seq!["--features"@, joined(feature, feature.len() as int)]
    }
}

/// What asks for a library for WebAssembly, built for release, and for
/// answers that a program can read.
pub open spec fn target_arguments() -> Seq<Seq<char>> {
    seq![
        "--lib"@,
        "--target"@,
        "wasm32-unknown-unknown"@,
        "--release"@,
        "--message-format"@,
        "json-render-diagnostics"@,
    ]
}

/// The arguments that the build tool is called with: `build`, the
/// package, the features, the target, and then what the command line
/// hands on.
pub open spec fn build_arguments(args: &BuildArgs) -> Seq<Seq<char>> {
    seq!["build"@] + package_arguments(args.project) + feature_arguments(args.feature@)
        + target_arguments() + texts(args.cargo_args@)
}

/// The arguments that the build tool is called with, see
/// [`build_arguments`].
pub fn cargo_arguments(args: &BuildArgs) -> (r: Vec<String>)
    ensures
        texts(r@) == build_arguments(args),
{
    let mut out: Vec<String> = Vec::new();
    out.push(String::from_str("build"));
    assert(texts(out@) =~= seq!["build"@]);
    let ghost head = texts(out@);
    match &args.project {
        Some(name) => {
            out.push(String::from_str("--package"));
            out.push(name.clone());
        },
        None => {},
    }
    assert(texts(out@) =~= head + package_arguments(args.project));
    let ghost head = texts(out@);
    if args.feature.len() != 0 {
        out.push(String::from_str("--features"));
        out.push(join(&args.feature));
    }
    assert(texts(out@) =~= head + feature_arguments(args.feature@));
    let ghost head = texts(out@);
    out.push(String::from_str("--lib"));
    out.push(String::from_str("--target"));
    out.push(String::from_str("wasm32-unknown-unknown"));
    out.push(String::from_str("--release"));
    out.push(String::from_str("--message-format"));
    out.push(String::from_str("json-render-diagnostics"));
    assert(texts(out@) =~= head + target_arguments());
    let ghost head = texts(out@);
    let mut i: usize = 0;
    while i < args.cargo_args.len()
        invariant
            i <= args.cargo_args@.len(),
            texts(out@) == head + texts(args.cargo_args@).subrange(0, i as int),
        decreases args.cargo_args@.len() - i,
    {
        let ghost before = texts(out@);
        out.push(args.cargo_args[i].clone());
        assert(texts(out@) =~= before.push(args.cargo_args@[i as int]@));
        assert(texts(out@) =~= head + texts(args.cargo_args@).subrange(0, i + 1));
        i = i + 1;
    }
    assert(texts(args.cargo_args@).subrange(0, i as int) =~= texts(args.cargo_args@));
    out
}

/// The kind of a target of the build.
#[derive(Clone, Copy, Debug, PartialEq, Eq, Structural)]
pub enum TargetKind {
    Bin,
    Lib,
    Rlib,
    Dylib,
    Cdylib,
    Example,
    Test,
    Bench,
    CustomBuild,
    Other,
}

/// An answer of the build tool.
#[derive(Debug)]
pub enum CargoMessage {
    /// A target is built; these are its kinds and its files.
    CompilerArtifact { kinds: Vec<TargetKind>, filenames: Vec<String> },
    /// The build is over.
    BuildFinished { success: bool },
    Other,
}

/// `extension` stands in `path` behind a dot.
pub open spec fn after_dot(path: Seq<char>, extension: Seq<char>) -> bool {
    exists|i: int|
        0 < i && i + extension.len() <= path.len() && path[i - 1] == '.' && #[trigger] path.subrange(
            i,
            i + extension.len(),
        ) == extension
}

/// `Path::extension`: the extension of the file name of a path. What is a
/// file name depends on the system that the library is built for; on
/// each the extension stands in the path behind a dot.
#[verifier::external_body]
fn path_extension(path: &str) -> (r: Option<String>)
    ensures
        r matches Some(extension) ==> after_dot(path@, extension@),
{
    std::path::Path::new(path).extension().map(|e| e.to_string_lossy().into_owned())
}

/// Whether the extension of the file name of a path is `wasm`, by the
/// rules of the system that the library is built for. Where it is, the
/// path holds `.wasm`.
pub fn has_wasm_extension(path: &str) -> (r: bool)
    ensures
        r ==> after_dot(path@, "wasm"@),
{
    match path_extension(path) {
        Some(extension) => str_eq(extension.as_str(), "wasm"),
        None => false,
    }
}

/// Whether one of the first `count` kinds is that of a dynamic library
/// for C.
pub open spec fn any_cdylib(kinds: Seq<TargetKind>, count: int) -> bool
    decreases count,
{
    if count <= 0 {
        false
    } else {
        any_cdylib(kinds, count - 1) || kinds[count - 1] == TargetKind::Cdylib
    }
}

/// The first of the files from `from` on that is marked.
pub open spec fn first_marked(filenames: Seq<String>, marks: Seq<bool>, from: int) -> Option<String>
    decreases filenames.len() - from,
{
    if from < 0 || from >= filenames.len() {
        None
    } else if from < marks.len() && marks[from] {
        Some(filenames[from])
    } else {
        first_marked(filenames, marks, from + 1)
    }
}

/// A file that is found among the marked ones is one of the files, and
/// it is marked.
pub proof fn lemma_first_marked(filenames: Seq<String>, marks: Seq<bool>, from: int)
    requires
        0 <= from,
    ensures
        first_marked(filenames, marks, from) matches Some(path) ==> exists|j: int|
            from <= j < filenames.len() && j < marks.len() && marks[j] && #[trigger] filenames[j]
                == path,
    decreases filenames.len() - from,
{
    if from < filenames.len() && !(from < marks.len() && marks[from]) {
        lemma_first_marked(filenames, marks, from + 1);
    }
}

/// Whether to read on.
#[derive(Debug)]
pub enum Search {
    /// Nothing is decided yet.
    Go,
    /// The build is over: this is the module to weave, if there is one.
    Done(Option<String>),
}

/// The search for the module to weave among the answers of the build
/// tool.
#[derive(Debug)]
pub struct ArtifactSearch {
    /// The module that was found first.
    pub wasm: Option<String>,
}

impl ArtifactSearch {
    /// Nothing is found yet.
    pub fn new() -> (r: Self)
        ensures
            r.wasm is None,
    {
        ArtifactSearch { wasm: None }
    }

    /// The module that is known after an answer, where `marks` tells of
    /// each file that the answer names whether its extension is `wasm`:
    /// what was known before, if a module was known; otherwise the first
    /// marked file of a dynamic library for C, if the answer names one.
    pub open spec fn found(wasm: Option<String>, message: &CargoMessage, marks: Seq<bool>) -> Option<
        String,
    > {
        match message {
            CargoMessage::CompilerArtifact { kinds, filenames } => if wasm is None && any_cdylib(
                kinds@,
                kinds@.len() as int,
            ) {
                first_marked(filenames@, marks, 0)
            } else {
                wasm
            },
            _ => wasm,
        }
    }

    /// The module that is known after an answer, see
    /// [`ArtifactSearch::found`].
    pub fn pick(wasm: Option<String>, message: &CargoMessage, marks: &Vec<bool>) -> (r: Option<
        String,
    >)
        ensures
            r == Self::found(wasm, message, marks@),
    {
        match message {
            CargoMessage::CompilerArtifact { kinds, filenames } => {
                if wasm.is_some() {
                    return wasm;
                }
                let mut cdylib = false;
                let mut k: usize = 0;
                while k < kinds.len()
                    invariant
                        k <= kinds@.len(),
                        cdylib == any_cdylib(kinds@, k as int),
                    decreases kinds@.len() - k,
                {
                    if kinds[k] == TargetKind::Cdylib {
                        cdylib = true;
                    }
                    k = k + 1;
                }
                if !cdylib {
                    return wasm;
                }
                let mut f: usize = 0;
                while f < filenames.len()
                    invariant
                        f <= filenames@.len(),
                        first_marked(filenames@, marks@, 0) == first_marked(
                            filenames@,
                            marks@,
                            f as int,
                        ),
                        wasm is None,
                        any_cdylib(kinds@, kinds@.len() as int),
                        *message == (CargoMessage::CompilerArtifact {
                            kinds: *kinds,
                            filenames: *filenames,
                        }),
                    decreases filenames@.len() - f,
                {
                    if f < marks.len() && marks[f] {
                        return Some(filenames[f].clone());
                    }
                    f = f + 1;
                }
                None
            },
            _ => wasm,
        }
    }

    /// Takes one answer of the build tool. A build that failed ends the
    /// search without a module; a build that succeeded ends it with the
    /// module that was found first; any other answer lets it go on. A
    /// module that is known stays; one that becomes known is a file of a
    /// dynamic library for C whose name holds `.wasm`, the first with the
    /// extension `wasm` that the answer names.
    pub fn step(&mut self, message: &CargoMessage) -> (r: Search)
        ensures
            old(self).wasm is Some ==> final(self).wasm == old(self).wasm,
            exists|marks: Seq<bool>| final(self).wasm == #[trigger] Self::found(
                old(self).wasm,
                message,
                marks,
            ),
            old(self).wasm is None ==> (final(self).wasm matches Some(path) ==> message matches CargoMessage::CompilerArtifact {
                kinds,
                filenames,
            } && any_cdylib(kinds@, kinds@.len() as int) && filenames@.contains(path) && after_dot(
                path@,
                "wasm"@,
            )),
            r == match message {
                CargoMessage::BuildFinished { success } => Search::Done(
                    if *success {
                        old(self).wasm
                    } else {
                        None
                    },
                ),
                _ => Search::Go,
            },
    {
        match message {
            CargoMessage::CompilerArtifact { kinds, filenames } => {
                let mut marks: Vec<bool> = Vec::new();
                let mut f: usize = 0;
                while f < filenames.len()
                    invariant
                        f <= filenames@.len(),
                        marks@.len() == f,
                        forall|j: int|
                            0 <= j < f && marks@[j] ==> after_dot(
                                (#[trigger] filenames@[j])@,
                                "wasm"@,
                            ),
                    decreases filenames@.len() - f,
                {
                    marks.push(has_wasm_extension(filenames[f].as_str()));
                    f = f + 1;
                }
                let known = match &self.wasm {
                    Some(found) => Some(found.clone()),
                    None => None,
                };
                self.wasm = Self::pick(known, message, &marks);
                proof {
                    lemma_first_marked(filenames@, marks@, 0);
                    assert(self.wasm == Self::found(old(self).wasm, message, marks@));
                }
                Search::Go
            },
            CargoMessage::BuildFinished { success } => {
                assert(self.wasm == Self::found(old(self).wasm, message, Seq::<bool>::empty()));
                if *success {
                    Search::Done(
                        match &self.wasm {
                            Some(found) => Some(found.clone()),
                            None => None,
                        },
                    )
                } else {
                    Search::Done(None)
                }
            },
            CargoMessage::Other => {
                assert(self.wasm == Self::found(old(self).wasm, message, Seq::<bool>::empty()));
                Search::Go
            },
        }
    }
}

} // verus!
