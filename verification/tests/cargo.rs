use wasm_weaver::args::{BuildArgs, RootArgs, WeaveArgs};
use wasm_weaver::cargo::{
    cargo_arguments, has_wasm_extension, join, ArtifactSearch, CargoMessage, Search, TargetKind,
};

fn strings(list: &[&str]) -> Vec<String> {
    list.iter().map(|text| text.to_string()).collect()
}

fn artifact(kinds: Vec<TargetKind>, filenames: &[&str]) -> CargoMessage {
    CargoMessage::CompilerArtifact { kinds, filenames: strings(filenames) }
}

#[test]
fn strings_are_joined_by_commas() {
    assert_eq!(join(&vec![]), "");
    assert_eq!(join(&strings(&["a"])), "a");
    assert_eq!(join(&strings(&["a", "bc", "d"])), "a,bc,d");
}

#[test]
fn plain_build_asks_for_a_release_library() {
    let args = BuildArgs {
        project: None,
        feature: vec![],
        output: "out.wasm".to_string(),
        cargo_args: vec![],
    };
    assert_eq!(
        cargo_arguments(&args),
        strings(&[
            "build",
            "--lib",
            "--target",
            "wasm32-unknown-unknown",
            "--release",
            "--message-format",
            "json-render-diagnostics",
        ])
    );
}

#[test]
fn build_names_package_and_features() {
    let args = BuildArgs {
        project: Some("guest".to_string()),
        feature: strings(&["fast", "small"]),
        output: "out.wasm".to_string(),
        cargo_args: strings(&["--offline", "-v"]),
    };
    assert_eq!(
        cargo_arguments(&args),
        strings(&[
            "build",
            "--package",
            "guest",
            "--features",
            "fast,small",
            "--lib",
            "--target",
            "wasm32-unknown-unknown",
            "--release",
            "--message-format",
            "json-render-diagnostics",
            "--offline",
            "-v",
        ])
    );
}

#[test]
fn command_line_names_what_to_do() {
    let weave = RootArgs::Weave(WeaveArgs { input: "a.wasm".to_string(), output: "b.wasm".to_string() });
    match weave {
        RootArgs::Weave(args) => assert_eq!((args.input.as_str(), args.output.as_str()), ("a.wasm", "b.wasm")),
        RootArgs::Build(_) => panic!("wrong command"),
    }
}

#[test]
fn module_of_a_dynamic_library_is_found() {
    let mut search = ArtifactSearch::new();
    assert!(matches!(
        search.step(&artifact(vec![TargetKind::Rlib], &["target/libdep.rlib", "target/dep.wasm"])),
        Search::Go
    ));
    assert_eq!(search.wasm, None);
    assert!(matches!(
        search.step(&artifact(
            vec![TargetKind::Lib, TargetKind::Cdylib],
            &["target/guest.d", "target/guest.wasm", "target/other.wasm"]
        )),
        Search::Go
    ));
    assert_eq!(search.wasm, Some("target/guest.wasm".to_string()));
    assert!(matches!(search.step(&CargoMessage::Other), Search::Go));
    match search.step(&CargoMessage::BuildFinished { success: true }) {
        Search::Done(found) => assert_eq!(found, Some("target/guest.wasm".to_string())),
        Search::Go => panic!("the build is over"),
    }
}

#[test]
fn first_module_is_kept() {
    let mut search = ArtifactSearch::new();
    search.step(&artifact(vec![TargetKind::Cdylib], &["zero.so", "zero.wasm.d"]));
    assert_eq!(search.wasm, None);
    search.step(&artifact(vec![TargetKind::Cdylib], &["first.wasm", "also.wasm"]));
    search.step(&artifact(vec![TargetKind::Cdylib], &["second.so", "second.wasm.d"]));
    assert_eq!(search.wasm, Some("first.wasm".to_string()));
    search.step(&artifact(vec![TargetKind::Cdylib], &["third.wasm"]));
    assert_eq!(search.wasm, Some("first.wasm".to_string()));
    match search.step(&CargoMessage::BuildFinished { success: true }) {
        Search::Done(found) => assert_eq!(found, Some("first.wasm".to_string())),
        Search::Go => panic!("the build is over"),
    }
}

#[test]
fn extension_is_compared_with_wasm() {
    assert!(has_wasm_extension("target/guest.wasm"));
    assert!(!has_wasm_extension("target/guest.wasm.d"));
    assert!(!has_wasm_extension("target/guest.wat"));
    assert!(!has_wasm_extension("target/wasm"));
    assert!(!has_wasm_extension("target/.wasm"));
}

#[test]
fn failed_build_has_no_module() {
    let mut search = ArtifactSearch::new();
    search.step(&artifact(vec![TargetKind::Cdylib], &["guest.wasm"]));
    match search.step(&CargoMessage::BuildFinished { success: false }) {
        Search::Done(found) => assert_eq!(found, None),
        Search::Go => panic!("the build is over"),
    }
}

#[test]
fn build_without_library_has_no_module() {
    let mut search = ArtifactSearch::new();
    match search.step(&CargoMessage::BuildFinished { success: true }) {
        Search::Done(found) => assert_eq!(found, None),
        Search::Go => panic!("the build is over"),
    }
}

#[test]
fn first_marked_file_is_picked() {
    let library = artifact(vec![TargetKind::Lib, TargetKind::Cdylib], &["a.d", "b.wasm", "c.wasm"]);
    let wasm = |name: &str| Some(name.to_string());
    assert_eq!(ArtifactSearch::pick(None, &library, &vec![false, true, true]), wasm("b.wasm"));
    assert_eq!(ArtifactSearch::pick(None, &library, &vec![false, false, true]), wasm("c.wasm"));
    assert_eq!(ArtifactSearch::pick(None, &library, &vec![true]), wasm("a.d"));
    assert_eq!(ArtifactSearch::pick(None, &library, &vec![]), None);
    assert_eq!(ArtifactSearch::pick(wasm("x.wasm"), &library, &vec![true, true, true]), wasm("x.wasm"));
    let other = artifact(vec![TargetKind::Rlib], &["b.wasm"]);
    assert_eq!(ArtifactSearch::pick(None, &other, &vec![true]), None);
    assert_eq!(ArtifactSearch::pick(wasm("x.wasm"), &CargoMessage::Other, &vec![]), wasm("x.wasm"));
    let over = CargoMessage::BuildFinished { success: true };
    assert_eq!(ArtifactSearch::pick(None, &over, &vec![true]), None);
}
