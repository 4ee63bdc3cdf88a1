use qtex::target::{opens_artifact, resolve_target, GivenPath, PathKind, Target};

fn given(path: &str, kind: PathKind, parent: Option<&str>) -> GivenPath {
    GivenPath { path: path.to_string(), kind, parent: parent.map(|p| p.to_string()) }
}

fn target(directory: &str, files: &[&str]) -> Target {
    Target { directory: directory.to_string(), explicit_files: files.iter().map(|f| f.to_string()).collect() }
}

#[test]
fn no_path_means_the_working_directory() {
    assert_eq!(resolve_target(&Vec::new()), target(".", &[]));
}

#[test]
fn single_directory_is_scanned() {
    assert_eq!(resolve_target(&vec![given("paper", PathKind::Directory, Some(""))]), target("paper", &[]));
}

#[test]
fn files_are_taken_and_the_first_gives_the_directory() {
    let paths = vec![
        given("missing.tex", PathKind::Other, Some("")),
        given("paper/main.tex", PathKind::File, Some("paper")),
        given("figs", PathKind::Directory, Some("")),
        given("/abs/refs.bib", PathKind::File, Some("/abs")),
    ];
    assert_eq!(resolve_target(&paths), target("paper", &["paper/main.tex", "/abs/refs.bib"]));
}

#[test]
fn single_file_and_file_without_parent() {
    assert_eq!(resolve_target(&vec![given("a/main.tex", PathKind::File, Some("a"))]), target("a", &["a/main.tex"]));
    assert_eq!(resolve_target(&vec![given("main.tex", PathKind::File, Some(""))]), target("", &["main.tex"]));
    assert_eq!(resolve_target(&vec![given("x", PathKind::File, None)]), target(".", &["x"]));
}

#[test]
fn nothing_usable_falls_back_to_the_working_directory() {
    let paths = vec![given("a", PathKind::Directory, None), given("b", PathKind::Directory, None)];
    assert_eq!(resolve_target(&paths), target(".", &[]));
    assert_eq!(resolve_target(&vec![given("gone", PathKind::Other, None)]), target(".", &[]));
}

#[test]
fn artifact_is_opened_only_after_a_plain_compile() {
    assert!(opens_artifact(false, false, false));
    assert!(!opens_artifact(true, false, false));
    assert!(!opens_artifact(false, true, false));
    assert!(!opens_artifact(false, false, true));
}
