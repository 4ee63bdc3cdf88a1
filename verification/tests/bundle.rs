use qtex::bundle::{allows_extension, fate, plan_bundles, transmission, Transmission};
use qtex::files::{CandidateFile, FileSet};
use qtex::outcome::PipelineError;

fn candidate(absolute: &str, relative: &str) -> CandidateFile {
    CandidateFile { absolute_path: absolute.to_string(), root_relative_path: relative.to_string() }
}

fn names(files: &Vec<CandidateFile>) -> Vec<String> {
    files.iter().map(|f| f.root_relative_path.clone()).collect()
}

#[test]
fn allow_list_is_exact() {
    for ext in [
        "tex", "bib", "sty", "cls", "bst", "pdf", "png", "jpg", "jpeg", "eps", "csv", "dat",
        "tsv", "txt", "tikz", "otf", "ttf",
    ] {
        assert!(allows_extension(ext), "{}", ext);
    }
    for ext in ["", "TEX", "aux", "log", "gz", "svg", "te", "texx", "md"] {
        assert!(!allows_extension(ext), "{}", ext);
    }
}

#[test]
fn transmission_by_extension_and_name() {
    assert_eq!(transmission("tex", "main.tex", "output.pdf"), Transmission::Source);
    assert_eq!(transmission("png", "a.png", "output.pdf"), Transmission::Asset);
    assert_eq!(transmission("pdf", "fig.pdf", "output.pdf"), Transmission::Asset);
    assert_eq!(transmission("pdf", "output.pdf", "output.pdf"), Transmission::Withheld);
    assert_eq!(transmission("tex", "main.tex", "main.tex"), Transmission::Withheld);
    assert_eq!(transmission("aux", "main.aux", "output.pdf"), Transmission::Withheld);
}

#[test]
fn extension_is_folded_to_lower_case() {
    assert_eq!(fate(&candidate("/p/MAIN.TEX", "MAIN.TEX"), "output.pdf"), Transmission::Source);
    assert_eq!(fate(&candidate("/p/Fig.PNG", "Fig.PNG"), "output.pdf"), Transmission::Asset);
    assert_eq!(fate(&candidate("/p/notes.md", "notes.md"), "output.pdf"), Transmission::Withheld);
}

#[test]
fn artifact_is_in_neither_bundle() {
    let set = FileSet::new(vec![
        candidate("/p/main.tex", "main.tex"),
        candidate("/p/output.pdf", "output.pdf"),
        candidate("/p/fig.pdf", "fig.pdf"),
        candidate("/p/sub/output.pdf", "sub/output.pdf"),
    ]);
    let plan = plan_bundles(&set, "output.pdf").unwrap();
    assert_eq!(names(&plan.validation), vec!["main.tex"]);
    assert_eq!(names(&plan.compile), vec!["main.tex", "fig.pdf"]);
}

#[test]
fn artifact_named_like_a_source_is_withheld() {
    let set = FileSet::new(vec![
        candidate("/p/main.tex", "main.tex"),
        candidate("/p/out.tex", "out.tex"),
    ]);
    let plan = plan_bundles(&set, "out.tex").unwrap();
    assert_eq!(names(&plan.validation), vec!["main.tex"]);
    assert_eq!(names(&plan.compile), vec!["main.tex"]);
}

#[test]
fn bundles_keep_the_order_of_the_set() {
    let set = FileSet::new(vec![
        candidate("/p/refs.bib", "refs.bib"),
        candidate("/p/b.tex", "b.tex"),
        candidate("/p/a.tex", "a.tex"),
        candidate("/p/notes.md", "notes.md"),
        candidate("/p/img/x.jpeg", "img/x.jpeg"),
    ]);
    let plan = plan_bundles(&set, "output.pdf").unwrap();
    assert_eq!(names(&plan.validation), vec!["a.tex", "b.tex"]);
    assert_eq!(names(&plan.compile), vec!["a.tex", "b.tex", "img/x.jpeg", "refs.bib"]);
}

#[test]
fn no_source_files_is_an_error() {
    let set = FileSet::new(vec![candidate("/p/a.png", "a.png"), candidate("/p/refs.bib", "refs.bib")]);
    assert_eq!(plan_bundles(&set, "output.pdf").unwrap_err(), PipelineError::NoSourceFiles);
    assert_eq!(plan_bundles(&FileSet::new(Vec::new()), "output.pdf").unwrap_err(), PipelineError::NoSourceFiles);
    let only_artifact = FileSet::new(vec![candidate("/p/main.tex", "main.tex")]);
    assert_eq!(plan_bundles(&only_artifact, "main.tex").unwrap_err(), PipelineError::NoSourceFiles);
}

#[test]
fn validated_files_are_the_first_of_the_set() {
    let set = FileSet::new(vec![
        candidate("/p/a.bib", "a.bib"),
        candidate("/p/b.TEX", "b.TEX"),
        candidate("/p/z.tex", "z.tex"),
        candidate("/p/A.png", "A.png"),
    ]);
    assert_eq!(names(set.files()), vec!["b.TEX", "z.tex", "A.png", "a.bib"]);
    let plan = plan_bundles(&set, "output.pdf").unwrap();
    assert_eq!(names(&plan.validation), vec!["b.TEX", "z.tex"]);
    assert_eq!(names(&plan.compile), vec!["b.TEX", "z.tex", "A.png", "a.bib"]);
}
