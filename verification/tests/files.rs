use qtex::files::{entry_action, gather, is_primary_source, select, sort_candidates, source_extension, CandidateFile, EntryAction, FileSet, FoundFile, Probe};
use qtex::outcome::PipelineError;

fn candidate(absolute: &str, relative: &str) -> CandidateFile {
    CandidateFile { absolute_path: absolute.to_string(), root_relative_path: relative.to_string() }
}

fn names(files: &Vec<CandidateFile>) -> Vec<String> {
    files.iter().map(|f| f.root_relative_path.clone()).collect()
}

fn found(absolute: &str, given: &str) -> FoundFile {
    FoundFile { absolute: absolute.to_string(), given: given.to_string() }
}

#[test]
fn sources_sort_before_everything_else() {
    let set = FileSet::new(vec![
        candidate("/p/refs.bib", "refs.bib"),
        candidate("/p/z.tex", "z.tex"),
        candidate("/p/a.png", "a.png"),
        candidate("/p/ch/one.tex", "ch/one.tex"),
        candidate("/p/main.tex", "main.tex"),
    ]);
    assert_eq!(names(set.files()), vec!["ch/one.tex", "main.tex", "z.tex", "a.png", "refs.bib"]);
    assert_eq!(set.len(), 5);
    assert_eq!(set.get(0).absolute_path, "/p/ch/one.tex");
}

#[test]
fn names_sort_by_byte_not_by_letter() {
    let sorted = sort_candidates(vec![
        candidate("/p/b.tex", "b.tex"),
        candidate("/p/a.tex", "a.tex"),
        candidate("/p/B.tex", "B.tex"),
        candidate("/p/é.tex", "é.tex"),
    ]);
    assert_eq!(names(&sorted), vec!["B.tex", "a.tex", "b.tex", "é.tex"]);
}

#[test]
fn extension_counts_in_any_case() {
    assert!(is_primary_source("/p/main.tex"));
    assert!(is_primary_source("/p/MAIN.TEX"));
    assert!(is_primary_source("/p/Main.Tex"));
    assert!(!is_primary_source("/p/tex"));
    assert!(!is_primary_source("/p/main.texx"));
    assert!(source_extension("tex"));
    assert!(!source_extension("TEX"));
    assert!(!source_extension(""));
}

#[test]
fn upper_case_source_stands_before_other_files() {
    let sorted = sort_candidates(vec![
        candidate("/p/a.bib", "a.bib"),
        candidate("/p/b.TEX", "b.TEX"),
    ]);
    assert_eq!(names(&sorted), vec!["b.TEX", "a.bib"]);
}

#[test]
fn sources_of_any_case_ascend_by_name() {
    let sorted = sort_candidates(vec![
        candidate("/p/z.tex", "z.tex"),
        candidate("/p/A.TEX", "A.TEX"),
        candidate("/p/Z.bib", "Z.bib"),
        candidate("/p/a.png", "a.png"),
    ]);
    assert_eq!(names(&sorted), vec!["A.TEX", "z.tex", "Z.bib", "a.png"]);
}

#[test]
fn gather_takes_every_file_or_fails_on_the_first_missing_path() {
    let all = gather(&vec![
        Probe::Found(found("/w/a.tex", "a.tex")),
        Probe::Found(found("/w/b.png", "b.png")),
    ]);
    assert_eq!(all, Ok(vec![found("/w/a.tex", "a.tex"), found("/w/b.png", "b.png")]));
    assert_eq!(gather(&Vec::new()), Ok(Vec::new()));
    let failed = gather(&vec![
        Probe::Found(found("/w/a.tex", "a.tex")),
        Probe::Missing { given: "gone.tex".to_string(), reason: "No such file or directory".to_string() },
        Probe::Missing { given: "also.tex".to_string(), reason: "other".to_string() },
    ]);
    assert_eq!(
        failed,
        Err(PipelineError::Io { message: "gone.tex: No such file or directory".to_string() })
    );
}

#[test]
fn ties_keep_their_order() {
    let sorted = sort_candidates(vec![
        candidate("/tmp/b/x.tex", "x.tex"),
        candidate("/p/a.tex", "a.tex"),
        candidate("/tmp/a/x.tex", "x.tex"),
    ]);
    assert_eq!(names(&sorted), vec!["a.tex", "x.tex", "x.tex"]);
    assert_eq!(sorted[1].absolute_path, "/tmp/b/x.tex");
    assert_eq!(sorted[2].absolute_path, "/tmp/a/x.tex");
}

#[test]
fn empty_and_single_sets() {
    assert_eq!(FileSet::new(Vec::new()).len(), 0);
    let one = FileSet::new(vec![candidate("/p/a.tex", "a.tex")]);
    assert_eq!(names(one.files()), vec!["a.tex"]);
}

#[test]
fn explicit_files_outside_root_fall_back_to_bare_names() {
    let set = select(
        "/work/proj",
        &vec![
            found("/tmp/elsewhere/notes.tex", "../../tmp/elsewhere/notes.tex"),
            found("/home/u/fig/plot.png", "/home/u/fig/plot.png"),
        ],
    );
    assert_eq!(names(set.files()), vec!["notes.tex", "plot.png"]);
    for f in set.files() {
        assert!(!f.root_relative_path.contains('/'));
        assert!(!f.root_relative_path.contains(".."));
    }
}

#[test]
fn select_names_files_below_root_by_their_rest() {
    let set = select(
        "/work/proj",
        &vec![
            found("/work/proj/img/a.png", "/work/proj/img/a.png"),
            found("/work/proj/main.tex", "/work/proj/main.tex"),
            found("/work/proj/ch\\two.tex", "/work/proj/ch\\two.tex"),
        ],
    );
    assert_eq!(names(set.files()), vec!["ch/two.tex", "main.tex", "img/a.png"]);
    assert_eq!(set.get(1).absolute_path, "/work/proj/main.tex");
}

#[test]
fn locate_and_duplicate() {
    let c = CandidateFile::locate("/r", "/r/a/b.tex", "a/b.tex");
    assert_eq!(c.absolute_path, "/r/a/b.tex");
    assert_eq!(c.root_relative_path, "a/b.tex");
    assert_eq!(c.file_name(), "b.tex");
    let d = c.duplicate();
    assert_eq!(d.absolute_path, c.absolute_path);
    assert_eq!(d.root_relative_path, c.root_relative_path);
    assert!(c.comes_before(&candidate("/r/z.png", "0.png")));
    assert!(!candidate("/r/z.png", "0.png").comes_before(&c));
}

#[test]
fn scan_skips_hidden_and_dependency_directories() {
    assert_eq!(entry_action("/p/chapters", true), EntryAction::Descend);
    assert_eq!(entry_action("/p/node_modules", true), EntryAction::Skip);
    assert_eq!(entry_action("/p/.git", true), EntryAction::Skip);
    assert_eq!(entry_action("/p/node_modules_old", true), EntryAction::Descend);
    assert_eq!(entry_action("/p/.latexmkrc", false), EntryAction::Collect);
    assert_eq!(entry_action("/p/node_modules", false), EntryAction::Collect);
    assert_eq!(entry_action("/p/main.tex", false), EntryAction::Collect);
}
