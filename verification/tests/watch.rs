use qtex::outcome::PipelineError;
use qtex::watch::{action_report, qualifies, run_report, changed_path, watches_extension, ChangeEvent, ChangeKind, Report, RunGate, WatchAction, WatchSignal};

fn event(kind: ChangeKind, paths: &[&str]) -> ChangeEvent {
    ChangeEvent { kind, paths: paths.iter().map(|p| p.to_string()).collect() }
}

fn changed(kind: ChangeKind, paths: &[&str]) -> WatchSignal {
    WatchSignal::Changed(event(kind, paths))
}

#[test]
fn watch_list_is_exact_and_case_sensitive() {
    for ext in ["tex", "bib", "sty", "cls", "png", "jpg", "jpeg", "pdf"] {
        assert!(watches_extension(ext), "{}", ext);
    }
    for ext in ["", "TEX", "bst", "eps", "csv", "txt", "tikz", "otf", "ttf", "aux"] {
        assert!(!watches_extension(ext), "{}", ext);
    }
}

#[test]
fn artifact_never_qualifies() {
    assert!(qualifies("/w/main.tex", "output.pdf"));
    assert!(qualifies("/w/fig.pdf", "output.pdf"));
    assert!(!qualifies("/w/output.pdf", "output.pdf"));
    assert!(!qualifies("/w/main.aux", "output.pdf"));
    assert!(!qualifies("/w/MAIN.TEX", "output.pdf"));
    assert!(!qualifies("/w/Makefile", "output.pdf"));
}

#[test]
fn changed_path_is_the_first_that_qualifies() {
    let e = event(ChangeKind::Modify, &["/w/main.aux", "/w/output.pdf", "/w/b.tex", "/w/a.tex"]);
    assert_eq!(changed_path(&e, "output.pdf"), Some("/w/b.tex".to_string()));
    assert_eq!(changed_path(&event(ChangeKind::Create, &["/w/a.png"]), "output.pdf"), Some("/w/a.png".to_string()));
    assert_eq!(changed_path(&event(ChangeKind::Other, &["/w/a.tex"]), "output.pdf"), None);
    assert_eq!(changed_path(&event(ChangeKind::Modify, &[]), "output.pdf"), None);
    assert_eq!(changed_path(&event(ChangeKind::Modify, &["/w/output.pdf"]), "output.pdf"), None);
}

#[test]
fn gate_admits_one_run_at_a_time() {
    let mut gate = RunGate::new();
    assert!(!gate.is_compiling());
    let first = gate.on_signal(&changed(ChangeKind::Modify, &["/w/main.tex"]), "output.pdf");
    assert_eq!(first, WatchAction::Recompile { changed: "/w/main.tex".to_string() });
    assert!(gate.is_compiling());
    let second = gate.on_signal(&changed(ChangeKind::Modify, &["/w/ch.tex"]), "output.pdf");
    assert_eq!(second, WatchAction::Ignore);
    assert!(gate.is_compiling());
    gate.finish();
    assert!(!gate.is_compiling());
    let third = gate.on_signal(&changed(ChangeKind::Create, &["/w/ch.tex"]), "output.pdf");
    assert_eq!(third, WatchAction::Recompile { changed: "/w/ch.tex".to_string() });
    assert!(gate.is_compiling());
}

#[test]
fn events_that_do_not_qualify_leave_the_gate_clear() {
    let mut gate = RunGate::new();
    assert_eq!(gate.on_signal(&changed(ChangeKind::Modify, &["/w/output.pdf"]), "output.pdf"), WatchAction::Ignore);
    assert_eq!(gate.on_signal(&changed(ChangeKind::Other, &["/w/main.tex"]), "output.pdf"), WatchAction::Ignore);
    assert!(!gate.is_compiling());
}

#[test]
fn watcher_failure_is_reported_and_leaves_the_gate() {
    let mut gate = RunGate::new();
    let failed = WatchSignal::Failed("root unreadable".to_string());
    assert_eq!(gate.on_signal(&failed, "output.pdf"), WatchAction::ReportError { message: "root unreadable".to_string() });
    assert!(!gate.is_compiling());
    gate.on_signal(&changed(ChangeKind::Modify, &["/w/main.tex"]), "output.pdf");
    assert_eq!(gate.on_signal(&failed, "output.pdf"), WatchAction::ReportError { message: "root unreadable".to_string() });
    assert!(gate.is_compiling());
}

#[test]
fn reports_of_runs_and_actions() {
    assert_eq!(run_report(None), Report::Compile { success: true, error: None });
    let e = PipelineError::CompileFailed { status: 500, body: "boom".to_string() };
    assert_eq!(
        run_report(Some(&e)),
        Report::Compile { success: false, error: Some("Compilation error:\nboom".to_string()) }
    );
    assert_eq!(action_report(&WatchAction::Ignore), None);
    assert_eq!(
        action_report(&WatchAction::Recompile { changed: "/w/a.tex".to_string() }),
        Some(Report::Change { file: "/w/a.tex".to_string() })
    );
    assert_eq!(
        action_report(&WatchAction::ReportError { message: "m".to_string() }),
        Some(Report::Error { message: "m".to_string() })
    );
}
