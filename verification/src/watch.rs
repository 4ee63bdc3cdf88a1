//! The watch session: which changes on disk call for a new run, and the flag
//! that lets one run be in flight at a time.

use vstd::prelude::*;
use vstd::string::*;
use crate::bundle::is_allowed_extension;
use crate::outcome::{failure_text, PipelineError, PipelineErrorModel};
use crate::paths::{extension, extension_of, file_name, file_name_of};
use crate::text::same_text;

verus! {

/// What happened to the paths of a change.
#[derive(Debug, Clone, Copy, PartialEq, Eq, Structural)]
pub enum ChangeKind {
    Create,
    Modify,
    /// Anything else: an access, a removal, an event of unknown kind.
    Other,
}

/// One event of the file system.
#[derive(Debug, Clone, PartialEq, Eq)]
pub struct ChangeEvent {
    pub kind: ChangeKind,
    /// The paths that the event is about, with `/` between their
    /// components.
    pub paths: Vec<String>,
}

/// What a `ChangeEvent` stands for in contracts.
pub ghost struct ChangeEventModel {
    pub kind: ChangeKind,
    pub paths: Seq<Seq<char>>,
}

impl View for ChangeEvent {
    type V = ChangeEventModel;

    open spec fn view(&self) -> ChangeEventModel {
        ChangeEventModel { kind: self.kind, paths: self.paths.deep_view() }
    }
}

/// The extensions, as written, of the files whose change calls for a new
/// run: sources and the assets they draw on.
pub open spec fn is_watched_extension(ext: Seq<char>) -> bool {
    ||| ext == "tex"@
    ||| ext == "bib"@
    ||| ext == "sty"@
    ||| ext == "cls"@
    ||| ext == "png"@
    ||| ext == "jpg"@
    ||| ext == "jpeg"@
    ||| ext == "pdf"@
}

/// Every watched extension is one that the service takes.
pub proof fn lemma_watched_extension_is_allowed(ext: Seq<char>)
    requires
        is_watched_extension(ext),
    ensures
        is_allowed_extension(ext),
{
}

/// Whether a change of the file at `path` calls for a new run: the file is
/// of a watched type and is not the artifact, whose write by the run itself
/// must not start the next one.
pub open spec fn path_qualifies(path: Seq<char>, output: Seq<char>) -> bool {
    is_watched_extension(extension_of(path)) && file_name_of(path) != output
}

/// The first of `paths` that qualifies.
pub open spec fn first_qualifying(paths: Seq<Seq<char>>, output: Seq<char>) -> Option<Seq<char>>
    decreases paths.len(),
{
    if paths.len() == 0 {
        None
    } else if path_qualifies(paths[0], output) {
        Some(paths[0])
    } else {
        first_qualifying(paths.drop_first(), output)
    }
}

/// The path that makes an event call for a new run: the first qualifying
/// path of an event that creates or modifies.
pub open spec fn trigger_of(event: ChangeEventModel, output: Seq<char>) -> Option<Seq<char>> {
    if event.kind == ChangeKind::Create || event.kind == ChangeKind::Modify {
        first_qualifying(event.paths, output)
    } else {
        None
    }
}

/// `first_qualifying` gives the qualifying path at the least place, and
/// nothing exactly where no path qualifies.
pub proof fn lemma_first_qualifying(paths: Seq<Seq<char>>, output: Seq<char>)
    ensures
        match first_qualifying(paths, output) {
            Some(path) => exists|k: int|
                0 <= k < paths.len() && paths[k] == path && path_qualifies(path, output)
                    && forall|j: int| 0 <= j < k ==> !path_qualifies(#[trigger] paths[j], output),
            None => forall|j: int|
                0 <= j < paths.len() ==> !path_qualifies(#[trigger] paths[j], output),
        },
    decreases paths.len(),
{
    if paths.len() == 0 {
    } else if path_qualifies(paths[0], output) {
        assert(paths[0] == paths[0]);
    } else {
        let rest = paths.drop_first();
        lemma_first_qualifying(rest, output);
        match first_qualifying(rest, output) {
            Some(path) => {
                let k = choose|k: int|
                    0 <= k < rest.len() && rest[k] == path && path_qualifies(path, output)
                        && forall|j: int|
                        0 <= j < k ==> !path_qualifies(#[trigger] rest[j], output);
                assert(paths[k + 1] == path);
                assert forall|j: int| 0 <= j < k + 1 implies !path_qualifies(
                    #[trigger] paths[j],
                    output,
                ) by {
                    if j > 0 {
                        assert(paths[j] == rest[j - 1]);
                    }
                }
            },
            None => {
                assert forall|j: int| 0 <= j < paths.len() implies !path_qualifies(
                    #[trigger] paths[j],
                    output,
                ) by {
                    if j > 0 {
                        assert(paths[j] == rest[j - 1]);
                    }
                }
            },
        }
    }
}

/// Whether a change of a file with the extension `ext`, as written, calls
/// for a new run.
pub fn watches_extension(ext: &str) -> (watched: bool)
    ensures
        watched == is_watched_extension(ext@),
{
    same_text(ext, "tex") || same_text(ext, "bib") || same_text(ext, "sty") || same_text(
        ext,
        "cls",
    ) || same_text(ext, "png") || same_text(ext, "jpg") || same_text(ext, "jpeg") || same_text(
        ext,
        "pdf",
    )
}

/// Whether a change of the file at `path` calls for a new run.
pub fn qualifies(path: &str, output: &str) -> (yes: bool)
    ensures
        yes == path_qualifies(path@, output@),
{
    let ext = extension(path);
    if !watches_extension(ext.as_str()) {
        return false;
    }
    let name = file_name(path);
    !same_text(name.as_str(), output)
}

/// The path that makes `event` call for a new run, if it does.
pub fn changed_path(event: &ChangeEvent, output: &str) -> (path: Option<String>)
    ensures
        path.deep_view() == trigger_of(event@, output@),
{
    match event.kind {
        ChangeKind::Other => {
            return None;
        },
        _ => {},
    }
    let mut i: usize = 0;
    assert(event.paths.deep_view().skip(0) == event.paths.deep_view());
    while i < event.paths.len()
        invariant
            i <= event.paths.len(),
            event.kind != ChangeKind::Other,
            first_qualifying(event.paths.deep_view(), output@) == first_qualifying(
                event.paths.deep_view().skip(i as int),
                output@,
            ),
        decreases event.paths.len() - i,
    {
        let ghost rest = event.paths.deep_view().skip(i as int);
        assert(rest[0] == event.paths[i as int]@);
        assert(rest.drop_first() == event.paths.deep_view().skip(i + 1));
        if qualifies(event.paths[i].as_str(), output) {
            return Some(event.paths[i].clone());
        }
        i += 1;
    }
    None
}

/// What the watcher hands the session: a change, or a failure of the
/// watching itself.
#[derive(Debug, Clone, PartialEq, Eq)]
pub enum WatchSignal {
    Changed(ChangeEvent),
    Failed(String),
}

/// What a `WatchSignal` stands for in contracts.
pub ghost enum WatchSignalModel {
    Changed(ChangeEventModel),
    Failed(Seq<char>),
}

impl View for WatchSignal {
    type V = WatchSignalModel;

    open spec fn view(&self) -> WatchSignalModel {
        match self {
            WatchSignal::Changed(e) => WatchSignalModel::Changed(e@),
            WatchSignal::Failed(m) => WatchSignalModel::Failed(m@),
        }
    }
}

/// What the session does on a signal.
#[derive(Debug, Clone, PartialEq, Eq)]
pub enum WatchAction {
    /// Nothing.
    Ignore,
    /// Start a run; `changed` is the path that called for it.
    Recompile { changed: String },
    /// Report a failure of the watching and go on.
    ReportError { message: String },
}

/// What a `WatchAction` stands for in contracts.
pub ghost enum WatchActionModel {
    Ignore,
    Recompile { changed: Seq<char> },
    ReportError { message: Seq<char> },
}

impl View for WatchAction {
    type V = WatchActionModel;

    open spec fn view(&self) -> WatchActionModel {
        match self {
            WatchAction::Ignore => WatchActionModel::Ignore,
            WatchAction::Recompile { changed } => WatchActionModel::Recompile { changed: changed@ },
            WatchAction::ReportError { message } => WatchActionModel::ReportError {
                message: message@,
            },
        }
    }
}

/// The flag of a session after `signal`, where it was `compiling` before,
/// and what the session does. While a run is in flight every change is
/// dropped. With the flag clear an event that calls for a run sets it and
/// starts one. A failure of the watching is reported and leaves the flag as
/// it is.
pub open spec fn react(compiling: bool, signal: WatchSignalModel, output: Seq<char>) -> (bool, WatchActionModel) {
    match signal {
        WatchSignalModel::Failed(message) => (compiling, WatchActionModel::ReportError { message }),
        WatchSignalModel::Changed(event) => if compiling {
            (true, WatchActionModel::Ignore)
        } else {
            match trigger_of(event, output) {
                Some(changed) => (true, WatchActionModel::Recompile { changed }),
                None => (false, WatchActionModel::Ignore),
            }
        },
    }
}

/// While a run is in flight no signal starts another, and the flag stays
/// set.
pub proof fn lemma_set_gate_starts_no_run(signal: WatchSignalModel, output: Seq<char>)
    ensures
        react(true, signal, output).0,
        !(react(true, signal, output).1 is Recompile),
{
}

/// With the flag clear, an event that calls for a run starts one and sets
/// the flag.
pub proof fn lemma_clear_gate_starts_run(event: ChangeEventModel, output: Seq<char>)
    requires
        trigger_of(event, output) is Some,
    ensures
        react(false, WatchSignalModel::Changed(event), output) == (
            true,
            WatchActionModel::Recompile { changed: trigger_of(event, output).unwrap() },
        ),
{
}

/// A run is started only with the flag clear and only by an event that
/// calls for one; starting it sets the flag.
pub proof fn lemma_run_starts_from_clear_gate(compiling: bool, signal: WatchSignalModel, output: Seq<char>)
    requires
        react(compiling, signal, output).1 is Recompile,
    ensures
        !compiling,
        react(compiling, signal, output).0,
        signal matches WatchSignalModel::Changed(event) && trigger_of(event, output) is Some,
{
}

/// The flag of one watch session that says whether a run is in flight.
#[derive(Debug)]
pub struct RunGate {
    is_compiling: bool,
}

impl View for RunGate {
    type V = bool;

    closed spec fn view(&self) -> bool {
        self.is_compiling
    }
}

impl RunGate {
    /// The flag of a new session: clear.
    pub fn new() -> (gate: RunGate)
        ensures
            !gate@,
    {
        RunGate { is_compiling: false }
    }

    /// Whether a run is in flight.
    pub fn is_compiling(&self) -> (compiling: bool)
        ensures
            compiling == self@,
    {
        self.is_compiling
    }

    /// Takes a signal of the watcher and says what to do. The flag is set
    /// exactly when the answer is to start a run, or was set before.
    pub fn on_signal(&mut self, signal: &WatchSignal, output: &str) -> (action: WatchAction)
        ensures
            (final(self)@, action@) == react(old(self)@, signal@, output@),
    {
        match signal {
            WatchSignal::Failed(message) => WatchAction::ReportError { message: message.clone() },
            WatchSignal::Changed(event) => {
                if self.is_compiling {
                    return WatchAction::Ignore;
                }
                match changed_path(event, output) {
                    Some(changed) => {
                        self.is_compiling = true;
                        WatchAction::Recompile { changed }
                    },
                    None => WatchAction::Ignore,
                }
            },
        }
    }

    /// Clears the flag when the run in flight has ended, however it ended.
    pub fn finish(&mut self)
        ensures
            !final(self)@,
    {
        self.is_compiling = false;
    }
}

/// One line of the machine-readable account of a session.
#[derive(Debug, Clone, PartialEq, Eq)]
pub enum Report {
    /// A change called for a run.
    Change { file: String },
    /// A run ended.
    Compile { success: bool, error: Option<String> },
    /// Something outside the runs failed.
    Error { message: String },
}

/// What a `Report` stands for in contracts.
pub ghost enum ReportModel {
    Change { file: Seq<char> },
    Compile { success: bool, error: Option<Seq<char>> },
    Error { message: Seq<char> },
}

impl View for Report {
    type V = ReportModel;

    open spec fn view(&self) -> ReportModel {
        match self {
            Report::Change { file } => ReportModel::Change { file: file@ },
            Report::Compile { success, error } => ReportModel::Compile {
                success: *success,
                error: error.deep_view(),
            },
            Report::Error { message } => ReportModel::Error { message: message@ },
        }
    }
}

/// The account of a run that ended with `failure`, or well where there is
/// none.
pub open spec fn run_report_of(failure: Option<PipelineErrorModel>) -> ReportModel {
    match failure {
        Some(e) => ReportModel::Compile { success: false, error: Some(failure_text(e)) },
        None => ReportModel::Compile { success: true, error: None },
    }
}

/// The account of what the session does on a signal; a signal that is
/// passed over gets none.
pub open spec fn action_report_of(action: WatchActionModel) -> Option<ReportModel> {
    match action {
        WatchActionModel::Ignore => None,
        WatchActionModel::Recompile { changed } => Some(ReportModel::Change { file: changed }),
        WatchActionModel::ReportError { message } => Some(ReportModel::Error { message }),
    }
}

/// The account of a run that ended with `failure`, or well where there is
/// none.
pub fn run_report(failure: Option<&PipelineError>) -> (report: Report)
    ensures
        report@ == run_report_of(
            match failure {
                Some(e) => Some(e@),
                None => None,
            },
        ),
{
    match failure {
        Some(e) => Report::Compile { success: false, error: Some(e.message()) },
        None => Report::Compile { success: true, error: None },
    }
}

/// The account of what the session does on a signal.
pub fn action_report(action: &WatchAction) -> (report: Option<Report>)
    ensures
        match report {
            Some(r) => action_report_of(action@) == Some(r@),
            None => action_report_of(action@) is None,
        },
{
    match action {
        WatchAction::Ignore => None,
        WatchAction::Recompile { changed } => Some(Report::Change { file: changed.clone() }),
        WatchAction::ReportError { message } => Some(Report::Error { message: message.clone() }),
    }
}

} // verus!
