//! One run of the pipeline as a sequence of stages. Each stage says what is
//! to be asked of the service or done on disk, and takes the answer to give
//! the next stage or the end of the run. A stage can only be had from the one
//! before it, so validation comes before compilation, compilation before the
//! artifact is written, and the write before the artifact is announced.

use vstd::prelude::*;
use vstd::string::*;
use crate::bundle::{plan_bundles, plan_of, BundlePlan, BundlePlanModel};
use crate::files::{CandidateFile, FileSet};
use crate::outcome::{
    CompileOutcome, CompileOutcomeModel, PipelineError, PipelineErrorModel, ValidationError,
    ValidationOutcome, ValidationOutcomeModel,
};
use crate::paths::{join, join_of};
use crate::text::{decimal, decimal_digits};

verus! {

/// What the caller asks of a run.
#[derive(Debug, Clone, PartialEq, Eq)]
pub struct CompileOptions {
    /// The file name under which the artifact is written.
    pub output: String,
    /// The base address of the service, where it is not the public one.
    pub server: Option<String>,
    /// Report in machine-readable form, without progress display.
    pub json: bool,
    /// Stop after validation.
    pub verify: bool,
    /// The run belongs to a watch session, whose viewers are told of a new
    /// artifact.
    pub watch: bool,
    /// The files to take in place of a scan of the directory.
    pub explicit_files: Vec<String>,
}

/// What `CompileOptions` stand for in contracts.
pub ghost struct CompileOptionsModel {
    pub output: Seq<char>,
    pub server: Option<Seq<char>>,
    pub json: bool,
    pub verify: bool,
    pub watch: bool,
    pub explicit_files: Seq<Seq<char>>,
}

impl View for CompileOptions {
    type V = CompileOptionsModel;

    open spec fn view(&self) -> CompileOptionsModel {
        CompileOptionsModel {
            output: self.output@,
            server: self.server.deep_view(),
            json: self.json,
            verify: self.verify,
            watch: self.watch,
            explicit_files: self.explicit_files.deep_view(),
        }
    }
}

/// The base address of the public service.
pub open spec fn public_server() -> Seq<char> {
    "https://latex.taptapp.xyz"@
}

/// The base address that a run talks to.
pub open spec fn server_of(options: CompileOptionsModel) -> Seq<char> {
    match options.server {
        Some(s) => s,
        None => public_server(),
    }
}

/// Where the files of a run come from.
#[derive(Debug, Clone, Copy, PartialEq, Eq, Structural)]
pub enum Selection {
    /// Every file below the directory.
    Scan,
    /// The files that the options name, and no others.
    Explicit,
}

impl CompileOptions {
    /// The base address that a run with these options talks to.
    pub fn server_address(&self) -> (address: String)
        ensures
            address@ == server_of(self@),
    {
        match &self.server {
            Some(s) => s.clone(),
            None => "https://latex.taptapp.xyz".to_owned(),
        }
    }

    /// Where the files of a run with these options come from: the named
    /// files if there are any, else a scan.
    pub fn selection(&self) -> (s: Selection)
        ensures
            s == if self@.explicit_files.len() == 0 {
                Selection::Scan
            } else {
                Selection::Explicit
            },
    {
        if self.explicit_files.len() == 0 {
            Selection::Scan
        } else {
            Selection::Explicit
        }
    }
}

/// What a run carries from stage to stage.
pub ghost struct RunModel {
    /// The two bundles.
    pub plan: BundlePlanModel,
    /// The base address of the service.
    pub server: Seq<char>,
    /// Where the artifact is written.
    pub artifact_path: Seq<char>,
    /// Whether the run stops after validation.
    pub verify_only: bool,
    /// Whether viewers are told of the artifact.
    pub announce: bool,
}

/// The run that `compile` starts for the files `files` in the directory
/// `dir`.
pub open spec fn run_of(dir: Seq<char>, files: Seq<crate::files::FileModel>, options: CompileOptionsModel) -> RunModel {
    RunModel {
        plan: plan_of(files, options.output),
        server: server_of(options),
        artifact_path: join_of(dir, options.output),
        verify_only: options.verify,
        announce: options.watch,
    }
}

struct Run {
    plan: BundlePlan,
    server: String,
    artifact_path: String,
    verify_only: bool,
    announce: bool,
}

impl View for Run {
    type V = RunModel;

    closed spec fn view(&self) -> RunModel {
        RunModel {
            plan: self.plan@,
            server: self.server@,
            artifact_path: self.artifact_path@,
            verify_only: self.verify_only,
            announce: self.announce,
        }
    }
}

/// The first stage: the validation request is due.
pub struct Validating {
    run: Run,
}

impl View for Validating {
    type V = RunModel;

    closed spec fn view(&self) -> RunModel {
        self.run@
    }
}

/// The second stage: the compile request is due.
pub struct Compiling {
    run: Run,
}

impl View for Compiling {
    type V = RunModel;

    closed spec fn view(&self) -> RunModel {
        self.run@
    }
}

/// The service accepted the compile request: its answer holds the artifact.
pub struct Receiving {
    run: Run,
}

impl View for Receiving {
    type V = RunModel;

    closed spec fn view(&self) -> RunModel {
        self.run@
    }
}

/// The service refused the compile request: its answer holds the reason.
pub struct Refusing {
    status: u16,
}

impl Refusing {
    /// The status with which the service refused.
    pub closed spec fn status(&self) -> u16 {
        self.status
    }
}

/// The last stage: the artifact is to be written.
pub struct Writing {
    outcome: CompileOutcome,
    artifact_path: String,
    announce: bool,
}

/// What a `Writing` stage stands for in contracts.
pub ghost struct WritingModel {
    /// The successful outcome that the run ends with once the artifact is on
    /// disk.
    pub outcome: CompileOutcomeModel,
    pub artifact_path: Seq<char>,
    pub announce: bool,
}

impl View for Writing {
    type V = WritingModel;

    closed spec fn view(&self) -> WritingModel {
        WritingModel {
            outcome: self.outcome@,
            artifact_path: self.artifact_path@,
            announce: self.announce,
        }
    }
}

/// How a run that compiled ends.
#[derive(Debug, PartialEq, Eq)]
pub struct Finished {
    pub outcome: CompileOutcome,
    /// Where the artifact was written.
    pub artifact_path: String,
    /// The path to announce to the viewers of a watch session; `None` outside
    /// one.
    pub publish: Option<String>,
}

/// What `Finished` stands for in contracts.
pub ghost struct FinishedModel {
    pub outcome: CompileOutcomeModel,
    pub artifact_path: Seq<char>,
    pub publish: Option<Seq<char>>,
}

impl View for Finished {
    type V = FinishedModel;

    open spec fn view(&self) -> FinishedModel {
        FinishedModel {
            outcome: self.outcome@,
            artifact_path: self.artifact_path@,
            publish: self.publish.deep_view(),
        }
    }
}

/// What follows the validation request.
pub enum ValidationStep {
    /// The sources were rejected: the run ends with this failure, and no
    /// compile request is made.
    Rejected(PipelineError),
    /// The run was to validate only and ends here with success.
    Verified { warnings: Vec<String> },
    /// The compile request is next.
    Proceed { stage: Compiling, warnings: Vec<String> },
}

/// What a `ValidationStep` stands for in contracts.
pub ghost enum ValidationStepModel {
    Rejected(PipelineErrorModel),
    Verified { warnings: Seq<Seq<char>> },
    Proceed { run: RunModel, warnings: Seq<Seq<char>> },
}

impl View for ValidationStep {
    type V = ValidationStepModel;

    open spec fn view(&self) -> ValidationStepModel {
        match self {
            ValidationStep::Rejected(e) => ValidationStepModel::Rejected(e@),
            ValidationStep::Verified { warnings } => ValidationStepModel::Verified {
                warnings: warnings.deep_view(),
            },
            ValidationStep::Proceed { stage, warnings } => ValidationStepModel::Proceed {
                run: stage@,
                warnings: warnings.deep_view(),
            },
        }
    }
}

/// The warnings that a validation outcome carries: those of an accepting
/// verdict.
pub open spec fn warnings_of(outcome: ValidationOutcomeModel) -> Seq<Seq<char>> {
    match outcome {
        ValidationOutcomeModel::Verdict(v) => match v.warnings {
            Some(w) => w,
            None => Seq::empty(),
        },
        ValidationOutcomeModel::Unavailable => Seq::empty(),
    }
}

/// What follows the validation request. A verdict that is not valid ends the
/// run with its diagnostics. Every other outcome lets the run go on, a
/// missing verdict included: validation is best effort.
pub open spec fn after_validation(run: RunModel, outcome: ValidationOutcomeModel) -> ValidationStepModel {
    match outcome {
        ValidationOutcomeModel::Verdict(v) if !v.valid => ValidationStepModel::Rejected(
            PipelineErrorModel::ValidationFailed {
                errors: match v.errors {
                    Some(e) => e,
                    None => Seq::empty(),
                },
            },
        ),
        _ => if run.verify_only {
            ValidationStepModel::Verified { warnings: warnings_of(outcome) }
        } else {
            ValidationStepModel::Proceed { run, warnings: warnings_of(outcome) }
        },
    }
}

/// Whether a status of the compile endpoint means success.
pub open spec fn is_success_status(status: u16) -> bool {
    200 <= status <= 299
}

/// Whether the service answered the compile request with success.
///
/// Trusted: the body makes a `reqwest::StatusCode` of the number with
/// `StatusCode::from_u16`, which takes 100 to 999, and asks
/// `StatusCode::is_success`, which holds of 200 to 299.
#[verifier::external_body]
fn status_is_success(status: u16) -> (success: bool)
    ensures
        success == is_success_status(status),
{
    match reqwest::StatusCode::from_u16(status) {
        Ok(code) => code.is_success(),
        Err(_) => false,
    }
}

/// What follows the status of the compile endpoint's answer.
pub enum StatusStep {
    /// Read the artifact from the answer.
    Accepted(Receiving),
    /// Read the reason from the answer.
    Refused(Refusing),
}

/// The count of processed files that a run reports: what the service said,
/// or else the number of files sent.
pub open spec fn files_processed_of(reported: Option<Seq<char>>, sent: nat) -> Seq<char> {
    match reported {
        Some(r) => r,
        None => decimal_digits(sent),
    }
}

/// The successful outcome of a run that sent `sent` files.
pub open spec fn success_of(artifact: Seq<u8>, elapsed_ms: Option<Seq<char>>, files_received: Option<Seq<char>>, sent: nat) -> CompileOutcomeModel {
    CompileOutcomeModel::Success {
        artifact,
        elapsed_ms,
        files_processed: Some(files_processed_of(files_received, sent)),
    }
}

/// The end of a run whose artifact is on disk. Viewers are told of the
/// artifact only then, and only in a watch session.
pub open spec fn finished_of(stage: WritingModel) -> FinishedModel {
    FinishedModel {
        outcome: stage.outcome,
        artifact_path: stage.artifact_path,
        publish: if stage.announce {
            Some(stage.artifact_path)
        } else {
            None
        },
    }
}

/// Starts a run for the files `files` of the directory `dir`: plans the
/// bundles and gives the first stage, or ends with `NoSourceFiles` where
/// there is no document source to send.
pub fn compile(dir: &str, files: &FileSet, options: &CompileOptions) -> (started: Result<
    Validating,
    PipelineError,
>)
    ensures
        match started {
            Ok(stage) => stage@ == run_of(dir@, files@, options@) && stage@.plan.validation.len()
                > 0,
            Err(e) => e@ == PipelineErrorModel::NoSourceFiles && plan_of(
                files@,
                options@.output,
            ).validation.len() == 0,
        },
{
    match plan_bundles(files, options.output.as_str()) {
        Ok(plan) => Ok(
            Validating {
                run: Run {
                    plan,
                    server: options.server_address(),
                    artifact_path: join(dir, options.output.as_str()),
                    verify_only: options.verify,
                    announce: options.watch,
                },
            },
        ),
        Err(e) => Err(e),
    }
}

impl Validating {
    /// The address of the validation endpoint.
    pub fn endpoint(&self) -> (url: String)
        ensures
            url@ == self@.server + "/validate"@,
    {
        let mut url = self.run.server.clone();
        url.append("/validate");
        url
    }

    /// The files to send for validation: the document sources, in order.
    pub fn bundle(&self) -> (files: &Vec<CandidateFile>)
        ensures
            files.deep_view() == self@.plan.validation,
    {
        &self.run.plan.validation
    }

    /// The files that the compile request will send, should the run get
    /// there: every allowed file, in order.
    pub fn compile_bundle(&self) -> (files: &Vec<CandidateFile>)
        ensures
            files.deep_view() == self@.plan.compile,
    {
        &self.run.plan.compile
    }

    /// Takes the outcome of the validation request.
    pub fn conclude(self, outcome: ValidationOutcome) -> (step: ValidationStep)
        ensures
            step@ == after_validation(self@, outcome@),
    {
        let ghost model = outcome@;
        let warnings: Vec<String> = match outcome {
            ValidationOutcome::Verdict(verdict) => {
                if !verdict.valid {
                    let errors: Vec<ValidationError> = match verdict.errors {
                        Some(e) => e,
                        None => Vec::new(),
                    };
                    assert(errors.deep_view() =~= match verdict@.errors {
                        Some(e) => e,
                        None => Seq::empty(),
                    });
                    return ValidationStep::Rejected(PipelineError::ValidationFailed { errors });
                }
                match verdict.warnings {
                    Some(w) => w,
                    None => Vec::new(),
                }
            },
            ValidationOutcome::Unavailable => Vec::new(),
        };
        assert(warnings.deep_view() =~= warnings_of(model));
        if self.run.verify_only {
            ValidationStep::Verified { warnings }
        } else {
            ValidationStep::Proceed { stage: Compiling { run: self.run }, warnings }
        }
    }
}

impl Compiling {
    /// The address of the compile endpoint.
    pub fn endpoint(&self) -> (url: String)
        ensures
            url@ == self@.server + "/compile"@,
    {
        let mut url = self.run.server.clone();
        url.append("/compile");
        url
    }

    /// The files to send for compilation: every allowed file, in order.
    pub fn bundle(&self) -> (files: &Vec<CandidateFile>)
        ensures
            files.deep_view() == self@.plan.compile,
    {
        &self.run.plan.compile
    }

    /// Takes the status of the compile endpoint's answer.
    pub fn on_status(self, status: u16) -> (step: StatusStep)
        ensures
            match step {
                StatusStep::Accepted(stage) => is_success_status(status) && stage@ == self@,
                StatusStep::Refused(stage) => !is_success_status(status) && stage.status()
                    == status,
            },
    {
        if status_is_success(status) {
            StatusStep::Accepted(Receiving { run: self.run })
        } else {
            StatusStep::Refused(Refusing { status })
        }
    }
}

impl Receiving {
    /// Takes the artifact and what the service reported with it: the time
    /// the compilation took and the number of files it received.
    pub fn on_artifact(
        self,
        artifact: Vec<u8>,
        elapsed_ms: Option<String>,
        files_received: Option<String>,
    ) -> (stage: Writing)
        ensures
            stage@ == (WritingModel {
                outcome: success_of(
                    artifact@,
                    elapsed_ms.deep_view(),
                    files_received.deep_view(),
                    self@.plan.compile.len(),
                ),
                artifact_path: self@.artifact_path,
                announce: self@.announce,
            }),
    {
        let files_processed = match files_received {
            Some(reported) => reported,
            None => decimal(self.run.plan.compile.len() as u64),
        };
        Writing {
            outcome: CompileOutcome::Success {
                artifact,
                elapsed_ms,
                files_processed: Some(files_processed),
            },
            artifact_path: self.run.artifact_path,
            announce: self.run.announce,
        }
    }
}

impl Refusing {
    /// Takes the text with which the service refused.
    pub fn on_body(self, body: String) -> (outcome: CompileOutcome)
        ensures
            outcome@ == (CompileOutcomeModel::Failure {
                status_code: self.status(),
                message: body@,
            }),
    {
        CompileOutcome::Failure { status_code: self.status, message: body }
    }
}

impl Writing {
    /// Where the artifact is to be written, replacing what is there.
    pub fn artifact_path(&self) -> (path: &String)
        ensures
            path@ == self@.artifact_path,
    {
        &self.artifact_path
    }

    /// The bytes to write.
    pub fn artifact(&self) -> (bytes: &Vec<u8>)
        ensures
            self@.outcome matches CompileOutcomeModel::Success { artifact, .. } && bytes@
                == artifact,
    {
        match &self.outcome {
            CompileOutcome::Success { artifact, .. } => artifact,
            CompileOutcome::Failure { .. } => {
                proof {
                    use_type_invariant(self);
                }
                unreached()
            },
        }
    }

    #[verifier::type_invariant]
    spec fn holds_success(self) -> bool {
        self.outcome is Success
    }

    /// Takes the result of the write: the run ends with its outcome, or
    /// with the failure of the write.
    pub fn conclude(self, written: Result<(), String>) -> (end: Result<Finished, PipelineError>)
        ensures
            match written {
                Ok(_) => end matches Ok(finished) && finished@ == finished_of(self@),
                Err(message) => end matches Err(e) && e@ == (PipelineErrorModel::Io {
                    message: message@,
                }),
            },
    {
        match written {
            Ok(_) => {
                let publish = if self.announce {
                    Some(self.artifact_path.clone())
                } else {
                    None
                };
                Ok(Finished { outcome: self.outcome, artifact_path: self.artifact_path, publish })
            },
            Err(message) => Err(PipelineError::Io { message }),
        }
    }
}

impl CompileOutcome {
    /// The failure with which a run ends on this outcome, if it is one.
    pub fn failure(&self) -> (e: Option<PipelineError>)
        ensures
            match self@ {
                CompileOutcomeModel::Success { .. } => e is None,
                CompileOutcomeModel::Failure { status_code, message } => e is Some && e.unwrap()@
                    == (PipelineErrorModel::CompileFailed { status: status_code, body: message }),
            },
    {
        match self {
            CompileOutcome::Success { .. } => None,
            CompileOutcome::Failure { status_code, message } => Some(
                PipelineError::CompileFailed { status: *status_code, body: message.clone() },
            ),
        }
    }
}

} // verus!
