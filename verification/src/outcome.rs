//! What the compilation service answers, how a run ends, and the text in
//! which a failure is reported.

use vstd::prelude::*;
use vstd::string::*;
use crate::text::{decimal_digits, push_char, push_decimal};

verus! {

/// One diagnostic of the validation endpoint.
#[derive(Debug, Clone, PartialEq, Eq)]
pub struct ValidationError {
    pub line: Option<u32>,
    pub message: String,
}

/// What a `ValidationError` stands for in contracts.
pub ghost struct ValidationErrorModel {
    pub line: Option<u32>,
    pub message: Seq<char>,
}

impl View for ValidationError {
    type V = ValidationErrorModel;

    open spec fn view(&self) -> ValidationErrorModel {
        ValidationErrorModel { line: self.line, message: self.message@ }
    }
}

impl DeepView for ValidationError {
    type V = ValidationErrorModel;

    open spec fn deep_view(&self) -> ValidationErrorModel {
        self@
    }
}

/// The verdict of the validation endpoint.
#[derive(Debug, Clone, PartialEq, Eq)]
pub struct ValidationResponse {
    pub valid: bool,
    pub errors: Option<Vec<ValidationError>>,
    pub warnings: Option<Vec<String>>,
}

/// What a `ValidationResponse` stands for in contracts.
pub ghost struct ValidationResponseModel {
    pub valid: bool,
    pub errors: Option<Seq<ValidationErrorModel>>,
    pub warnings: Option<Seq<Seq<char>>>,
}

impl View for ValidationResponse {
    type V = ValidationResponseModel;

    open spec fn view(&self) -> ValidationResponseModel {
        ValidationResponseModel {
            valid: self.valid,
            errors: self.errors.deep_view(),
            warnings: self.warnings.deep_view(),
        }
    }
}

impl DeepView for ValidationResponse {
    type V = ValidationResponseModel;

    open spec fn deep_view(&self) -> ValidationResponseModel {
        self@
    }
}

/// How the validation request ended: with a verdict, or without one because
/// the endpoint could not be reached or its answer could not be read.
#[derive(Debug, Clone, PartialEq, Eq)]
pub enum ValidationOutcome {
    Verdict(ValidationResponse),
    Unavailable,
}

/// What a `ValidationOutcome` stands for in contracts.
pub ghost enum ValidationOutcomeModel {
    Verdict(ValidationResponseModel),
    Unavailable,
}

impl View for ValidationOutcome {
    type V = ValidationOutcomeModel;

    open spec fn view(&self) -> ValidationOutcomeModel {
        match self {
            ValidationOutcome::Verdict(v) => ValidationOutcomeModel::Verdict(v@),
            ValidationOutcome::Unavailable => ValidationOutcomeModel::Unavailable,
        }
    }
}

/// How the compile request ended.
#[derive(Debug, Clone, PartialEq, Eq)]
pub enum CompileOutcome {
    /// The service rendered the document.
    Success { artifact: Vec<u8>, elapsed_ms: Option<String>, files_processed: Option<String> },
    /// The service refused the request.
    Failure { status_code: u16, message: String },
}

/// What a `CompileOutcome` stands for in contracts.
pub ghost enum CompileOutcomeModel {
    Success { artifact: Seq<u8>, elapsed_ms: Option<Seq<char>>, files_processed: Option<Seq<char>> },
    Failure { status_code: u16, message: Seq<char> },
}

impl View for CompileOutcome {
    type V = CompileOutcomeModel;

    open spec fn view(&self) -> CompileOutcomeModel {
        match self {
            CompileOutcome::Success { artifact, elapsed_ms, files_processed } => {
                CompileOutcomeModel::Success {
                    artifact: artifact@,
                    elapsed_ms: elapsed_ms.deep_view(),
                    files_processed: files_processed.deep_view(),
                }
            },
            CompileOutcome::Failure { status_code, message } => CompileOutcomeModel::Failure {
                status_code: *status_code,
                message: message@,
            },
        }
    }
}

/// Why a run ended without its result.
#[derive(Debug, Clone, PartialEq, Eq)]
pub enum PipelineError {
    /// A path could not be read or written.
    Io { message: String },
    /// No document source is among the files to send.
    NoSourceFiles,
    /// The validation endpoint rejected the sources.
    ValidationFailed { errors: Vec<ValidationError> },
    /// The compile endpoint refused the request.
    CompileFailed { status: u16, body: String },
}

/// What a `PipelineError` stands for in contracts.
pub ghost enum PipelineErrorModel {
    Io { message: Seq<char> },
    NoSourceFiles,
    ValidationFailed { errors: Seq<ValidationErrorModel> },
    CompileFailed { status: u16, body: Seq<char> },
}

impl View for PipelineError {
    type V = PipelineErrorModel;

    open spec fn view(&self) -> PipelineErrorModel {
        match self {
            PipelineError::Io { message } => PipelineErrorModel::Io { message: message@ },
            PipelineError::NoSourceFiles => PipelineErrorModel::NoSourceFiles,
            PipelineError::ValidationFailed { errors } => PipelineErrorModel::ValidationFailed {
                errors: errors.deep_view(),
            },
            PipelineError::CompileFailed { status, body } => PipelineErrorModel::CompileFailed {
                status: *status,
                body: body@,
            },
        }
    }
}

/// How the line of a diagnostic is shown: `Some(n)` with the number in
/// decimal, or `None`.
pub open spec fn line_label(line: Option<u32>) -> Seq<char> {
    match line {
        Some(n) => "Some("@ + decimal_digits(n as nat) + ")"@,
        None => "None"@,
    }
}

/// One diagnostic as a line of text.
pub open spec fn diagnostic_line(e: ValidationErrorModel) -> Seq<char> {
    "[Line "@ + line_label(e.line) + "] "@ + e.message
}

/// The diagnostics, one per line, in their order.
pub open spec fn diagnostic_lines(errors: Seq<ValidationErrorModel>) -> Seq<char>
    decreases errors.len(),
{
    if errors.len() == 0 {
        Seq::empty()
    } else if errors.len() == 1 {
        diagnostic_line(errors[0])
    } else {
        diagnostic_lines(errors.drop_last()).push('\n') + diagnostic_line(errors.last())
    }
}

/// The text in which a failure is reported.
pub open spec fn failure_text(e: PipelineErrorModel) -> Seq<char> {
    match e {
        PipelineErrorModel::Io { message } => message,
        PipelineErrorModel::NoSourceFiles => "No LaTeX files found."@,
        PipelineErrorModel::ValidationFailed { errors } => "Validation failed:\n"@
            + diagnostic_lines(errors),
        PipelineErrorModel::CompileFailed { status, body } => "Compilation error:\n"@ + body,
    }
}

impl ValidationError {
    /// Appends this diagnostic as a line of text.
    pub fn push_line(&self, out: &mut String)
        ensures
            final(out)@ == old(out)@ + diagnostic_line(self@),
    {
        out.append("[Line ");
        match self.line {
            Some(n) => {
                out.append("Some(");
                push_decimal(out, n as u64);
                out.append(")");
            },
            None => {
                out.append("None");
            },
        }
        out.append("] ");
        out.append(self.message.as_str());
        assert(final(out)@ == old(out)@ + diagnostic_line(self@));
    }
}

impl PipelineError {
    /// The text in which this failure is reported.
    pub fn message(&self) -> (text: String)
        ensures
            text@ == failure_text(self@),
    {
        match self {
            PipelineError::Io { message } => message.clone(),
            PipelineError::NoSourceFiles => "No LaTeX files found.".to_owned(),
            PipelineError::ValidationFailed { errors } => {
                let mut text = "Validation failed:\n".to_owned();
                let mut i: usize = 0;
                while i < errors.len()
                    invariant
                        i <= errors.len(),
                        text@ == "Validation failed:\n"@ + diagnostic_lines(
                            errors.deep_view().take(i as int),
                        ),
                    decreases errors.len() - i,
                {
                    let ghost seen = errors.deep_view().take(i as int);
                    let ghost next = errors.deep_view().take(i + 1);
                    assert(next.drop_last() == seen);
                    assert(next.last() == errors[i as int]@);
                    if i > 0 {
                        push_char(&mut text, '\n');
                    }
                    errors[i].push_line(&mut text);
                    i += 1;
                }
                assert(errors.deep_view().take(errors.len() as int) == errors.deep_view());
                text
            },
            PipelineError::CompileFailed { status, body } => {
                let mut text = "Compilation error:\n".to_owned();
                text.append(body.as_str());
                text
            },
        }
    }
}

} // verus!
