//! Which files of a run are sent to the service: the compile bundle holds
//! every file of an allowed type, the validation bundle the document sources
//! among them, and neither holds the artifact of an earlier run.

use vstd::prelude::*;
use vstd::string::*;
use crate::files::{
    is_source_extension, leads, lemma_ordered_classes, ordered, source_extension, strictly_before, CandidateFile,
    FileModel, FileSet,
};
use crate::outcome::{PipelineError, PipelineErrorModel};
use crate::paths::{extension, extension_of, file_name_of};
use crate::text::{lowercase, lowercase_of, same_text};

verus! {

/// The extensions, in lower case, of the files that the service takes:
/// sources, bibliographies, styles and classes, images, data tables, fonts
/// and rendered documents.
pub open spec fn is_allowed_extension(ext: Seq<char>) -> bool {
    ||| ext == "tex"@
    ||| ext == "bib"@
    ||| ext == "sty"@
    ||| ext == "cls"@
    ||| ext == "bst"@
    ||| ext == "pdf"@
    ||| ext == "png"@
    ||| ext == "jpg"@
    ||| ext == "jpeg"@
    ||| ext == "eps"@
    ||| ext == "csv"@
    ||| ext == "dat"@
    ||| ext == "tsv"@
    ||| ext == "txt"@
    ||| ext == "tikz"@
    ||| ext == "otf"@
    ||| ext == "ttf"@
}

/// Whether the service takes files of the extension `ext`, given in lower
/// case.
pub fn allows_extension(ext: &str) -> (allowed: bool)
    ensures
        allowed == is_allowed_extension(ext@),
{
    same_text(ext, "tex") || same_text(ext, "bib") || same_text(ext, "sty") || same_text(
        ext,
        "cls",
    ) || same_text(ext, "bst") || same_text(ext, "pdf") || same_text(ext, "png") || same_text(
        ext,
        "jpg",
    ) || same_text(ext, "jpeg") || same_text(ext, "eps") || same_text(ext, "csv") || same_text(
        ext,
        "dat",
    ) || same_text(ext, "tsv") || same_text(ext, "txt") || same_text(ext, "tikz") || same_text(
        ext,
        "otf",
    ) || same_text(ext, "ttf")
}

/// What happens to one file of a run.
#[derive(Debug, Clone, Copy, PartialEq, Eq, Structural)]
pub enum Transmission {
    /// The file is not sent.
    Withheld,
    /// The file is sent with the compile request only.
    Asset,
    /// The file is a document source: it is sent for validation and for
    /// compilation.
    Source,
}

/// What happens to a file whose extension in lower case is `lowered` and
/// whose name is `name`, when the artifact is written under the name
/// `output`.
pub open spec fn transmission_of(lowered: Seq<char>, name: Seq<char>, output: Seq<char>) -> Transmission {
    if !is_allowed_extension(lowered) || name == output {
        Transmission::Withheld
    } else if is_source_extension(lowered) {
        Transmission::Source
    } else {
        Transmission::Asset
    }
}

/// What happens to a file, by its extension in lower case and its name.
pub fn transmission(lowered: &str, name: &str, output: &str) -> (t: Transmission)
    ensures
        t == transmission_of(lowered@, name@, output@),
{
    if !allows_extension(lowered) || same_text(name, output) {
        Transmission::Withheld
    } else if source_extension(lowered) {
        Transmission::Source
    } else {
        Transmission::Asset
    }
}

/// What happens to the file `f` of a run.
pub open spec fn fate_of(f: FileModel, output: Seq<char>) -> Transmission {
    transmission_of(
        lowercase_of(extension_of(f.absolute_path)),
        file_name_of(f.absolute_path),
        output,
    )
}

/// The files that go into the compile bundle.
pub open spec fn is_sent(output: Seq<char>) -> spec_fn(FileModel) -> bool {
    |f: FileModel| fate_of(f, output) != Transmission::Withheld
}

/// The files that go into the validation bundle.
pub open spec fn is_validated(output: Seq<char>) -> spec_fn(FileModel) -> bool {
    |f: FileModel| fate_of(f, output) == Transmission::Source
}

/// The two bundles of a run.
#[derive(Debug)]
pub struct BundlePlan {
    /// The document sources, sent to the validation endpoint.
    pub validation: Vec<CandidateFile>,
    /// Every file that is sent to the compile endpoint.
    pub compile: Vec<CandidateFile>,
}

/// What a `BundlePlan` stands for in contracts.
pub ghost struct BundlePlanModel {
    pub validation: Seq<FileModel>,
    pub compile: Seq<FileModel>,
}

impl View for BundlePlan {
    type V = BundlePlanModel;

    open spec fn view(&self) -> BundlePlanModel {
        BundlePlanModel {
            validation: self.validation.deep_view(),
            compile: self.compile.deep_view(),
        }
    }
}

/// The bundles of the files `files`, which keep the order of `files`.
pub open spec fn plan_of(files: Seq<FileModel>, output: Seq<char>) -> BundlePlanModel {
    BundlePlanModel {
        validation: files.filter(is_validated(output)),
        compile: files.filter(is_sent(output)),
    }
}

/// No bundle holds a file whose name is that of the artifact, whatever its
/// extension.
pub proof fn lemma_artifact_is_never_sent(files: Seq<FileModel>, output: Seq<char>)
    ensures
        forall|i: int|
            0 <= i < plan_of(files, output).compile.len() ==> file_name_of(
                (#[trigger] plan_of(files, output).compile[i]).absolute_path,
            ) != output,
        forall|i: int|
            0 <= i < plan_of(files, output).validation.len() ==> file_name_of(
                (#[trigger] plan_of(files, output).validation[i]).absolute_path,
            ) != output,
{
    let plan = plan_of(files, output);
    assert forall|i: int| 0 <= i < plan.compile.len() implies file_name_of(
        (#[trigger] plan.compile[i]).absolute_path,
    ) != output by {
        files.lemma_filter_pred(is_sent(output), i);
    }
    assert forall|i: int| 0 <= i < plan.validation.len() implies file_name_of(
        (#[trigger] plan.validation[i]).absolute_path,
    ) != output by {
        files.lemma_filter_pred(is_validated(output), i);
    }
}

/// Every file of the validation bundle is a document source that the compile
/// bundle holds too.
pub proof fn lemma_validation_within_compile(files: Seq<FileModel>, output: Seq<char>)
    ensures
        forall|i: int|
            0 <= i < plan_of(files, output).validation.len() ==> plan_of(
                files,
                output,
            ).compile.contains(#[trigger] plan_of(files, output).validation[i]),
{
    let plan = plan_of(files, output);
    assert forall|i: int| 0 <= i < plan.validation.len() implies plan.compile.contains(
        #[trigger] plan.validation[i],
    ) by {
        let f = plan.validation[i];
        files.lemma_filter_pred(is_validated(output), i);
        lemma_filter_is_within(files, is_validated(output), i);
        let k = choose|k: int| 0 <= k < files.len() && files[k] == f;
        files.lemma_filter_contains(is_sent(output), k);
    }
}

/// The files sent for validation are the document sources among the files
/// sent for compilation.
pub proof fn lemma_validated_is_sent_source(f: FileModel, output: Seq<char>)
    ensures
        is_validated(output)(f) <==> is_sent(output)(f) && leads(f),
{
}

/// In a file set, every file that is sent for validation stands before
/// every file that is no document source.
pub proof fn lemma_validated_files_stand_first(files: Seq<FileModel>, output: Seq<char>)
    requires
        ordered(files),
    ensures
        forall|i: int, j: int|
            0 <= i < files.len() && 0 <= j < files.len() && is_validated(output)(
                #[trigger] files[i],
            ) && !leads(#[trigger] files[j]) ==> i < j,
        forall|i: int, j: int|
            0 <= i < plan_of(files, output).compile.len() && 0 <= j < plan_of(
                files,
                output,
            ).compile.len() && is_validated(output)(#[trigger] plan_of(files, output).compile[i])
                && !is_validated(output)(#[trigger] plan_of(files, output).compile[j]) ==> i
                < j,
{
    lemma_ordered_classes(files);
    let sent = plan_of(files, output).compile;
    lemma_bundles_are_ordered(files, output);
    lemma_ordered_classes(sent);
    assert forall|i: int, j: int|
        0 <= i < sent.len() && 0 <= j < sent.len() && is_validated(output)(#[trigger] sent[i])
            && !is_validated(output)(#[trigger] sent[j]) implies i < j by {
        files.lemma_filter_pred(is_sent(output), j);
        lemma_validated_is_sent_source(sent[j], output);
        lemma_validated_is_sent_source(sent[i], output);
    }
}

/// Both bundles are in the order of the file set: document sources first,
/// then by name.
pub proof fn lemma_bundles_are_ordered(files: Seq<FileModel>, output: Seq<char>)
    requires
        ordered(files),
    ensures
        ordered(plan_of(files, output).compile),
        ordered(plan_of(files, output).validation),
{
    lemma_filter_keeps_order(files, is_sent(output));
    lemma_filter_keeps_order(files, is_validated(output));
}

proof fn lemma_filter_keeps_order(s: Seq<FileModel>, pred: spec_fn(FileModel) -> bool)
    requires
        ordered(s),
    ensures
        ordered(s.filter(pred)),
    decreases s.len(),
{
    reveal(Seq::filter);
    if s.len() > 0 {
        let rest = s.drop_last();
        let kept = rest.filter(pred);
        assert forall|i: int, j: int| 0 <= i < j < rest.len() implies !strictly_before(
            rest[j],
            rest[i],
        ) by {
            assert(rest[i] == s[i] && rest[j] == s[j]);
        }
        lemma_filter_keeps_order(rest, pred);
        if pred(s.last()) {
            let all = kept.push(s.last());
            assert forall|i: int, j: int| 0 <= i < j < all.len() implies !strictly_before(
                all[j],
                all[i],
            ) by {
                if j == kept.len() {
                    lemma_filter_is_within(rest, pred, i);
                    let k = choose|k: int| 0 <= k < rest.len() && rest[k] == kept[i];
                    assert(s[k] == rest[k]);
                    assert(!strictly_before(s[s.len() - 1], s[k]));
                }
            }
        }
    }
}

proof fn lemma_filter_is_within<A>(s: Seq<A>, pred: spec_fn(A) -> bool, i: int)
    requires
        0 <= i < s.filter(pred).len(),
    ensures
        s.contains(s.filter(pred)[i]),
    decreases s.len(),
{
    reveal(Seq::filter);
    if s.len() > 0 {
        let rest = s.drop_last();
        if i < rest.filter(pred).len() {
            lemma_filter_is_within(rest, pred, i);
            let k = choose|k: int| 0 <= k < rest.len() && rest[k] == rest.filter(pred)[i];
            assert(s[k] == rest[k]);
        } else {
            assert(s[s.len() - 1] == s.last());
        }
    }
}

/// What happens to `file` when the artifact is written under the name
/// `output`.
pub fn fate(file: &CandidateFile, output: &str) -> (t: Transmission)
    ensures
        t == fate_of(file@, output@),
{
    let ext = extension(file.absolute_path.as_str());
    let lowered = lowercase(ext.as_str());
    let name = file.file_name();
    transmission(lowered.as_str(), name.as_str(), output)
}

/// The bundles of a run, or `NoSourceFiles` where no document source would
/// be sent.
pub fn plan_bundles(files: &FileSet, output: &str) -> (plan: Result<BundlePlan, PipelineError>)
    ensures
        match plan {
            Ok(p) => p@ == plan_of(files@, output@) && p@.validation.len() > 0 && ordered(
                p@.compile,
            ) && ordered(p@.validation),
            Err(e) => e@ == PipelineErrorModel::NoSourceFiles && plan_of(
                files@,
                output@,
            ).validation.len() == 0,
        },
{
    let all = files.files();
    let mut validation: Vec<CandidateFile> = Vec::new();
    let mut compile: Vec<CandidateFile> = Vec::new();
    let mut i: usize = 0;
    while i < all.len()
        invariant
            i <= all.len(),
            all.deep_view() == files@,
            validation.deep_view() == files@.take(i as int).filter(is_validated(output@)),
            compile.deep_view() == files@.take(i as int).filter(is_sent(output@)),
        decreases all.len() - i,
    {
        let ghost seen_validation = validation.deep_view();
        let ghost seen_compile = compile.deep_view();
        proof {
            reveal(Seq::filter);
            assert(files@.take(i + 1).drop_last() == files@.take(i as int));
            assert(files@.take(i + 1).last() == all[i as int]@);
        }
        match fate(&all[i], output) {
            Transmission::Withheld => {},
            Transmission::Asset => {
                compile.push(all[i].duplicate());
                assert(compile.deep_view() == seen_compile.push(all[i as int]@));
            },
            Transmission::Source => {
                validation.push(all[i].duplicate());
                compile.push(all[i].duplicate());
                assert(validation.deep_view() == seen_validation.push(all[i as int]@));
                assert(compile.deep_view() == seen_compile.push(all[i as int]@));
            },
        }
        i += 1;
    }
    assert(files@.take(all.len() as int) == files@);
    proof {
        lemma_bundles_are_ordered(files@, output@);
    }
    if validation.len() == 0 {
        Err(PipelineError::NoSourceFiles)
    } else {
        Ok(BundlePlan { validation, compile })
    }
}

} // verus!
