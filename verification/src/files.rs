//! Candidate files of one run and the order in which they are handed on.

use vstd::prelude::*;
use vstd::set_lib::{lemma_int_range, lemma_len_subset, lemma_subset_equality, set_int_range};
use vstd::string::*;
use vstd::utf8::encode_utf8;
use crate::outcome::{PipelineError, PipelineErrorModel};
use crate::paths::{extension, extension_of, file_name, file_name_of, relative_name, relative_name_of};
use crate::text::{
    bytes_before, chars_of, lemma_lex_irreflexive, lemma_lex_transitive, lemma_lex_trichotomy,
    lemma_same_bytes_same_text, lex_before, lowercase, lowercase_of, same_text,
};

verus! {

/// A file that may be sent to the compilation service. Its paths have `/`
/// between their components, on every platform.
#[derive(Debug)]
pub struct CandidateFile {
    /// Where the file is read from.
    pub absolute_path: String,
    /// The name under which the file is sent, with forward slashes.
    pub root_relative_path: String,
}

/// What a `CandidateFile` stands for in contracts.
pub ghost struct FileModel {
    pub absolute_path: Seq<char>,
    pub root_relative_path: Seq<char>,
}

impl View for CandidateFile {
    type V = FileModel;

    open spec fn view(&self) -> FileModel {
        FileModel {
            absolute_path: self.absolute_path@,
            root_relative_path: self.root_relative_path@,
        }
    }
}

impl DeepView for CandidateFile {
    type V = FileModel;

    open spec fn deep_view(&self) -> FileModel {
        self@
    }
}

/// Whether an extension, given in lower case, is that of a document source.
pub open spec fn is_source_extension(lowered: Seq<char>) -> bool {
    lowered == "tex"@
}

/// Whether the file at `path` is a document source: its extension, in
/// whatever case it is written, is `tex`.
pub open spec fn is_source_path(path: Seq<char>) -> bool {
    is_source_extension(lowercase_of(extension_of(path)))
}

/// Whether a file is a document source. This one test decides both where a
/// file stands in a file set and whether it is sent for validation.
pub open spec fn leads(f: FileModel) -> bool {
    is_source_path(f.absolute_path)
}

/// The bytes by which names are ordered.
pub open spec fn name_bytes(f: FileModel) -> Seq<u8> {
    encode_utf8(f.root_relative_path)
}

/// `a` has to stand before `b`: `a` is a document source and `b` is not, or
/// both are of one class and the name of `a` comes first in byte order.
pub open spec fn strictly_before(a: FileModel, b: FileModel) -> bool {
    (leads(a) && !leads(b)) || (leads(a) == leads(b) && lex_before(name_bytes(a), name_bytes(b)))
}

/// Neither of `a` and `b` has to stand before the other: they are of one
/// class and have the same name.
pub open spec fn ties(a: FileModel, b: FileModel) -> bool {
    leads(a) == leads(b) && a.root_relative_path == b.root_relative_path
}

/// No file stands behind one that it has to stand before.
pub open spec fn ordered(s: Seq<FileModel>) -> bool {
    forall|i: int, j: int| 0 <= i < j < s.len() ==> !strictly_before(s[j], s[i])
}

/// Every document source stands before every other file.
pub open spec fn sources_lead(s: Seq<FileModel>) -> bool {
    forall|i: int, j: int|
        0 <= i < s.len() && 0 <= j < s.len() && leads(s[i]) && !leads(s[j]) ==> i < j
}

/// Among files of one class the names never descend in byte order.
pub open spec fn names_ascend(s: Seq<FileModel>) -> bool {
    forall|i: int, j: int|
        0 <= i < j < s.len() && leads(s[i]) == leads(s[j]) ==> !lex_before(
            name_bytes(s[j]),
            name_bytes(s[i]),
        )
}

/// `output` holds the files of `input`, each exactly once: `origin[i]` is the
/// place in `input` of the file at place `i` in `output`.
pub open spec fn is_arrangement(input: Seq<FileModel>, output: Seq<FileModel>, origin: Seq<int>) -> bool {
    &&& origin.len() == output.len()
    &&& output.len() == input.len()
    &&& forall|i: int|
        0 <= i < origin.len() ==> 0 <= #[trigger] origin[i] < input.len() && output[i]
            == input[origin[i]]
    &&& forall|i: int, j: int| 0 <= i < j < origin.len() ==> origin[i] != origin[j]
}

/// Files that tie stand in `output` as they stood in `input`.
pub open spec fn keeps_ties(output: Seq<FileModel>, origin: Seq<int>) -> bool {
    forall|i: int, j: int|
        0 <= i < j < output.len() && ties(output[i], output[j]) ==> origin[i] < origin[j]
}

/// `output` is `input` sorted: ordered, holding the same files, with ties
/// left in the order of `input`.
pub open spec fn is_stable_sort_of(input: Seq<FileModel>, output: Seq<FileModel>) -> bool {
    &&& ordered(output)
    &&& exists|origin: Seq<int>|
        is_arrangement(input, output, origin) && keeps_ties(output, origin)
}

/// In an ordered sequence every document source stands before every other
/// file, and within one class the names ascend in byte order.
pub proof fn lemma_ordered_classes(s: Seq<FileModel>)
    requires
        ordered(s),
    ensures
        sources_lead(s),
        names_ascend(s),
{
    assert forall|i: int, j: int|
        0 <= i < s.len() && 0 <= j < s.len() && leads(s[i]) && !leads(s[j]) implies i < j by {
        if j < i {
            assert(strictly_before(s[i], s[j]));
        }
    }
    assert forall|i: int, j: int|
        0 <= i < j < s.len() && leads(s[i]) == leads(s[j]) implies !lex_before(
        name_bytes(s[j]),
        name_bytes(s[i]),
    ) by {
        assert(!strictly_before(s[j], s[i]));
    }
}

/// Where two files tie, neither has to stand before the other.
pub proof fn lemma_ties_are_unordered(a: FileModel, b: FileModel)
    requires
        ties(a, b),
    ensures
        !strictly_before(a, b),
        !strictly_before(b, a),
{
    lemma_lex_irreflexive(name_bytes(a));
}

/// If `a` need not stand before `b`, nor `b` before `c`, then `a` need not
/// stand before `c`.
pub proof fn lemma_not_before_chains(a: FileModel, b: FileModel, c: FileModel)
    requires
        !strictly_before(a, b),
        !strictly_before(b, c),
    ensures
        !strictly_before(a, c),
{
    let (x, y, z) = (name_bytes(a), name_bytes(b), name_bytes(c));
    lemma_lex_trichotomy(x, y);
    lemma_lex_trichotomy(y, z);
    lemma_lex_trichotomy(x, z);
    if lex_before(x, z) && lex_before(z, y) {
        lemma_lex_transitive(x, z, y);
    }
    if lex_before(y, x) && lex_before(x, z) {
        lemma_lex_transitive(y, x, z);
    }
}

/// Where neither of two files has to stand before the other, they tie.
pub proof fn lemma_unordered_files_tie(a: FileModel, b: FileModel)
    requires
        !strictly_before(a, b),
        !strictly_before(b, a),
    ensures
        ties(a, b),
{
    lemma_lex_trichotomy(name_bytes(a), name_bytes(b));
    lemma_same_bytes_same_text(a.root_relative_path, b.root_relative_path);
}

/// An arrangement leaves no file of the input out: every place of the input
/// is the origin of some place of the output.
pub proof fn lemma_arrangement_covers(input: Seq<FileModel>, output: Seq<FileModel>, origin: Seq<int>, k: int)
    requires
        is_arrangement(input, output, origin),
        0 <= k < input.len(),
    ensures
        exists|p: int| 0 <= p < origin.len() && origin[p] == k,
{
    let n = input.len() as int;
    let places = set_int_range(0, n);
    lemma_int_range(0, n);
    assert(origin.no_duplicates());
    origin.unique_seq_to_set();
    assert(origin.to_set().subset_of(places)) by {
        assert forall|v: int| origin.to_set().contains(v) implies places.contains(v) by {
            let p = choose|p: int| 0 <= p < origin.len() && origin[p] == v;
            assert(0 <= origin[p] < input.len());
        }
    }
    lemma_len_subset(origin.to_set(), places);
    lemma_subset_equality(origin.to_set(), places);
    assert(places.contains(k));
    assert(origin.to_set().contains(k));
}

proof fn lemma_origins_agree(
    input: Seq<FileModel>,
    a: Seq<FileModel>,
    oa: Seq<int>,
    b: Seq<FileModel>,
    ob: Seq<int>,
    i: int,
)
    requires
        ordered(a),
        ordered(b),
        is_arrangement(input, a, oa),
        is_arrangement(input, b, ob),
        keeps_ties(a, oa),
        keeps_ties(b, ob),
        0 <= i < input.len(),
        forall|j: int| 0 <= j < i ==> oa[j] == ob[j],
    ensures
        oa[i] == ob[i],
{
    let x = oa[i];
    let y = ob[i];
    if x != y {
        lemma_arrangement_covers(input, a, oa, y);
        let p = choose|p: int| 0 <= p < oa.len() && oa[p] == y;
        lemma_arrangement_covers(input, b, ob, x);
        let q = choose|q: int| 0 <= q < ob.len() && ob[q] == x;
        // the places before `i` hold the same files in both, so `y` stands
        // behind `i` in `a`, and `x` behind `i` in `b`
        if p < i {
            assert(ob[p] == y);
        }
        if q < i {
            assert(oa[q] == x);
        }
        assert(i < p && i < q);
        assert(a[i] == input[x] && a[p] == input[y]);
        assert(b[i] == input[y] && b[q] == input[x]);
        assert(!strictly_before(a[p], a[i]));
        assert(!strictly_before(b[q], b[i]));
        lemma_unordered_files_tie(input[x], input[y]);
        lemma_unordered_files_tie(input[y], input[x]);
        assert(oa[i] < oa[p]);
        assert(ob[i] < ob[q]);
    }
}

proof fn lemma_origins_agree_up_to(
    input: Seq<FileModel>,
    a: Seq<FileModel>,
    oa: Seq<int>,
    b: Seq<FileModel>,
    ob: Seq<int>,
    n: int,
)
    requires
        ordered(a),
        ordered(b),
        is_arrangement(input, a, oa),
        is_arrangement(input, b, ob),
        keeps_ties(a, oa),
        keeps_ties(b, ob),
        0 <= n <= input.len(),
    ensures
        forall|j: int| 0 <= j < n ==> oa[j] == ob[j],
    decreases n,
{
    if n > 0 {
        lemma_origins_agree_up_to(input, a, oa, b, ob, n - 1);
        lemma_origins_agree(input, a, oa, b, ob, n - 1);
    }
}

/// The files of an input have one stable sort only: `is_stable_sort_of`
/// determines its result.
pub proof fn lemma_stable_sort_is_unique(input: Seq<FileModel>, a: Seq<FileModel>, b: Seq<FileModel>)
    requires
        is_stable_sort_of(input, a),
        is_stable_sort_of(input, b),
    ensures
        a == b,
{
    let oa = choose|origin: Seq<int>| is_arrangement(input, a, origin) && keeps_ties(a, origin);
    let ob = choose|origin: Seq<int>| is_arrangement(input, b, origin) && keeps_ties(b, origin);
    lemma_origins_agree_up_to(input, a, oa, b, ob, input.len() as int);
    assert forall|i: int| 0 <= i < a.len() implies a[i] == b[i] by {
        assert(a[i] == input[oa[i]]);
        assert(b[i] == input[ob[i]]);
    }
    assert(a =~= b);
}

/// Whether an extension, given in lower case, is that of a document source.
pub fn source_extension(lowered: &str) -> (source: bool)
    ensures
        source == is_source_extension(lowered@),
{
    same_text(lowered, "tex")
}

/// Whether the file at `path` is a document source.
pub fn is_primary_source(path: &str) -> (primary: bool)
    ensures
        primary == is_source_path(path@),
{
    let ext = extension(path);
    let lowered = lowercase(ext.as_str());
    source_extension(lowered.as_str())
}

impl CandidateFile {
    /// The candidate for the file at `absolute`, named relative to `root`;
    /// `given` is the path by which the file was asked for, whose last
    /// component names a file that lies outside `root`.
    pub fn locate(root: &str, absolute: &str, given: &str) -> (file: CandidateFile)
        ensures
            file@.absolute_path == absolute@,
            file@.root_relative_path == relative_name_of(root@, absolute@, given@),
    {
        CandidateFile {
            absolute_path: absolute.to_owned(),
            root_relative_path: relative_name(root, absolute, given),
        }
    }

    /// A copy of this candidate.
    pub fn duplicate(&self) -> (copy: CandidateFile)
        ensures
            copy == *self,
    {
        CandidateFile {
            absolute_path: self.absolute_path.clone(),
            root_relative_path: self.root_relative_path.clone(),
        }
    }

    /// The last component of the path the file is read from.
    pub fn file_name(&self) -> (name: String)
        ensures
            name@ == file_name_of(self@.absolute_path),
    {
        file_name(self.absolute_path.as_str())
    }

    /// Whether this file has to stand before `other`.
    pub fn comes_before(&self, other: &CandidateFile) -> (before: bool)
        ensures
            before == strictly_before(self@, other@),
    {
        let mine = is_primary_source(self.absolute_path.as_str());
        let theirs = is_primary_source(other.absolute_path.as_str());
        if mine != theirs {
            mine
        } else {
            bytes_before(
                self.root_relative_path.as_str().as_bytes(),
                other.root_relative_path.as_str().as_bytes(),
            )
        }
    }
}

/// The files of one run, in the order in which they are handed on: document
/// sources first, then by name in byte order.
#[derive(Debug)]
pub struct FileSet {
    files: Vec<CandidateFile>,
}

impl View for FileSet {
    type V = Seq<FileModel>;

    closed spec fn view(&self) -> Seq<FileModel> {
        self.files.deep_view()
    }
}

impl FileSet {
    #[verifier::type_invariant]
    spec fn in_order(self) -> bool {
        ordered(self.files.deep_view())
    }

    /// The set of the given candidates, sorted; candidates that tie keep the
    /// order in which they were given.
    pub fn new(candidates: Vec<CandidateFile>) -> (set: FileSet)
        ensures
            is_stable_sort_of(candidates.deep_view(), set@),
            sources_lead(set@),
            names_ascend(set@),
    {
        FileSet { files: sort_candidates(candidates) }
    }

    /// The number of files.
    pub fn len(&self) -> (n: usize)
        ensures
            n == self@.len(),
    {
        self.files.len()
    }

    /// The file at place `i`.
    pub fn get(&self, i: usize) -> (file: &CandidateFile)
        requires
            i < self@.len(),
        ensures
            file@ == self@[i as int],
    {
        &self.files[i]
    }

    /// The files in their order.
    pub fn files(&self) -> (files: &Vec<CandidateFile>)
        ensures
            files.deep_view() == self@,
            ordered(self@),
            sources_lead(self@),
            names_ascend(self@),
    {
        proof {
            use_type_invariant(self);
            lemma_ordered_classes(self.files.deep_view());
        }
        &self.files
    }
}

/// A file found on disk: the path it is read from and the path by which it
/// was asked for, both with `/` between their components.
#[derive(Debug, Clone, PartialEq, Eq)]
pub struct FoundFile {
    pub absolute: String,
    pub given: String,
}

/// What a `FoundFile` stands for in contracts.
pub ghost struct FoundModel {
    pub absolute: Seq<char>,
    pub given: Seq<char>,
}

impl View for FoundFile {
    type V = FoundModel;

    open spec fn view(&self) -> FoundModel {
        FoundModel { absolute: self.absolute@, given: self.given@ }
    }
}

impl DeepView for FoundFile {
    type V = FoundModel;

    open spec fn deep_view(&self) -> FoundModel {
        self@
    }
}

/// What became of one path that names a file to take: the file it leads
/// to, or the reason why it leads to none.
#[derive(Debug, Clone, PartialEq, Eq)]
pub enum Probe {
    Found(FoundFile),
    Missing { given: String, reason: String },
}

/// What a `Probe` stands for in contracts.
pub ghost enum ProbeModel {
    Found(FoundModel),
    Missing { given: Seq<char>, reason: Seq<char> },
}

impl View for Probe {
    type V = ProbeModel;

    open spec fn view(&self) -> ProbeModel {
        match self {
            Probe::Found(f) => ProbeModel::Found(f@),
            Probe::Missing { given, reason } => ProbeModel::Missing {
                given: given@,
                reason: reason@,
            },
        }
    }
}

impl DeepView for Probe {
    type V = ProbeModel;

    open spec fn deep_view(&self) -> ProbeModel {
        self@
    }
}

/// The text of the failure for a path that leads to no file.
pub open spec fn missing_text(given: Seq<char>, reason: Seq<char>) -> Seq<char> {
    given + ": "@ + reason
}

/// The files that named paths lead to, in their order, or the failure of the
/// first path that leads to none.
pub open spec fn gathered_of(probes: Seq<ProbeModel>) -> Result<Seq<FoundModel>, PipelineErrorModel>
    decreases probes.len(),
{
    if probes.len() == 0 {
        Ok(Seq::empty())
    } else {
        match probes[0] {
            ProbeModel::Missing { given, reason } => Err(
                PipelineErrorModel::Io { message: missing_text(given, reason) },
            ),
            ProbeModel::Found(f) => match gathered_of(probes.drop_first()) {
                Ok(rest) => Ok(seq![f] + rest),
                Err(e) => Err(e),
            },
        }
    }
}

/// The files that named paths lead to, or an I/O failure where one of the
/// paths leads to none.
pub fn gather(probes: &Vec<Probe>) -> (gathered: Result<Vec<FoundFile>, PipelineError>)
    ensures
        match gathered {
            Ok(found) => gathered_of(probes.deep_view()) == Ok::<
                Seq<FoundModel>,
                PipelineErrorModel,
            >(found.deep_view()),
            Err(e) => gathered_of(probes.deep_view()) == Err::<
                Seq<FoundModel>,
                PipelineErrorModel,
            >(e@),
        },
{
    let ghost all = probes.deep_view();
    let mut found: Vec<FoundFile> = Vec::new();
    let mut i: usize = 0;
    assert(all.skip(0) == all);
    assert(seq_then(found.deep_view(), gathered_of(all.skip(0))) == gathered_of(all)) by {
        lemma_seq_then_empty(gathered_of(all));
    }
    while i < probes.len()
        invariant
            i <= probes.len(),
            all == probes.deep_view(),
            gathered_of(all) == seq_then(found.deep_view(), gathered_of(all.skip(i as int))),
        decreases probes.len() - i,
    {
        let ghost rest = all.skip(i as int);
        let ghost seen = found.deep_view();
        assert(rest[0] == probes[i as int]@);
        assert(rest.drop_first() == all.skip(i + 1));
        match &probes[i] {
            Probe::Missing { given, reason } => {
                let mut message = given.clone();
                message.append(": ");
                message.append(reason.as_str());
                return Err(PipelineError::Io { message });
            },
            Probe::Found(f) => {
                found.push(FoundFile { absolute: f.absolute.clone(), given: f.given.clone() });
                assert(found.deep_view() == seen.push(f@));
                assert(seq_then(seen, gathered_of(rest)) == seq_then(
                    seen.push(f@),
                    gathered_of(all.skip(i + 1)),
                )) by {
                    match gathered_of(all.skip(i + 1)) {
                        Ok(tail) => {
                            assert(seen + (seq![f@] + tail) == seen.push(f@) + tail);
                        },
                        Err(_) => {},
                    }
                }
            },
        }
        i += 1;
    }
    assert(all.skip(probes.len() as int) == Seq::<ProbeModel>::empty());
    assert(found.deep_view() + Seq::<FoundModel>::empty() == found.deep_view());
    Ok(found)
}

spec fn seq_then(
    seen: Seq<FoundModel>,
    rest: Result<Seq<FoundModel>, PipelineErrorModel>,
) -> Result<Seq<FoundModel>, PipelineErrorModel> {
    match rest {
        Ok(tail) => Ok(seen + tail),
        Err(e) => Err(e),
    }
}

proof fn lemma_seq_then_empty(rest: Result<Seq<FoundModel>, PipelineErrorModel>)
    ensures
        seq_then(Seq::empty(), rest) == rest,
{
    match rest {
        Ok(tail) => {
            assert(Seq::<FoundModel>::empty() + tail == tail);
        },
        Err(_) => {},
    }
}

/// The candidate that a found file becomes under `root`.
pub open spec fn candidate_of(root: Seq<char>, found: FoundModel) -> FileModel {
    FileModel {
        absolute_path: found.absolute,
        root_relative_path: relative_name_of(root, found.absolute, found.given),
    }
}

/// The candidates that found files become under `root`, in their order.
pub open spec fn candidates_of(root: Seq<char>, found: Seq<FoundModel>) -> Seq<FileModel> {
    Seq::new(found.len(), |i: int| candidate_of(root, found[i]))
}

/// The file set of a run: every found file named relative to `root`, sorted.
pub fn select(root: &str, found: &Vec<FoundFile>) -> (set: FileSet)
    ensures
        is_stable_sort_of(candidates_of(root@, found.deep_view()), set@),
        sources_lead(set@),
        names_ascend(set@),
{
    let mut candidates: Vec<CandidateFile> = Vec::new();
    let mut i: usize = 0;
    while i < found.len()
        invariant
            i <= found.len(),
            candidates.deep_view() == candidates_of(root@, found.deep_view()).take(i as int),
        decreases found.len() - i,
    {
        let f = &found[i];
        let ghost seen = candidates.deep_view();
        let c = CandidateFile::locate(root, f.absolute.as_str(), f.given.as_str());
        assert(c@ == candidate_of(root@, found.deep_view()[i as int]));
        candidates.push(c);
        assert(candidates.deep_view() == seen.push(c@));
        assert(candidates_of(root@, found.deep_view()).take(i + 1) == candidates_of(
            root@,
            found.deep_view(),
        ).take(i as int).push(c@));
        i += 1;
    }
    assert(candidates.deep_view() == candidates_of(root@, found.deep_view()));
    FileSet::new(candidates)
}

/// Names of directories that a scan does not enter: the dependency cache
/// `node_modules` and everything that begins with a dot.
pub open spec fn is_skipped_directory(name: Seq<char>) -> bool {
    name == "node_modules"@ || (name.len() > 0 && name[0] == '.')
}

/// What a scan does with one entry of a directory.
#[derive(Debug, Clone, Copy, PartialEq, Eq, Structural)]
pub enum EntryAction {
    /// Scan the directory.
    Descend,
    /// Take the file as a candidate.
    Collect,
    /// Pass over the directory.
    Skip,
}

/// What a scan does with the entry at `path`.
pub open spec fn entry_action_of(path: Seq<char>, is_directory: bool) -> EntryAction {
    if !is_directory {
        EntryAction::Collect
    } else if is_skipped_directory(file_name_of(path)) {
        EntryAction::Skip
    } else {
        EntryAction::Descend
    }
}

/// What a scan does with the entry at `path`.
pub fn entry_action(path: &str, is_directory: bool) -> (action: EntryAction)
    ensures
        action == entry_action_of(path@, is_directory),
{
    if !is_directory {
        return EntryAction::Collect;
    }
    let name = file_name(path);
    let chars = chars_of(name.as_str());
    if same_text(name.as_str(), "node_modules") || (chars.len() > 0 && chars[0] == '.') {
        EntryAction::Skip
    } else {
        EntryAction::Descend
    }
}

/// The first place in `sorted` whose file does not have to stand before `x`.
fn insertion_point(sorted: &Vec<CandidateFile>, x: &CandidateFile) -> (p: usize)
    ensures
        p <= sorted.len(),
        forall|j: int| 0 <= j < p ==> strictly_before(#[trigger] sorted@[j]@, x@),
        p < sorted.len() ==> !strictly_before(sorted@[p as int]@, x@),
{
    let mut p: usize = 0;
    while p < sorted.len() && sorted[p].comes_before(x)
        invariant
            p <= sorted.len(),
            forall|j: int| 0 <= j < p ==> strictly_before(#[trigger] sorted@[j]@, x@),
        decreases sorted.len() - p,
    {
        p += 1;
    }
    p
}

/// Sorts candidates: document sources first, then by name in byte order; files
/// that tie keep the order in which they came.
pub fn sort_candidates(files: Vec<CandidateFile>) -> (sorted: Vec<CandidateFile>)
    ensures
        is_stable_sort_of(files.deep_view(), sorted.deep_view()),
        sources_lead(sorted.deep_view()),
        names_ascend(sorted.deep_view()),
{
    let ghost input = files.deep_view();
    let mut rest = files;
    let mut sorted: Vec<CandidateFile> = Vec::new();
    let ghost mut origin: Seq<int> = Seq::empty();
    while rest.len() > 0
        invariant
            rest.deep_view() == input.take(rest.len() as int),
            rest.len() <= input.len(),
            sorted.len() + rest.len() == input.len(),
            origin.len() == sorted.len(),
            ordered(sorted.deep_view()),
            keeps_ties(sorted.deep_view(), origin),
            forall|i: int|
                0 <= i < origin.len() ==> rest.len() <= #[trigger] origin[i] < input.len()
                    && sorted.deep_view()[i] == input[origin[i]],
            forall|i: int, j: int| 0 <= i < j < origin.len() ==> origin[i] != origin[j],
        decreases rest.len(),
    {
        let ghost before = sorted.deep_view();
        let ghost old_origin = origin;
        let ghost m = rest.len() as int;
        let x = rest.pop().unwrap();
        assert(x@ == input[m - 1]) by {
            assert(input.take(m)[m - 1] == input[m - 1]);
        }
        assert(rest.deep_view() == input.take(m - 1));
        let p = insertion_point(&sorted, &x);
        sorted.insert(p, x);
        proof {
            origin = old_origin.insert(p as int, m - 1);
            let after = sorted.deep_view();
            assert(after == before.insert(p as int, x@));
            assert forall|i: int, j: int| 0 <= i < j < after.len() implies !strictly_before(
                after[j],
                after[i],
            ) by {
                if j == p {
                    // after[i] stands before x, so x does not stand before it
                    assert(strictly_before(before[i], x@));
                    lemma_lex_trichotomy(name_bytes(x@), name_bytes(before[i]));
                } else if i == p {
                    // x <= before[p] <= before[j - 1]
                    if j - 1 > p {
                        lemma_not_before_chains(before[j - 1], before[p as int], x@);
                    }
                } else if i < p && p < j {
                    assert(after[i] == before[i]);
                    assert(after[j] == before[j - 1]);
                } else if j < p {
                    assert(after[i] == before[i]);
                    assert(after[j] == before[j]);
                } else {
                    assert(after[i] == before[i - 1]);
                    assert(after[j] == before[j - 1]);
                }
            }
            assert forall|i: int, j: int|
                0 <= i < j < after.len() && ties(after[i], after[j]) implies origin[i]
                < origin[j] by {
                if j == p {
                    assert(strictly_before(before[i], x@));
                    lemma_ties_are_unordered(before[i], x@);
                } else if i == p {
                    assert(origin[j] == old_origin[j - 1]);
                } else if i < p && p < j {
                    assert(after[i] == before[i]);
                    assert(after[j] == before[j - 1]);
                    assert(origin[i] == old_origin[i]);
                    assert(origin[j] == old_origin[j - 1]);
                } else if j < p {
                    assert(after[i] == before[i]);
                    assert(after[j] == before[j]);
                } else {
                    assert(after[i] == before[i - 1]);
                    assert(after[j] == before[j - 1]);
                    assert(origin[i] == old_origin[i - 1]);
                    assert(origin[j] == old_origin[j - 1]);
                }
            }
            assert forall|i: int| 0 <= i < origin.len() implies rest.len() <= #[trigger] origin[i]
                < input.len() && after[i] == input[origin[i]] by {
                if i < p {
                    assert(origin[i] == old_origin[i]);
                    assert(after[i] == before[i]);
                } else if i > p {
                    assert(origin[i] == old_origin[i - 1]);
                    assert(after[i] == before[i - 1]);
                }
            }
            assert forall|i: int, j: int| 0 <= i < j < origin.len() implies origin[i]
                != origin[j] by {
                if i != p && j != p {
                    let a = if i < p { i } else { i - 1 };
                    let b = if j < p { j } else { j - 1 };
                    assert(origin[i] == old_origin[a]);
                    assert(origin[j] == old_origin[b]);
                } else if i == p {
                    assert(origin[j] == old_origin[j - 1]);
                } else {
                    assert(origin[i] == old_origin[i]);
                }
            }
        }
    }
    proof {
        assert(is_arrangement(input, sorted.deep_view(), origin));
        lemma_ordered_classes(sorted.deep_view());
    }
    sorted
}

} // verus!
