//! What the paths on the command line ask for: a directory to scan, or
//! files to take.

use vstd::prelude::*;
use vstd::string::*;

verus! {

/// What a path on the command line points at.
#[derive(Debug, Clone, Copy, PartialEq, Eq, Structural)]
pub enum PathKind {
    Directory,
    File,
    /// Nothing, or something that is neither.
    Other,
}

/// One path of the command line, with `/` between its components, and
/// what the file system says of it.
#[derive(Debug, Clone, PartialEq, Eq)]
pub struct GivenPath {
    pub path: String,
    pub kind: PathKind,
    /// The directory that holds the path, where it has one.
    pub parent: Option<String>,
}

/// What a `GivenPath` stands for in contracts.
pub ghost struct GivenPathModel {
    pub path: Seq<char>,
    pub kind: PathKind,
    pub parent: Option<Seq<char>>,
}

impl View for GivenPath {
    type V = GivenPathModel;

    open spec fn view(&self) -> GivenPathModel {
        GivenPathModel { path: self.path@, kind: self.kind, parent: self.parent.deep_view() }
    }
}

impl DeepView for GivenPath {
    type V = GivenPathModel;

    open spec fn deep_view(&self) -> GivenPathModel {
        self@
    }
}

/// The directory of a run and the files to take; with no files, the
/// directory is scanned.
#[derive(Debug, Clone, PartialEq, Eq)]
pub struct Target {
    pub directory: String,
    pub explicit_files: Vec<String>,
}

/// What a `Target` stands for in contracts.
pub ghost struct TargetModel {
    pub directory: Seq<char>,
    pub explicit_files: Seq<Seq<char>>,
}

impl View for Target {
    type V = TargetModel;

    open spec fn view(&self) -> TargetModel {
        TargetModel {
            directory: self.directory@,
            explicit_files: self.explicit_files.deep_view(),
        }
    }
}

/// The paths that point at files.
pub open spec fn is_file() -> spec_fn(GivenPathModel) -> bool {
    |g: GivenPathModel| g.kind == PathKind::File
}

/// The given files, in their order.
pub open spec fn files_of(given: Seq<GivenPathModel>) -> Seq<Seq<char>> {
    given.filter(is_file()).map_values(|g: GivenPathModel| g.path)
}

/// The directory of a run on given files: the one that holds the first of
/// them, or the working directory where there is none.
pub open spec fn directory_of(given: Seq<GivenPathModel>) -> Seq<char> {
    let files = given.filter(is_file());
    if files.len() > 0 && files[0].parent is Some {
        files[0].parent.unwrap()
    } else {
        "."@
    }
}

/// What the given paths ask for. No path means the working directory. A
/// single directory is scanned. Anything else names files: those that are
/// files are taken, and the directory is that of the first.
pub open spec fn target_of(given: Seq<GivenPathModel>) -> TargetModel {
    if given.len() == 0 {
        TargetModel { directory: "."@, explicit_files: Seq::empty() }
    } else if given.len() == 1 && given[0].kind == PathKind::Directory {
        TargetModel { directory: given[0].path, explicit_files: Seq::empty() }
    } else {
        TargetModel { directory: directory_of(given), explicit_files: files_of(given) }
    }
}

/// What the given paths ask for.
pub fn resolve_target(given: &Vec<GivenPath>) -> (target: Target)
    ensures
        target@ == target_of(given.deep_view()),
{
    if given.len() == 0 {
        let target = Target { directory: ".".to_owned(), explicit_files: Vec::new() };
        assert(target@.explicit_files =~= Seq::empty());
        return target;
    }
    if given.len() == 1 {
        match given[0].kind {
            PathKind::Directory => {
                let target = Target { directory: given[0].path.clone(), explicit_files: Vec::new() };
                assert(target@.explicit_files =~= Seq::empty());
                return target;
            },
            _ => {},
        }
    }
    let mut files: Vec<String> = Vec::new();
    let mut directory: Option<String> = None;
    let mut i: usize = 0;
    while i < given.len()
        invariant
            i <= given.len(),
            files.deep_view() == files_of(given.deep_view().take(i as int)),
            directory.deep_view() == (if files_of(given.deep_view().take(i as int)).len() > 0 {
                Some(directory_of(given.deep_view().take(i as int)))
            } else {
                None
            }),
        decreases given.len() - i,
    {
        let ghost seen = given.deep_view().take(i as int);
        let ghost next = given.deep_view().take(i + 1);
        let ghost seen_files = files.deep_view();
        proof {
            reveal(Seq::filter);
            assert(next.drop_last() == seen);
            assert(next.last() == given[i as int]@);
        }
        match given[i].kind {
            PathKind::File => {
                if files.len() == 0 {
                    directory = match &given[i].parent {
                        Some(p) => Some(p.clone()),
                        None => Some(".".to_owned()),
                    };
                }
                files.push(given[i].path.clone());
                assert(files.deep_view() == seen_files.push(given[i as int]@.path));
                assert(next.filter(is_file()) == seen.filter(is_file()).push(given[i as int]@));
                assert(files_of(next) == files_of(seen).push(given[i as int]@.path));
            },
            _ => {
                assert(next.filter(is_file()) == seen.filter(is_file()));
            },
        }
        i += 1;
    }
    assert(given.deep_view().take(given.len() as int) == given.deep_view());
    let directory = match directory {
        Some(d) => d,
        None => ".".to_owned(),
    };
    Target { directory, explicit_files: files }
}

/// Whether the artifact of a single run is opened in a viewer: not after a
/// run that only validates, not when reporting in machine-readable form,
/// and not when the caller declined.
pub fn opens_artifact(verify: bool, json: bool, no_open: bool) -> (open: bool)
    ensures
        open == (!verify && !json && !no_open),
{
    !verify && !json && !no_open
}

} // verus!
