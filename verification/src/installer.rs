//! The per-user installation directory: where it lies, how a layout left by
//! an incompatible earlier installation is recognised, and which version
//! directories are out of date.

use vstd::prelude::*;
use vstd::string::*;
use crate::paths::{join, join_of};
use crate::text::same_text;

verus! {

/// The user's home directory, if one is known.
///
/// Trusted: the body is `dirs::home_dir`, which reads the environment and the
/// user database, so the contract claims nothing of what comes back. The path
/// is handed on as text.
#[verifier::external_body]
fn home_dir() -> (home: Option<String>) {
    dirs::home_dir().map(|p| p.to_string_lossy().into_owned())
}

/// The installation directory for a user whose home directory is `home`;
/// without a home directory it lies in the working directory.
pub open spec fn qtex_dir_of(home: Option<Seq<char>>) -> Seq<char> {
    join_of(
        match home {
            Some(h) => h,
            None => "."@,
        },
        ".qtex"@,
    )
}

/// The directory that holds one sub-directory per installed version.
pub open spec fn versions_dir_of(qtex_dir: Seq<char>) -> Seq<char> {
    join_of(qtex_dir, "versions"@)
}

/// The installation directory for a user whose home directory is `home`.
pub fn qtex_dir_under(home: &Option<String>) -> (dir: String)
    ensures
        dir@ == qtex_dir_of(home.deep_view()),
{
    match home {
        Some(h) => join(h.as_str(), ".qtex"),
        None => join(".", ".qtex"),
    }
}

/// The versions directory of the installation directory `qtex_dir`.
pub fn versions_dir_under(qtex_dir: &str) -> (dir: String)
    ensures
        dir@ == versions_dir_of(qtex_dir@),
{
    join(qtex_dir, "versions")
}

/// The installation directory of the current user.
pub fn get_qtex_dir() -> (dir: String)
    ensures
        exists|home: Option<Seq<char>>| dir@ == qtex_dir_of(home),
{
    let home = home_dir();
    qtex_dir_under(&home)
}

/// The versions directory of the current user.
pub fn get_versions_dir() -> (dir: String)
    ensures
        exists|home: Option<Seq<char>>| dir@ == versions_dir_of(qtex_dir_of(home)),
{
    let qtex_dir = get_qtex_dir();
    versions_dir_under(qtex_dir.as_str())
}

/// The paths whose presence marks the layout of an incompatible earlier
/// installation.
pub open spec fn legacy_markers_of(qtex_dir: Seq<char>) -> Seq<Seq<char>> {
    seq![
        join_of(qtex_dir, "runtime"@),
        join_of(qtex_dir, "package.json"@),
        join_of(qtex_dir, "index.js"@),
    ]
}

/// The paths to probe for an incompatible earlier installation.
pub fn legacy_markers(qtex_dir: &str) -> (markers: Vec<String>)
    ensures
        markers.deep_view() == legacy_markers_of(qtex_dir@),
{
    let mut markers: Vec<String> = Vec::new();
    markers.push(join(qtex_dir, "runtime"));
    markers.push(join(qtex_dir, "package.json"));
    markers.push(join(qtex_dir, "index.js"));
    assert(markers.deep_view() =~= legacy_markers_of(qtex_dir@));
    markers
}

/// What is to be done on disk before a version is used.
#[derive(Debug, Clone, PartialEq, Eq)]
pub struct SetupPlan {
    /// The directory to remove with all it holds, where an earlier layout
    /// was found.
    pub wipe: Option<String>,
    /// The versions directory, to be created if missing.
    pub versions_dir: String,
    /// The directory of the version in use, to be created if missing.
    pub version_dir: String,
}

/// What a `SetupPlan` stands for in contracts.
pub ghost struct SetupPlanModel {
    pub wipe: Option<Seq<char>>,
    pub versions_dir: Seq<char>,
    pub version_dir: Seq<char>,
}

impl View for SetupPlan {
    type V = SetupPlanModel;

    open spec fn view(&self) -> SetupPlanModel {
        SetupPlanModel {
            wipe: self.wipe.deep_view(),
            versions_dir: self.versions_dir@,
            version_dir: self.version_dir@,
        }
    }
}

/// The plan for the installation directory `qtex_dir`, where `found` says
/// of each probed marker whether it is there: any marker has the whole
/// directory removed first.
pub open spec fn setup_plan_of(version: Seq<char>, qtex_dir: Seq<char>, found: Seq<bool>) -> SetupPlanModel {
    SetupPlanModel {
        wipe: if found.contains(true) {
            Some(qtex_dir)
        } else {
            None
        },
        versions_dir: versions_dir_of(qtex_dir),
        version_dir: join_of(versions_dir_of(qtex_dir), version),
    }
}

/// Plans the set-up of `version` in the installation directory `qtex_dir`.
pub fn setup_installation(version: &str, qtex_dir: &str, found: &Vec<bool>) -> (plan: SetupPlan)
    ensures
        plan@ == setup_plan_of(version@, qtex_dir@, found@),
{
    let mut legacy = false;
    let mut i: usize = 0;
    while i < found.len()
        invariant
            i <= found.len(),
            legacy == found@.take(i as int).contains(true),
        decreases found.len() - i,
    {
        let ghost seen = found@.take(i as int);
        assert(found@.take(i + 1) == seen.push(found@[i as int]));
        proof {
            if seen.contains(true) {
                let k = choose|k: int| 0 <= k < seen.len() && seen[k] == true;
                assert(seen.push(found@[i as int])[k] == true);
            }
            if found@[i as int] {
                assert(seen.push(found@[i as int])[i as int] == true);
            }
        }
        if found[i] {
            legacy = true;
        }
        i += 1;
    }
    assert(found@.take(found.len() as int) == found@);
    let versions_dir = versions_dir_under(qtex_dir);
    let version_dir = join(versions_dir.as_str(), version);
    SetupPlan {
        wipe: if legacy {
            Some(qtex_dir.to_owned())
        } else {
            None
        },
        versions_dir,
        version_dir,
    }
}

/// Whether `semver::Version::parse` takes a text as a version.
pub uninterp spec fn semver_parses(text: Seq<char>) -> bool;

/// Whether, of two texts that `semver::Version::parse` takes, the version of
/// the first is less than that of the second.
pub uninterp spec fn semver_precedes(a: Seq<char>, b: Seq<char>) -> bool;

/// Whether `text` is a semantic version.
///
/// Trusted: the body is `semver::Version::parse`, of which only success or
/// failure is kept. The result depends on the text alone; the contract gives
/// it the name `semver_parses`.
#[verifier::external_body]
fn is_version(text: &str) -> (ok: bool)
    ensures
        ok == semver_parses(text@),
{
    semver::Version::parse(text).is_ok()
}

/// Whether the version `a` is less than the version `b`.
///
/// Trusted: the body parses both texts with `semver::Version::parse` and
/// compares the versions with `<`, the order that `semver::Version` derives
/// over major, minor, patch, pre-release and build metadata. The result
/// depends on the two texts alone; the contract gives it the name
/// `semver_precedes`.
#[verifier::external_body]
fn version_precedes(a: &str, b: &str) -> (less: bool)
    requires
        semver_parses(a@),
        semver_parses(b@),
    ensures
        less == semver_precedes(a@, b@),
{
    match (semver::Version::parse(a), semver::Version::parse(b)) {
        (Ok(x), Ok(y)) => x < y,
        _ => false,
    }
}

/// Whether a version directory is out of date, given what is known of its
/// name and of the version in use. Only a directory named by a version can
/// be: it is where its version is less than the one in use, or, where the
/// one in use is no version, where its name is another.
pub open spec fn stale_of(name_is_version: bool, current_is_version: bool, name_precedes: bool, same_name: bool) -> bool {
    name_is_version && (if current_is_version {
        name_precedes
    } else {
        !same_name
    })
}

/// Whether a version directory is out of date, given what is known of its
/// name and of the version in use.
pub fn stale(name_is_version: bool, current_is_version: bool, name_precedes: bool, same_name: bool) -> (out_of_date: bool)
    ensures
        out_of_date == stale_of(name_is_version, current_is_version, name_precedes, same_name),
{
    name_is_version && (if current_is_version {
        name_precedes
    } else {
        !same_name
    })
}

/// Whether the version directory `name` is out of date when `current` is in
/// use.
pub open spec fn is_stale_version(current: Seq<char>) -> spec_fn(Seq<char>) -> bool {
    |name: Seq<char>|
        stale_of(
            semver_parses(name),
            semver_parses(current),
            semver_precedes(name, current),
            name == current,
        )
}

/// Whether the version directory `name` is out of date when `current` is in
/// use.
pub fn is_stale(name: &str, current: &str) -> (out_of_date: bool)
    ensures
        out_of_date == is_stale_version(current@)(name@),
{
    let name_is_version = is_version(name);
    let current_is_version = is_version(current);
    let name_precedes = name_is_version && current_is_version && version_precedes(name, current);
    stale(name_is_version, current_is_version, name_precedes, same_text(name, current))
}

/// The version directories to remove, of those installed, when `current` is
/// in use; they keep their order.
pub fn cleanup_old_versions(current: &str, installed: &Vec<String>) -> (stale: Vec<String>)
    ensures
        stale.deep_view() == installed.deep_view().filter(is_stale_version(current@)),
{
    let mut stale: Vec<String> = Vec::new();
    let mut i: usize = 0;
    while i < installed.len()
        invariant
            i <= installed.len(),
            stale.deep_view() == installed.deep_view().take(i as int).filter(
                is_stale_version(current@),
            ),
        decreases installed.len() - i,
    {
        let ghost seen = stale.deep_view();
        proof {
            reveal(Seq::filter);
            assert(installed.deep_view().take(i + 1).drop_last() == installed.deep_view().take(
                i as int,
            ));
            assert(installed.deep_view().take(i + 1).last() == installed[i as int]@);
        }
        if is_stale(installed[i].as_str(), current) {
            stale.push(installed[i].clone());
            assert(stale.deep_view() == seen.push(installed[i as int]@));
        }
        i += 1;
    }
    assert(installed.deep_view().take(installed.len() as int) == installed.deep_view());
    stale
}

} // verus!
