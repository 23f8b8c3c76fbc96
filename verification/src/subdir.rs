//! A short account of the repository in one directory.
//!
//! This is for a listing that shows, beside a directory, whether a
//! repository sits right there, whether it is clean, and which branch it is
//! on. Nothing is kept between two such questions.

use crate::backend;
use crate::path::{reorient, GitPath, Resolution};
use crate::status::{StatusFlags, IGNORED};
use vstd::prelude::*;
use vstd::string::{StrSliceExecFns, StringExecFns};

verus! {

/// Whether a directory holds a repository, and in what state.
#[derive(Clone, Copy, Debug, PartialEq, Eq, Structural)]
pub enum SubdirGitRepoStatus {
    /// No repository there.
    NoRepo,
    /// A repository in which nothing but ignored paths shows up.
    GitClean,
    /// A repository in which something shows up that is not just ignored.
    GitDirty,
}

/// What is shown beside a directory that may hold a repository.
#[derive(Debug)]
pub struct SubdirGitRepo {
    /// The state of the repository, where it was asked for.
    pub status: Option<SubdirGitRepoStatus>,
    /// The branch that the repository is on, shortened for display.
    pub branch: Option<String>,
}

/// Why a repository could not say what its `HEAD` is.
#[derive(Clone, Copy, Debug, PartialEq, Eq, Structural)]
pub enum HeadError {
    /// The branch has no commit yet.
    UnbornBranch,
    /// There is nothing that `HEAD` points to.
    NotFound,
    /// Anything else.
    Other,
}

/// The account of a directory, and what went wrong while it was made. A
/// caller that keeps a log finds here what to write into it.
#[derive(Debug)]
pub struct Survey {
    /// The account.
    pub account: SubdirGitRepo,
    /// The repository could not say what its `HEAD` is, for another reason
    /// than that there is none yet.
    pub branch_failed: bool,
    /// The repository could not give the statuses of its paths.
    pub scan_failed: bool,
}

/// The longest branch name that is shown in full.
pub const BRANCH_FULL_LEN: usize = 10;

/// How much of a longer branch name is shown.
pub const BRANCH_KEPT_LEN: usize = 8;

/// What stands for the rest of a branch name that was cut.
pub open spec fn ellipsis() -> Seq<char> {
    seq!['.', '.']
}

/// A branch name as it is shown: in full up to ten characters, else its
/// first eight characters and two dots.
pub open spec fn short_name(name: Seq<char>) -> Seq<char> {
    if name.len() > BRANCH_FULL_LEN {
        name.take(BRANCH_KEPT_LEN as int) + ellipsis()
    } else {
        name
    }
}

/// Whether `shown` is some branch name as it is shown.
pub open spec fn is_short_name(shown: Seq<char>) -> bool {
    exists|name: Seq<char>| shown == #[trigger] short_name(name)
}

/// Whether one of the statuses is more than just ignored.
pub open spec fn any_change(found: Seq<u32>) -> bool {
    exists|i: int| 0 <= i < found.len() && #[trigger] found[i] != IGNORED
}

/// The bits of each status of a scan.
pub open spec fn flags_view(found: Vec<(GitPath, StatusFlags)>) -> Seq<u32> {
    Seq::new(found@.len(), |i: int| found@[i].1.bits)
}

/// The account of a directory without repository: the state says so where
/// a state was asked for, and there is no branch.
pub open spec fn absent(status: bool) -> (Option<SubdirGitRepoStatus>, Option<Seq<char>>) {
    (
        if status {
            Some(SubdirGitRepoStatus::NoRepo)
        } else {
            None
        },
        None,
    )
}

/// The account of a repository after a scan of it: dirty or clean with its
/// branch; where the scan failed, the account of a directory without
/// repository.
pub open spec fn scanned_account(branch: Option<Seq<char>>, scan: Option<Seq<u32>>) -> (
    Option<SubdirGitRepoStatus>,
    Option<Seq<char>>,
) {
    match scan {
        Some(found) => (
            Some(
                if any_change(found) {
                    SubdirGitRepoStatus::GitDirty
                } else {
                    SubdirGitRepoStatus::GitClean
                },
            ),
            branch,
        ),
        None => absent(true),
    }
}

/// The text of a name that may be missing.
pub open spec fn text_of(name: Option<String>) -> Option<Seq<char>> {
    match name {
        Some(text) => Some(text@),
        None => None,
    }
}

impl View for SubdirGitRepo {
    type V = (Option<SubdirGitRepoStatus>, Option<Seq<char>>);

    open spec fn view(&self) -> (Option<SubdirGitRepoStatus>, Option<Seq<char>>) {
        (self.status, text_of(self.branch))
    }
}

/// Shortens a branch name for display.
pub fn shorten(name: &str) -> (r: String)
    ensures
        r@ == short_name(name@),
{
    if name.unicode_len() > BRANCH_FULL_LEN {
        proof {
            reveal_strlit("..");
            assert(".."@ =~= ellipsis());
        }
        let kept = name.substring_char(0, BRANCH_KEPT_LEN);
        let r = String::from_str(kept).concat("..");
        assert(r@ =~= name@.take(BRANCH_KEPT_LEN as int) + ellipsis());
        r
    } else {
        String::from_str(name)
    }
}

/// The branch to show for what a repository said of its `HEAD`: the short
/// name of the reference, shortened for display. There is none where the
/// repository has no `HEAD` to resolve, as on a branch without commits,
/// where it failed otherwise, or where the name is not text.
pub fn branch_from(head: Result<Option<String>, git2::Error>) -> (r: Option<String>)
    ensures
        text_of(r) == match head {
            Ok(Some(name)) => Some(short_name(name@)),
            _ => None,
        },
{
    match head {
        Ok(Some(name)) => Some(shorten(name.as_str())),
        _ => None,
    }
}

/// Whether a repository that cannot say what its `HEAD` is has failed. It
/// has not where there is no `HEAD` yet: that is a repository without a
/// branch.
pub fn is_head_failure(kind: HeadError) -> (r: bool)
    ensures
        r == (kind == HeadError::Other),
{
    match kind {
        HeadError::UnbornBranch => false,
        HeadError::NotFound => false,
        HeadError::Other => true,
    }
}

/// The branch that the repository is on, shortened for display, and whether
/// the repository failed to say what its `HEAD` is. Where it failed there is
/// no branch.
pub fn look_up_branch(repo: &git2::Repository) -> (r: (Option<String>, bool))
    ensures
        r.0 matches Some(shown) ==> is_short_name(shown@),
        r.1 ==> r.0 is None,
{
    match backend::head_shorthand(repo) {
        Ok(name) => {
            let ghost said = name;
            let r = branch_from(Ok(name));
            proof {
                if let Some(given) = said {
                    assert(text_of(r) == Some(short_name(given@)));
                }
            }
            (r, false)
        },
        Err(e) => {
            let failed = is_head_failure(backend::head_error(&e));
            (branch_from(Err(e)), failed)
        },
    }
}

/// The branch that the repository is on, shortened for display.
pub fn current_branch(repo: &git2::Repository) -> (r: Option<String>)
    ensures
        r matches Some(shown) ==> is_short_name(shown@),
{
    look_up_branch(repo).0
}

/// Whether one of the statuses that a scan found is more than just ignored.
pub fn has_changes(found: &Vec<(GitPath, StatusFlags)>) -> (r: bool)
    ensures
        r == any_change(flags_view(*found)),
{
    let mut i: usize = 0;
    while i < found.len()
        invariant
            i <= found.len(),
            forall|k: int| 0 <= k < i ==> #[trigger] flags_view(*found)[k] == IGNORED,
        decreases found.len() - i,
    {
        if !found[i].1.is_only_ignored() {
            assert(flags_view(*found)[i as int] != IGNORED);
            return true;
        }
        i += 1;
    }
    false
}

impl SubdirGitRepo {
    /// The account of a directory without repository.
    pub fn without_repo(status: bool) -> (r: SubdirGitRepo)
        ensures
            r@ == absent(status),
    {
        SubdirGitRepo {
            status: if status {
                Some(SubdirGitRepoStatus::NoRepo)
            } else {
                None
            },
            branch: None,
        }
    }

    /// The account of a repository on the given branch of which no state
    /// was asked for.
    pub fn on_branch(branch: Option<String>) -> (r: SubdirGitRepo)
        ensures
            r@ == (None::<SubdirGitRepoStatus>, text_of(branch)),
    {
        SubdirGitRepo { status: None, branch }
    }

    /// The account of a repository on the given branch, from what a scan of
    /// it returned.
    pub fn from_scan(
        branch: Option<String>,
        scanned: Result<Vec<(GitPath, StatusFlags)>, git2::Error>,
    ) -> (r: SubdirGitRepo)
        ensures
            r@ == scanned_account(
                text_of(branch),
                match scanned {
                    Ok(found) => Some(flags_view(found)),
                    Err(_) => None,
                },
            ),
    {
        match scanned {
            Ok(found) => {
                let state = if has_changes(&found) {
                    SubdirGitRepoStatus::GitDirty
                } else {
                    SubdirGitRepoStatus::GitClean
                };
                SubdirGitRepo { status: Some(state), branch }
            },
            Err(_) => SubdirGitRepo::without_repo(true),
        }
    }

    /// The account of the directory `dir`: of the repository that sits
    /// exactly there, with its branch and, if `status` is set, its state;
    /// and with it what went wrong on the way.
    ///
    /// Whatever is found there, a state is given exactly when it was asked
    /// for, a directory without repository has no branch, and a branch is
    /// shortened for display. A repository that cannot be scanned counts as
    /// none, and one that fails to say what its `HEAD` is has no branch.
    pub fn survey(dir: &GitPath, status: bool, fs: &Resolution) -> (r: Survey)
        ensures
            r.account.status is Some <==> status,
            r.account.status == Some(SubdirGitRepoStatus::NoRepo) ==> r.account.branch is None,
            r.account.branch matches Some(shown) ==> is_short_name(shown@),
            r.scan_failed ==> status && r.account@ == absent(true),
            r.branch_failed ==> r.account.branch is None,
    {
        let path = reorient(dir, fs);
        match backend::open(&path) {
            Ok(repo) => {
                let (branch, branch_failed) = look_up_branch(&repo);
                if !status {
                    let account = SubdirGitRepo::on_branch(branch);
                    return Survey { account, branch_failed, scan_failed: false };
                }
                let scanned = backend::statuses(&repo);
                let scan_failed = scanned.is_err();
                let account = SubdirGitRepo::from_scan(branch, scanned);
                Survey { account, branch_failed, scan_failed }
            },
            Err(_) => Survey {
                account: SubdirGitRepo::without_repo(status),
                branch_failed: false,
                scan_failed: false,
            },
        }
    }

    /// The account of the directory `dir`: of the repository that sits
    /// exactly there, with its branch and, if `status` is set, its state.
    ///
    /// Whatever is found there, a state is given exactly when it was asked
    /// for, a directory without repository has no branch, and a branch is
    /// shortened for display.
    pub fn from_path(dir: &GitPath, status: bool, fs: &Resolution) -> (r: SubdirGitRepo)
        ensures
            r.status is Some <==> status,
            r.status == Some(SubdirGitRepoStatus::NoRepo) ==> r.branch is None,
            r.branch matches Some(shown) ==> is_short_name(shown@),
    {
        SubdirGitRepo::survey(dir, status, fs).account
    }
}

} // verus!
