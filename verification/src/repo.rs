//! One repository that a listing touches.
//!
//! A repository is found from a path and is known by its working directory.
//! It keeps the paths from which it was found, and two results that are
//! costly to get and therefore asked for at most once: the statuses of its
//! paths and the places of its submodules. Each of the two starts out
//! unknown, is filled by the first query that needs it, and stays as it is
//! from then on.
//!
//! The functions here take the repository by `&mut`: a caller that shares one
//! between threads keeps it behind a lock of its own.

use crate::backend;
use crate::gitmodules::section_names;
use crate::index::{indexed, scan_view, status_in, Entry, GitStatuses};
use crate::path::{is_under, reoriented, GitPath, PathNames, Resolution};
use crate::status::Git;
use vstd::prelude::*;

verus! {

/// Open the path itself and do not look for a repository above it.
pub const OPEN_NO_SEARCH: u32 = 0x01;

/// Take the path as it is, without looking for `.git` in it.
pub const OPEN_NO_DOTGIT: u32 = 0x08;

/// Look for the repository as `git` does, from the path upwards and with
/// regard to the environment.
pub const OPEN_FROM_ENV: u32 = 0x10;

/// The places of the submodules of a repository, as far as they are known.
#[derive(Debug)]
pub enum SubmodulePaths {
    /// Not asked for yet.
    Unknown,
    /// Asked for, and the repository could not list them.
    Failed,
    /// The path of each submodule, from the root of the repository.
    Known(Vec<GitPath>),
}

/// The model of [`SubmodulePaths`].
pub enum SubmodulesView {
    Unknown,
    Failed,
    Known(Seq<PathNames>),
}

/// The names of each path of a list.
pub open spec fn paths_view(paths: Vec<GitPath>) -> Seq<PathNames> {
    Seq::new(paths@.len(), |i: int| paths@[i]@)
}

impl View for SubmodulePaths {
    type V = SubmodulesView;

    open spec fn view(&self) -> SubmodulesView {
        match self {
            SubmodulePaths::Unknown => SubmodulesView::Unknown,
            SubmodulePaths::Failed => SubmodulesView::Failed,
            SubmodulePaths::Known(paths) => SubmodulesView::Known(paths_view(*paths)),
        }
    }
}

/// Whether `path` is at or below one of `bases`.
pub open spec fn under_any(path: PathNames, bases: Seq<PathNames>) -> bool {
    exists|i: int| 0 <= i < bases.len() && is_under(path, #[trigger] bases[i])
}

/// Whether `path`, read from `base`, is at or below a submodule: `path` is
/// at or below `base`, and what is left of it below `base` is at or below
/// one of `submodules`.
pub open spec fn in_submodule_from(
    submodules: Seq<PathNames>,
    path: PathNames,
    base: PathNames,
) -> bool {
    is_under(path, base) && under_any(path.skip(base.len() as int), submodules)
}

/// Whether `path` is at or below a submodule, read from the path from which
/// the repository was found or from one of the further paths.
pub open spec fn in_submodule(
    submodules: Seq<PathNames>,
    path: PathNames,
    extra_paths: Seq<PathNames>,
    original_path: PathNames,
) -> bool {
    in_submodule_from(submodules, path, original_path) || exists|i: int|
        0 <= i < extra_paths.len() && in_submodule_from(submodules, path, #[trigger] extra_paths[i])
}

/// The model of a [`GitRepo`].
pub struct RepoView {
    /// The working directory, by which the repository is known.
    pub workdir: PathNames,
    /// The path from which the repository was found.
    pub original_path: PathNames,
    /// Further paths that led to this repository.
    pub extra_paths: Seq<PathNames>,
    /// The statuses of its paths, once they were asked for.
    pub statuses: Option<Seq<Entry>>,
    /// The places of its submodules.
    pub submodules: SubmodulesView,
}

impl RepoView {
    /// Whether the repository answers for `path`: the path is at or below
    /// one of the paths that led to the repository.
    pub open spec fn owns(self, path: PathNames) -> bool {
        is_under(path, self.original_path) || under_any(path, self.extra_paths)
    }

    /// Whether `next` has the same working directory and the same paths
    /// that led to it.
    pub open spec fn same_paths(self, next: RepoView) -> bool {
        &&& next.workdir == self.workdir
        &&& next.original_path == self.original_path
        &&& next.extra_paths == self.extra_paths
    }

    /// Whether nothing has been asked of the repository yet.
    pub open spec fn is_fresh(self) -> bool {
        self.statuses is None && self.submodules is Unknown
    }

    /// The repository as a query for a status leaves it: the statuses are
    /// known afterwards. Those that were known stay; else they are what a
    /// scan left. Nothing else changes.
    pub open spec fn after_status_query(self, next: RepoView) -> bool {
        &&& self.same_paths(next)
        &&& next.submodules == self.submodules
        &&& match self.statuses {
            Some(known) => next.statuses == Some(known),
            None => exists|scan: Option<Seq<Entry>>|
                next.statuses == Some(#[trigger] indexed(self.workdir, scan)),
        }
    }

    /// The repository as a query for submodules leaves it: the submodules
    /// are no longer unknown. What was known, or had failed, stays. Nothing
    /// else changes.
    pub open spec fn after_submodule_query(self, next: RepoView) -> bool {
        &&& self.same_paths(next)
        &&& next.statuses == self.statuses
        &&& !(next.submodules is Unknown)
        &&& !(self.submodules is Unknown) ==> next.submodules == self.submodules
    }

    /// The answer to "is `path` in a submodule?" that the known submodules
    /// give: no, where they are not known or could not be listed.
    pub open spec fn submodule_answer(self, path: PathNames) -> bool {
        match self.submodules {
            SubmodulesView::Known(submodules) => in_submodule(
                submodules,
                path,
                self.extra_paths,
                self.original_path,
            ),
            _ => false,
        }
    }
}

/// A repository found somewhere on the file system.
pub struct GitRepo {
    /// The open repository.
    repo: git2::Repository,
    /// The statuses of its paths, once they were asked for.
    statuses: Option<GitStatuses>,
    /// The places of its submodules, from the root of the repository.
    relative_submodule_paths: SubmodulePaths,
    /// The working directory. Two repositories with the same working
    /// directory are the same repository.
    workdir: GitPath,
    /// The path from which the repository was found.
    original_path: GitPath,
    /// Further paths that led to this repository.
    extra_paths: Vec<GitPath>,
}

impl View for GitRepo {
    type V = RepoView;

    closed spec fn view(&self) -> RepoView {
        RepoView {
            workdir: self.workdir@,
            original_path: self.original_path@,
            extra_paths: paths_view(self.extra_paths),
            statuses: match self.statuses {
                Some(known) => Some(known@),
                None => None,
            },
            submodules: self.relative_submodule_paths@,
        }
    }
}

/// Whether `path` is at or below one of `bases`.
pub fn starts_with_any(path: &GitPath, bases: &Vec<GitPath>) -> (r: bool)
    ensures
        r == under_any(path@, paths_view(*bases)),
{
    let mut i: usize = 0;
    while i < bases.len()
        invariant
            i <= bases.len(),
            forall|k: int| 0 <= k < i ==> !is_under(path@, #[trigger] paths_view(*bases)[k]),
        decreases bases.len() - i,
    {
        if path.starts_with(&bases[i]) {
            assert(is_under(path@, paths_view(*bases)[i as int]));
            return true;
        }
        i += 1;
    }
    false
}

/// Whether `path`, read from `base`, is at or below one of the submodules.
fn check_from(paths: &Vec<GitPath>, path: &GitPath, base: &GitPath) -> (r: bool)
    ensures
        r == in_submodule_from(paths_view(*paths), path@, base@),
{
    match path.strip_prefix(base) {
        Some(relative_path) => starts_with_any(&relative_path, paths),
        None => false,
    }
}

/// Whether `path` is at or below one of the submodules at `paths`. The
/// submodules are given from the root of the repository, so `path` is first
/// read from the path from which the repository was found, then from each of
/// the further paths.
pub fn check_submodule_paths(
    paths: &Vec<GitPath>,
    path: &GitPath,
    extra_paths: &Vec<GitPath>,
    original_path: &GitPath,
) -> (r: bool)
    ensures
        r == in_submodule(paths_view(*paths), path@, paths_view(*extra_paths), original_path@),
{
    if check_from(paths, path, original_path) {
        return true;
    }
    let mut i: usize = 0;
    while i < extra_paths.len()
        invariant
            i <= extra_paths.len(),
            forall|k: int|
                0 <= k < i ==> !in_submodule_from(
                    paths_view(*paths),
                    path@,
                    #[trigger] paths_view(*extra_paths)[k],
                ),
        decreases extra_paths.len() - i,
    {
        if check_from(paths, path, &extra_paths[i]) {
            assert(in_submodule_from(paths_view(*paths), path@, paths_view(*extra_paths)[i as int]));
            return true;
        }
        i += 1;
    }
    false
}

/// Asks the repository for the statuses of its paths and builds the entries
/// from the answer. Whatever the repository answers, the result is what a
/// scan leaves for this working directory.
pub fn repo_to_statuses(repo: &git2::Repository, workdir: &GitPath) -> (r: GitStatuses)
    ensures
        exists|scan: Option<Seq<Entry>>| r@ == #[trigger] indexed(workdir@, scan),
{
    let scanned = backend::statuses(repo);
    let ghost scan = scan_view(scanned);
    let r = GitStatuses::from_scan(workdir, scanned);
    assert(r@ == indexed(workdir@, scan));
    r
}

/// Asks the repository for the place of each of the named submodules. The
/// first that it cannot find ends the search with its error.
fn find_submodules(repo: &git2::Repository, names: &Vec<String>) -> (r: Result<
    Vec<GitPath>,
    git2::Error,
>)
    ensures
        r matches Ok(paths) ==> paths@.len() == names@.len(),
{
    let mut paths: Vec<GitPath> = Vec::new();
    let mut i: usize = 0;
    while i < names.len()
        invariant
            i <= names.len(),
            paths@.len() == i,
        decreases names.len() - i,
    {
        match backend::find_submodule_path(repo, names[i].as_str()) {
            Ok(path) => paths.push(path),
            Err(e) => {
                return Err(e);
            },
        }
        i += 1;
    }
    Ok(paths)
}

/// Lists the places of the submodules of the repository with this working
/// directory: reads the names that the file `.gitmodules` at its root
/// declares, and asks the repository for the place of each. A repository
/// without that file has no submodules. The listing fails where the file
/// cannot be read or the repository cannot find one of the names.
fn list_submodules(repo: &git2::Repository, workdir: &GitPath) -> (r: Result<
    Vec<GitPath>,
    git2::Error,
>) {
    let file = workdir.join(&GitPath::single(".gitmodules"));
    let config = match backend::config_open(&file) {
        Ok(config) => config,
        Err(e) => {
            return Err(e);
        },
    };
    match backend::config_entry_names(&config) {
        Ok(entries) => find_submodules(repo, &section_names(&entries)),
        Err(e) => Err(e),
    }
}

/// What the list of submodules that a repository gave is kept as.
pub fn submodules_from(listed: Result<Vec<GitPath>, git2::Error>) -> (r: SubmodulePaths)
    ensures
        match listed {
            Ok(paths) => r@ == SubmodulesView::Known(paths_view(paths)),
            Err(_) => r@ == SubmodulesView::Failed,
        },
{
    match listed {
        Ok(paths) => SubmodulePaths::Known(paths),
        Err(_) => SubmodulePaths::Failed,
    }
}

impl GitRepo {
    /// The repository that was opened for `path`, if it has a working
    /// directory. A bare repository has none and nothing to list: the path
    /// comes back.
    pub fn with_workdir(repo: git2::Repository, workdir: Option<GitPath>, path: GitPath) -> (r:
        Result<GitRepo, GitPath>)
        ensures
            match workdir {
                Some(dir) => r is Ok && r->Ok_0@ == (RepoView {
                    workdir: dir@,
                    original_path: path@,
                    extra_paths: Seq::empty(),
                    statuses: None,
                    submodules: SubmodulesView::Unknown,
                }),
                None => r is Err && r->Err_0@ == path@,
            },
    {
        match workdir {
            Some(workdir) => {
                let found = GitRepo {
                    repo,
                    statuses: None,
                    relative_submodule_paths: SubmodulePaths::Unknown,
                    workdir,
                    original_path: path,
                    extra_paths: Vec::new(),
                };
                assert(found@.extra_paths =~= Seq::empty());
                Ok(found)
            },
            None => Err(path),
        }
    }

    /// Opens the repository for `path`. With [`OPEN_NO_SEARCH`] among the
    /// flags the path is that of the repository itself; else the search
    /// starts there and goes towards the root. Where none is found, or the
    /// one found has no working directory, the path comes back.
    pub fn discover(path: GitPath, flags: u32) -> (r: Result<GitRepo, GitPath>)
        ensures
            match r {
                Ok(found) => found@.original_path == path@ && found@.extra_paths.len() == 0
                    && found@.is_fresh(),
                Err(miss) => miss@ == path@,
            },
    {
        match backend::open_ext(&path, flags) {
            Ok(repo) => {
                let workdir = backend::workdir(&repo);
                GitRepo::with_workdir(repo, workdir, path)
            },
            Err(_) => Err(path),
        }
    }

    /// The working directory.
    pub fn workdir(&self) -> (r: &GitPath)
        ensures
            r@ == self@.workdir,
    {
        &self.workdir
    }

    /// The path from which the repository was found.
    pub fn original_path(&self) -> (r: &GitPath)
        ensures
            r@ == self@.original_path,
    {
        &self.original_path
    }

    /// The further paths that led to this repository.
    pub fn extra_paths(&self) -> (r: &Vec<GitPath>)
        ensures
            paths_view(*r) == self@.extra_paths,
    {
        &self.extra_paths
    }

    /// Gives up the repository and keeps the path from which it was found.
    pub fn into_original_path(self) -> (r: GitPath)
        ensures
            r@ == self@.original_path,
    {
        self.original_path
    }

    /// Whether the statuses have been asked for.
    pub fn has_statuses(&self) -> (r: bool)
        ensures
            r == self@.statuses is Some,
    {
        self.statuses.is_some()
    }

    /// Whether the statuses were asked for and the repository could not
    /// give them. A scan that works leaves at least the entry of the
    /// repository's own directory, so this is when no entry is kept.
    pub fn scan_failed(&self) -> (r: bool)
        ensures
            r == (self@.statuses matches Some(kept) && kept.len() == 0),
    {
        match &self.statuses {
            Some(kept) => kept.len() == 0,
            None => false,
        }
    }

    /// Whether the submodules were asked for and could not be listed.
    pub fn submodules_failed(&self) -> (r: bool)
        ensures
            r == self@.submodules is Failed,
    {
        match &self.relative_submodule_paths {
            SubmodulePaths::Failed => true,
            _ => false,
        }
    }

    /// Whether the submodules have been asked for.
    pub fn has_submodules(&self) -> (r: bool)
        ensures
            r == !(self@.submodules is Unknown),
    {
        match &self.relative_submodule_paths {
            SubmodulePaths::Unknown => false,
            _ => true,
        }
    }

    /// Notes one more path that led to this repository.
    pub fn add_extra_path(&mut self, path: GitPath)
        ensures
            final(self)@ == (RepoView {
                extra_paths: old(self)@.extra_paths.push(path@),
                ..old(self)@
            }),
    {
        self.extra_paths.push(path);
        assert(paths_view(self.extra_paths) =~= paths_view(old(self).extra_paths).push(path@));
    }

    /// Whether this is the repository with the given working directory.
    pub fn has_workdir(&self, path: &GitPath) -> (r: bool)
        ensures
            r == (self@.workdir == path@),
    {
        self.workdir.same_as(path)
    }

    /// Whether this repository answers for the given path.
    pub fn has_path(&self, path: &GitPath) -> (r: bool)
        ensures
            r == self@.owns(path@),
    {
        path.starts_with(&self.original_path) || starts_with_any(path, &self.extra_paths)
    }

    /// The status of a path: that of a directory with everything below it if
    /// `prefix_lookup` is set, else that of a file.
    ///
    /// The first call asks the repository for the statuses of all its paths
    /// and keeps them; every later call answers from what was kept.
    pub fn get_status(&mut self, index: &GitPath, prefix_lookup: bool, fs: &Resolution) -> (r: Git)
        ensures
            old(self)@.after_status_query(final(self)@),
            final(self)@.statuses is Some,
            r == status_in(
                final(self)@.statuses->0,
                reoriented(index@, fs@),
                prefix_lookup,
            ),
    {
        if let Some(cached_statuses) = &self.statuses {
            return cached_statuses.status(index, prefix_lookup, fs);
        }
        let new_statuses = repo_to_statuses(&self.repo, &self.workdir);
        let result = new_statuses.status(index, prefix_lookup, fs);
        self.statuses = Some(new_statuses);
        result
    }

    /// Whether the path is at or below a submodule of this repository.
    ///
    /// The first call asks the repository for its submodules and keeps the
    /// answer; every later call answers from what was kept. Where the
    /// repository could not list them, the answer is no.
    pub fn has_in_submodule(&mut self, path: &GitPath) -> (r: bool)
        ensures
            old(self)@.after_submodule_query(final(self)@),
            r == final(self)@.submodule_answer(path@),
    {
        if let SubmodulePaths::Unknown = &self.relative_submodule_paths {
            let listed = list_submodules(&self.repo, &self.workdir);
            self.relative_submodule_paths = submodules_from(listed);
        }
        match &self.relative_submodule_paths {
            SubmodulePaths::Known(paths) => check_submodule_paths(
                paths,
                path,
                &self.extra_paths,
                &self.original_path,
            ),
            _ => false,
        }
    }
}

/// A path inside a submodule is in it: whatever lies at or below the place
/// of a submodule, read from the path from which the repository was found,
/// is in a submodule.
pub proof fn lemma_inside_submodule(
    submodules: Seq<PathNames>,
    j: int,
    original_path: PathNames,
    extra_paths: Seq<PathNames>,
    rest: PathNames,
)
    requires
        0 <= j < submodules.len(),
    ensures
        in_submodule(submodules, original_path + submodules[j] + rest, extra_paths, original_path),
{
    let path = original_path + submodules[j] + rest;
    let relative = path.skip(original_path.len() as int);
    assert(path.subrange(0, original_path.len() as int) =~= original_path);
    assert(relative =~= submodules[j] + rest);
    assert(relative.subrange(0, submodules[j].len() as int) =~= submodules[j]);
    assert(is_under(relative, submodules[j]));
}

/// The same holds when the path is read from one of the further paths that
/// led to the repository.
pub proof fn lemma_inside_submodule_from_extra(
    submodules: Seq<PathNames>,
    j: int,
    original_path: PathNames,
    extra_paths: Seq<PathNames>,
    e: int,
    rest: PathNames,
)
    requires
        0 <= j < submodules.len(),
        0 <= e < extra_paths.len(),
    ensures
        in_submodule(submodules, extra_paths[e] + submodules[j] + rest, extra_paths, original_path),
{
    let path = extra_paths[e] + submodules[j] + rest;
    let relative = path.skip(extra_paths[e].len() as int);
    assert(path.subrange(0, extra_paths[e].len() as int) =~= extra_paths[e]);
    assert(relative =~= submodules[j] + rest);
    assert(relative.subrange(0, submodules[j].len() as int) =~= submodules[j]);
    assert(is_under(relative, submodules[j]));
    assert(in_submodule_from(submodules, path, extra_paths[e]));
}

/// A path beside a submodule is not in it: with one submodule and no
/// further paths, a path that differs from the place of the submodule
/// within the length of that place is in no submodule, whatever follows.
pub proof fn lemma_beside_submodule(
    submodule: PathNames,
    sibling: PathNames,
    original_path: PathNames,
    rest: PathNames,
)
    requires
        sibling.len() == submodule.len(),
        sibling != submodule,
    ensures
        !in_submodule(seq![submodule], original_path + sibling + rest, Seq::empty(), original_path),
{
    let path = original_path + sibling + rest;
    let relative = path.skip(original_path.len() as int);
    assert(relative =~= sibling + rest);
    assert(relative.subrange(0, submodule.len() as int) =~= sibling);
    assert(seq![submodule][0] == submodule);
}

/// A path is in no submodule if, read from the one path that led to the
/// repository, it is at or below none of them.
pub proof fn lemma_outside_submodules(
    submodules: Seq<PathNames>,
    original_path: PathNames,
    relative: PathNames,
)
    requires
        forall|j: int| 0 <= j < submodules.len() ==> !is_under(relative, #[trigger] submodules[j]),
    ensures
        !in_submodule(submodules, original_path + relative, Seq::empty(), original_path),
{
    let path = original_path + relative;
    assert(path.skip(original_path.len() as int) =~= relative);
}

} // verus!
