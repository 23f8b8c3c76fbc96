//! The repositories of one listing.
//!
//! The cache is built once, from the paths that are about to be listed. Each
//! path leads to a repository or to none. Paths that lead to the same
//! working directory share one repository, and a path that led to none is
//! kept as a miss, so that neither is looked up twice. After that the cache
//! answers for any path: it hands the question to the first repository that
//! answers for the path, and has a fixed answer where there is none.

use crate::path::{lemma_under_itself, names_of, GitPath, PathNames, Resolution};
use crate::repo::{GitRepo, RepoView, OPEN_FROM_ENV, OPEN_NO_DOTGIT, OPEN_NO_SEARCH};
use crate::status::Git;
use vstd::prelude::*;

verus! {

/// The model of a [`GitCache`].
pub struct CacheView {
    /// The repositories, in the order in which they were found.
    pub repos: Seq<RepoView>,
    /// The paths for which no repository was found.
    pub misses: Seq<PathNames>,
}

impl CacheView {
    /// The cache that knows nothing.
    pub open spec fn empty() -> CacheView {
        CacheView { repos: Seq::empty(), misses: Seq::empty() }
    }

    /// Whether some repository answers for `path`.
    pub open spec fn covers(self, path: PathNames) -> bool {
        exists|i: int| 0 <= i < self.repos.len() && (#[trigger] self.repos[i]).owns(path)
    }

    /// Whether `k` is the place of the first repository that answers for
    /// `path`.
    pub open spec fn is_owner(self, path: PathNames, k: int) -> bool {
        &&& 0 <= k < self.repos.len()
        &&& self.repos[k].owns(path)
        &&& forall|i: int| 0 <= i < k ==> !(#[trigger] self.repos[i]).owns(path)
    }

    /// Whether `path` is known to have no repository.
    pub open spec fn is_miss(self, path: PathNames) -> bool {
        exists|i: int| 0 <= i < self.misses.len() && #[trigger] self.misses[i] == path
    }

    /// Whether some repository has the working directory `workdir`.
    pub open spec fn knows_workdir(self, workdir: PathNames) -> bool {
        exists|i: int| 0 <= i < self.repos.len() && (#[trigger] self.repos[i]).workdir == workdir
    }

    /// Whether `k` is the place of the first repository with the working
    /// directory `workdir`.
    pub open spec fn is_at_workdir(self, workdir: PathNames, k: int) -> bool {
        &&& 0 <= k < self.repos.len()
        &&& self.repos[k].workdir == workdir
        &&& forall|i: int| 0 <= i < k ==> (#[trigger] self.repos[i]).workdir != workdir
    }

    /// Whether `path` is one from which a repository of the cache was found.
    pub open spec fn recognizes(self, path: PathNames) -> bool {
        exists|i: int|
            0 <= i < self.repos.len() && ((#[trigger] self.repos[i]).original_path == path
                || self.repos[i].extra_paths.contains(path))
    }

    /// What the cache keeps at all times: no two repositories have the same
    /// working directory, no path from which a repository was found is also
    /// a miss, and no miss stands twice.
    pub open spec fn well_formed(self) -> bool {
        &&& forall|i: int, j: int|
            0 <= i < j < self.repos.len() ==> (#[trigger] self.repos[i]).workdir != (
            #[trigger] self.repos[j]).workdir
        &&& forall|path: PathNames| !(#[trigger] self.recognizes(path) && self.is_miss(path))
        &&& forall|i: int, j: int|
            0 <= i < j < self.misses.len() ==> #[trigger] self.misses[i] != #[trigger] self.misses[j]
    }

    /// Whether `next` has the same misses and as many repositories, each
    /// with the same working directory and the same paths that led to it.
    pub open spec fn same_paths(self, next: CacheView) -> bool {
        &&& next.misses == self.misses
        &&& next.repos.len() == self.repos.len()
        &&& forall|i: int|
            0 <= i < self.repos.len() ==> self.repos[i].same_paths(#[trigger] next.repos[i])
    }

    /// Whether nothing has been asked of any repository yet.
    pub open spec fn all_fresh(self) -> bool {
        forall|i: int| 0 <= i < self.repos.len() ==> (#[trigger] self.repos[i]).is_fresh()
    }

    /// Whether `next` keeps every answer of this cache and has taken in
    /// nothing but `path`.
    pub open spec fn grows_to(self, next: CacheView, path: PathNames) -> bool {
        &&& forall|p: PathNames| #[trigger] self.covers(p) ==> next.covers(p)
        &&& forall|p: PathNames| #[trigger] self.is_miss(p) ==> next.is_miss(p)
        &&& forall|p: PathNames| #[trigger] next.recognizes(p) ==> self.recognizes(p) || p == path
        &&& forall|p: PathNames| #[trigger] next.is_miss(p) ==> self.is_miss(p) || p == path
    }

    /// The cache after the outcome of one search: a path without repository
    /// is one more miss; a repository whose working directory is known
    /// already gives its path to the repository that has it; any other
    /// repository is added as the last.
    pub open spec fn recorded(self, found: Result<RepoView, PathNames>) -> CacheView {
        match found {
            Err(miss) => CacheView { misses: self.misses.push(miss), ..self },
            Ok(repo) => if self.knows_workdir(repo.workdir) {
                let k = choose|k: int| self.is_at_workdir(repo.workdir, k);
                CacheView {
                    repos: self.repos.update(
                        k,
                        RepoView {
                            extra_paths: self.repos[k].extra_paths.push(repo.original_path),
                            ..self.repos[k]
                        },
                    ),
                    ..self
                }
            } else {
                CacheView { repos: self.repos.push(repo), ..self }
            },
        }
    }

    /// How a visit to `path` changes the cache. A path that is a miss, or
    /// for which a repository answers, changes nothing. For any other path a
    /// search is made, and its outcome is taken in: a repository found from
    /// this path, of which nothing has been asked yet, or the path as a miss.
    pub open spec fn visited(self, next: CacheView, path: PathNames) -> bool {
        if self.is_miss(path) || self.covers(path) {
            next == self
        } else {
            exists|found: Result<RepoView, PathNames>|
                is_outcome_for(found, path) && next == #[trigger] self.recorded(found)
        }
    }

    /// How visits to each of `paths`, in their order, change the cache.
    pub open spec fn visited_all(self, next: CacheView, paths: Seq<PathNames>) -> bool
        decreases paths.len(),
    {
        if paths.len() == 0 {
            next == self
        } else {
            exists|before: CacheView|
                self.visited_all(before, paths.drop_last()) && #[trigger] before.visited(
                    next,
                    paths.last(),
                )
        }
    }

    /// The cache before the first visit: empty, or, where a repository was
    /// named, with the outcome of opening that one.
    pub open spec fn opened_first(self, git_dir: Option<PathNames>) -> bool {
        match git_dir {
            None => self == CacheView::empty(),
            Some(dir) => exists|found: Result<RepoView, PathNames>|
                is_outcome_for(found, dir) && self == #[trigger] CacheView::empty().recorded(found),
        }
    }

    /// How a query for a status changes the cache and what it answers.
    /// Without a repository for the path nothing changes, and the answer is
    /// that of an unknown path. Else only the first repository that answers
    /// for the path changes, as its own query changes it, and the answer is
    /// the one that its statuses give.
    pub open spec fn after_get(
        self,
        next: CacheView,
        index: PathNames,
        prefix_lookup: bool,
        fs: crate::path::ResolutionView,
        answer: Git,
    ) -> bool {
        &&& next.misses == self.misses
        &&& next.repos.len() == self.repos.len()
        &&& !self.covers(index) ==> next == self && answer == Git::unknown()
        &&& forall|k: int| #[trigger]
            self.is_owner(index, k) ==> {
                &&& next.repos == self.repos.update(k, next.repos[k])
                &&& self.repos[k].after_status_query(next.repos[k])
                &&& next.repos[k].statuses is Some
                &&& answer == crate::index::status_in(
                    next.repos[k].statuses->0,
                    crate::path::reoriented(index, fs),
                    prefix_lookup,
                )
            }
    }

    /// How a query for submodules changes the cache and what it answers.
    /// Without a repository for the path nothing changes, and the answer is
    /// no. Else only the first repository that answers for the path changes,
    /// as its own query changes it, and the answer is the one that its
    /// submodules give.
    pub open spec fn after_submodule_query(
        self,
        next: CacheView,
        path: PathNames,
        answer: bool,
    ) -> bool {
        &&& next.misses == self.misses
        &&& next.repos.len() == self.repos.len()
        &&& !self.covers(path) ==> next == self && !answer
        &&& forall|k: int| #[trigger]
            self.is_owner(path, k) ==> {
                &&& next.repos == self.repos.update(k, next.repos[k])
                &&& self.repos[k].after_submodule_query(next.repos[k])
                &&& answer == next.repos[k].submodule_answer(path)
            }
    }
}

/// The repositories that the paths of a listing lie in.
pub struct GitCache {
    /// The repositories found, in the order in which they were found.
    repos: Vec<GitRepo>,
    /// The paths for which no repository was found.
    misses: Vec<GitPath>,
}

impl View for GitCache {
    type V = CacheView;

    closed spec fn view(&self) -> CacheView {
        CacheView {
            repos: Seq::new(self.repos@.len(), |i: int| self.repos@[i]@),
            misses: Seq::new(self.misses@.len(), |i: int| self.misses@[i]@),
        }
    }
}

impl GitCache {
    /// The cache that knows nothing.
    pub fn new() -> (r: GitCache)
        ensures
            r@ == CacheView::empty(),
    {
        let r = GitCache { repos: Vec::new(), misses: Vec::new() };
        assert(r@.repos =~= Seq::empty());
        assert(r@.misses =~= Seq::empty());
        r
    }

    /// The place of the first repository that answers for `path`.
    fn owner(&self, path: &GitPath) -> (r: Option<usize>)
        ensures
            match r {
                Some(k) => self@.is_owner(path@, k as int),
                None => !self@.covers(path@),
            },
    {
        let mut i: usize = 0;
        while i < self.repos.len()
            invariant
                i <= self.repos.len(),
                forall|k: int| 0 <= k < i ==> !(#[trigger] self@.repos[k]).owns(path@),
            decreases self.repos.len() - i,
        {
            if self.repos[i].has_path(path) {
                return Some(i);
            }
            i += 1;
        }
        None
    }

    /// Whether some repository answers for the path.
    pub fn has_anything_for(&self, index: &GitPath) -> (r: bool)
        ensures
            r == self@.covers(index@),
    {
        self.owner(index).is_some()
    }

    /// The status of a path: that of a directory with everything below it if
    /// `prefix_lookup` is set, else that of a file. A path for which no
    /// repository answers has the status of an unknown path.
    ///
    /// The first query that reaches a repository has it scanned; every later
    /// one is answered from what that scan left.
    pub fn get(&mut self, index: &GitPath, prefix_lookup: bool, fs: &Resolution) -> (r: Git)
        ensures
            old(self)@.after_get(final(self)@, index@, prefix_lookup, fs@, r),
            old(self)@.well_formed() ==> final(self)@.well_formed(),
    {
        let r = match self.owner(index) {
            Some(k) => {
                let r = self.repos[k].get_status(index, prefix_lookup, fs);
                assert(self@.repos =~= old(self)@.repos.update(k as int, self@.repos[k as int]));
                assert(self@.misses =~= old(self)@.misses);
                r
            },
            None => Git::default(),
        };
        proof {
            lemma_get_keeps_paths(old(self)@, self@, index@, prefix_lookup, fs@, r);
            if old(self)@.well_formed() {
                lemma_same_paths_well_formed(old(self)@, self@);
            }
        }
        r
    }

    /// Whether the path is at or below a submodule of the repository that
    /// answers for it. Without such a repository the answer is no.
    ///
    /// The first query that reaches a repository has its submodules listed;
    /// every later one is answered from that list.
    pub fn has_in_submodule(&mut self, path: &GitPath) -> (r: bool)
        ensures
            old(self)@.after_submodule_query(final(self)@, path@, r),
            old(self)@.well_formed() ==> final(self)@.well_formed(),
    {
        let r = match self.owner(path) {
            Some(k) => {
                let r = self.repos[k].has_in_submodule(path);
                assert(self@.repos =~= old(self)@.repos.update(k as int, self@.repos[k as int]));
                assert(self@.misses =~= old(self)@.misses);
                r
            },
            None => false,
        };
        proof {
            lemma_submodule_query_keeps_paths(old(self)@, self@, path@, r);
            if old(self)@.well_formed() {
                lemma_same_paths_well_formed(old(self)@, self@);
            }
        }
        r
    }

    /// Whether the path is known to have no repository.
    pub fn is_miss(&self, path: &GitPath) -> (r: bool)
        ensures
            r == self@.is_miss(path@),
    {
        let mut i: usize = 0;
        while i < self.misses.len()
            invariant
                i <= self.misses.len(),
                forall|k: int| 0 <= k < i ==> #[trigger] self@.misses[k] != path@,
            decreases self.misses.len() - i,
        {
            if self.misses[i].same_as(path) {
                assert(self@.misses[i as int] == path@);
                return true;
            }
            i += 1;
        }
        false
    }

    /// The place of the first repository with the given working directory.
    fn at_workdir(&self, workdir: &GitPath) -> (r: Option<usize>)
        ensures
            match r {
                Some(k) => self@.is_at_workdir(workdir@, k as int),
                None => !self@.knows_workdir(workdir@),
            },
    {
        let mut i: usize = 0;
        while i < self.repos.len()
            invariant
                i <= self.repos.len(),
                forall|k: int| 0 <= k < i ==> (#[trigger] self@.repos[k]).workdir != workdir@,
            decreases self.repos.len() - i,
        {
            if self.repos[i].has_workdir(workdir) {
                return Some(i);
            }
            i += 1;
        }
        None
    }

    /// The number of repositories.
    pub fn repo_count(&self) -> (r: usize)
        ensures
            r == self@.repos.len(),
    {
        self.repos.len()
    }

    /// The repository at place `i`, in the order in which they were found.
    pub fn repo(&self, i: usize) -> (r: Option<&GitRepo>)
        ensures
            r is Some <==> i < self@.repos.len(),
            r matches Some(found) ==> found@ == self@.repos[i as int],
    {
        if i < self.repos.len() {
            Some(&self.repos[i])
        } else {
            None
        }
    }

    /// The path at place `i` among those known to have no repository, in
    /// the order in which they were searched for.
    pub fn miss(&self, i: usize) -> (r: Option<&GitPath>)
        ensures
            r is Some <==> i < self@.misses.len(),
            r matches Some(path) ==> path@ == self@.misses[i as int],
    {
        if i < self.misses.len() {
            Some(&self.misses[i])
        } else {
            None
        }
    }

    /// The number of paths known to have no repository.
    pub fn miss_count(&self) -> (r: usize)
        ensures
            r == self@.misses.len(),
    {
        self.misses.len()
    }

    /// Takes in the outcome of one search: a repository, or the path for
    /// which there is none.
    pub fn record(&mut self, found: Result<GitRepo, GitPath>)
        ensures
            final(self)@ == old(self)@.recorded(outcome_view(found)),
    {
        match found {
            Ok(r) => {
                match self.at_workdir(r.workdir()) {
                    Some(k) => {
                        proof {
                            let chosen = choose|c: int| self@.is_at_workdir(r@.workdir, c);
                            assert(self@.is_at_workdir(r@.workdir, k as int));
                            assert(chosen == k);
                        }
                        let ghost known = r@;
                        let path = r.into_original_path();
                        self.repos[k].add_extra_path(path);
                        assert(self@.repos =~= old(self)@.repos.update(
                            k as int,
                            RepoView {
                                extra_paths: old(self)@.repos[k as int].extra_paths.push(
                                    known.original_path,
                                ),
                                ..old(self)@.repos[k as int]
                            },
                        ));
                        assert(self@.misses =~= old(self)@.misses);
                    },
                    None => {
                        let ghost known = r@;
                        self.repos.push(r);
                        assert(self@.repos =~= old(self)@.repos.push(known));
                        assert(self@.misses =~= old(self)@.misses);
                    },
                }
            },
            Err(miss) => {
                let ghost missed = miss@;
                self.misses.push(miss);
                assert(self@.misses =~= old(self)@.misses.push(missed));
                assert(self@.repos =~= old(self)@.repos);
            },
        }
    }

    /// Makes sure that the cache has an answer for `path`: unless the path
    /// is a miss or some repository answers for it already, searches for its
    /// repository, from the path upwards, and takes in the outcome.
    pub fn visit(&mut self, path: GitPath)
        ensures
            old(self)@.visited(final(self)@, path@),
            final(self)@.covers(path@) || final(self)@.is_miss(path@),
            old(self)@.grows_to(final(self)@, path@),
            old(self)@.well_formed() ==> final(self)@.well_formed(),
            old(self)@.all_fresh() ==> final(self)@.all_fresh(),
    {
        if self.is_miss(&path) {
            return ;
        }
        if self.has_anything_for(&path) {
            return ;
        }
        let ghost names = path@;
        let found = GitRepo::discover(path, OPEN_FROM_ENV);
        proof {
            assert(is_outcome_for(outcome_view(found), names));
            lemma_recorded_keeps(self@, outcome_view(found));
            lemma_recorded_grows(self@, outcome_view(found));
            if self@.well_formed() {
                lemma_recorded_well_formed(self@, outcome_view(found));
            }
        }
        self.record(found);
    }

    /// Builds the cache for the given paths. Where `git_dir` is given, it
    /// names a repository to open first, by its own directory and without
    /// any search. After it each path is visited in turn.
    ///
    /// Whatever is found on the file system, every path given has an answer
    /// afterwards, nothing has been asked of any repository yet, and only
    /// paths that were given are kept.
    pub fn from_iter(paths: Vec<GitPath>, git_dir: Option<GitPath>) -> (r: GitCache)
        ensures
            exists|start: CacheView|
                (#[trigger] start.opened_first(names_of(git_dir))) && start.visited_all(
                    r@,
                    crate::repo::paths_view(paths),
                ),
            r@.well_formed(),
            r@.all_fresh(),
            forall|i: int|
                0 <= i < paths@.len() ==> r@.covers((#[trigger] paths@[i])@) || r@.is_miss(
                    paths@[i]@,
                ),
            git_dir matches Some(dir) ==> r@.covers(dir@) || r@.is_miss(dir@),
            forall|path: PathNames|
                r@.recognizes(path) || r@.is_miss(path) ==> #[trigger] given(
                    crate::repo::paths_view(paths),
                    names_of(git_dir),
                    path,
                ),
    {
        let mut git = GitCache::new();
        let ghost all = crate::repo::paths_view(paths);
        if let Some(dir) = &git_dir {
            let found = GitRepo::discover(dir.clone(), OPEN_NO_SEARCH | OPEN_NO_DOTGIT);
            proof {
                assert(is_outcome_for(outcome_view(found), dir@));
                lemma_recorded_keeps(git@, outcome_view(found));
                lemma_recorded_grows(git@, outcome_view(found));
                lemma_recorded_well_formed(git@, outcome_view(found));
            }
            git.record(found);
        }
        let ghost start = git@;
        assert(start.visited_all(git@, all.take(0)));
        let mut i: usize = 0;
        while i < paths.len()
            invariant
                i <= paths.len(),
                all == crate::repo::paths_view(paths),
                start.opened_first(names_of(git_dir)),
                start.visited_all(git@, all.take(i as int)),
                git@.well_formed(),
                git@.all_fresh(),
                forall|k: int| 0 <= k < i ==> git@.covers(#[trigger] all[k]) || git@.is_miss(all[k]),
                git_dir matches Some(dir) ==> git@.covers(dir@) || git@.is_miss(dir@),
                forall|path: PathNames|
                    git@.recognizes(path) || git@.is_miss(path) ==> #[trigger] given(
                        all.take(i as int),
                        names_of(git_dir),
                        path,
                    ),
            decreases paths.len() - i,
        {
            let ghost before = git@;
            git.visit(paths[i].clone());
            proof {
                let path = all[i as int];
                assert(all.take(i as int + 1).last() == path);
                assert(all.take(i as int + 1).drop_last() =~= all.take(i as int));
                assert(start.visited_all(before, all.take(i as int + 1).drop_last()));
                assert(before.visited(git@, all.take(i as int + 1).last()));
                assert(start.visited_all(git@, all.take(i as int + 1)));
                assert forall|p: PathNames|
                    git@.recognizes(p) || git@.is_miss(p) implies #[trigger] given(
                    all.take(i as int + 1),
                    names_of(git_dir),
                    p,
                ) by {
                    if p == path {
                        assert(all.take(i as int + 1)[i as int] == p);
                    } else {
                        assert(before.recognizes(p) || before.is_miss(p));
                        assert(given(all.take(i as int), names_of(git_dir), p));
                        if names_of(git_dir) != Some(p) {
                            let k = choose|k: int|
                                0 <= k < all.take(i as int).len() && all.take(i as int)[k] == p;
                            assert(all.take(i as int + 1)[k] == p);
                        }
                    }
                }
            }
            i += 1;
        }
        assert(all.take(i as int) =~= all);
        assert forall|k: int| 0 <= k < paths@.len() implies git@.covers((#[trigger] paths@[k])@)
            || git@.is_miss(paths@[k]@) by {
            assert(all[k] == paths@[k]@);
        }
        git
    }
}

/// The model of the outcome of a search.
pub open spec fn outcome_view(found: Result<GitRepo, GitPath>) -> Result<RepoView, PathNames> {
    match found {
        Ok(repo) => Ok(repo@),
        Err(miss) => Err(miss@),
    }
}

/// Whether `found` can be the outcome of a search for `path`: the path as a
/// miss, or a repository found from this path and no other, of which nothing
/// has been asked yet.
pub open spec fn is_outcome_for(found: Result<RepoView, PathNames>, path: PathNames) -> bool {
    match found {
        Ok(repo) => repo.original_path == path && repo.extra_paths.len() == 0 && repo.is_fresh(),
        Err(miss) => miss == path,
    }
}

/// The path that a search was made for.
pub open spec fn searched_path(found: Result<RepoView, PathNames>) -> PathNames {
    match found {
        Ok(repo) => repo.original_path,
        Err(miss) => miss,
    }
}

/// Whether `path` is among the paths given to build a cache.
pub open spec fn given(
    paths: Seq<PathNames>,
    git_dir: Option<PathNames>,
    path: PathNames,
) -> bool {
    ||| exists|i: int| 0 <= i < paths.len() && #[trigger] paths[i] == path
    ||| git_dir == Some(path)
}

/// Taking in an outcome loses no answer and gives one to the path that was
/// searched for; and if nothing had been asked of any repository, that is
/// still so.
pub proof fn lemma_recorded_keeps(cache: CacheView, found: Result<RepoView, PathNames>)
    ensures
        forall|p: PathNames| #[trigger] cache.covers(p) ==> cache.recorded(found).covers(p),
        forall|p: PathNames| #[trigger] cache.is_miss(p) ==> cache.recorded(found).is_miss(p),
        cache.all_fresh() && (found matches Ok(repo) ==> repo.is_fresh()) ==> cache.recorded(
            found,
        ).all_fresh(),
        found matches Ok(repo) ==> cache.recorded(found).covers(repo.original_path),
        found matches Err(miss) ==> cache.recorded(found).is_miss(miss),
{
    let next = cache.recorded(found);
    match found {
        Err(miss) => {
            assert(next.repos == cache.repos);
            assert(next.misses[cache.misses.len() as int] == miss);
            assert forall|p: PathNames| #[trigger] cache.is_miss(p) implies next.is_miss(p) by {
                let i = choose|i: int| 0 <= i < cache.misses.len() && cache.misses[i] == p;
                assert(next.misses[i] == p);
            }
        },
        Ok(repo) => {
            assert(next.misses == cache.misses);
            lemma_under_itself(repo.original_path);
            if cache.knows_workdir(repo.workdir) {
                let w = choose|w: int|
                    0 <= w < cache.repos.len() && (#[trigger] cache.repos[w]).workdir
                        == repo.workdir;
                lemma_first_at_workdir(cache, repo.workdir, w);
                let k = choose|k: int| cache.is_at_workdir(repo.workdir, k);
                let grown = next.repos[k];
                assert(grown.extra_paths[cache.repos[k].extra_paths.len() as int]
                    == repo.original_path);
                assert(grown.owns(repo.original_path));
                assert forall|p: PathNames| cache.repos[k].owns(p) implies grown.owns(p) by {
                    if !crate::path::is_under(p, cache.repos[k].original_path) {
                        let e = choose|e: int|
                            0 <= e < cache.repos[k].extra_paths.len() && crate::path::is_under(
                                p,
                                #[trigger] cache.repos[k].extra_paths[e],
                            );
                        assert(grown.extra_paths[e] == cache.repos[k].extra_paths[e]);
                    }
                }
                assert forall|p: PathNames| #[trigger] cache.covers(p) implies next.covers(p) by {
                    let i = choose|i: int|
                        0 <= i < cache.repos.len() && (#[trigger] cache.repos[i]).owns(p);
                    assert(next.repos[i].owns(p));
                }
            } else {
                assert(next.repos[cache.repos.len() as int] == repo);
                assert forall|p: PathNames| #[trigger] cache.covers(p) implies next.covers(p) by {
                    let i = choose|i: int|
                        0 <= i < cache.repos.len() && (#[trigger] cache.repos[i]).owns(p);
                    assert(next.repos[i].owns(p));
                }
                assert forall|i: int| 0 <= i < next.repos.len() && cache.all_fresh()
                    && repo.is_fresh() implies (#[trigger] next.repos[i]).is_fresh() by {
                    if i < cache.repos.len() {
                        assert(cache.repos[i] == next.repos[i]);
                    }
                }
            }
        },
    }
}

/// Taking in the outcome of a search loses no answer and takes in nothing
/// but the path that was searched for, if the repository found, if any, has
/// no further paths.
pub proof fn lemma_recorded_grows(cache: CacheView, found: Result<RepoView, PathNames>)
    requires
        found matches Ok(repo) ==> repo.extra_paths.len() == 0,
    ensures
        cache.grows_to(cache.recorded(found), searched_path(found)),
{
    let next = cache.recorded(found);
    lemma_recorded_keeps(cache, found);
    match found {
        Err(miss) => {
            assert(next.repos == cache.repos);
            assert forall|p: PathNames| #[trigger] next.recognizes(p) implies cache.recognizes(
                p,
            ) by {}
            assert forall|p: PathNames| #[trigger] next.is_miss(p) implies cache.is_miss(p) || p
                == miss by {
                let i = choose|i: int| 0 <= i < next.misses.len() && next.misses[i] == p;
                if i < cache.misses.len() {
                    assert(cache.misses[i] == p);
                }
            }
        },
        Ok(repo) => {
            assert(next.misses == cache.misses);
            assert forall|p: PathNames| #[trigger] next.is_miss(p) implies cache.is_miss(p) by {}
            if cache.knows_workdir(repo.workdir) {
                let w = choose|w: int|
                    0 <= w < cache.repos.len() && (#[trigger] cache.repos[w]).workdir
                        == repo.workdir;
                lemma_first_at_workdir(cache, repo.workdir, w);
                let k = choose|k: int| cache.is_at_workdir(repo.workdir, k);
                let grown = next.repos[k];
                assert forall|p: PathNames| #[trigger] next.recognizes(p) implies cache.recognizes(
                    p,
                ) || p == repo.original_path by {
                    let i = choose|i: int|
                        0 <= i < next.repos.len() && ((#[trigger] next.repos[i]).original_path == p
                            || next.repos[i].extra_paths.contains(p));
                    if i != k {
                        assert(cache.repos[i] == next.repos[i]);
                    } else if grown.original_path != p {
                        let e = choose|e: int|
                            0 <= e < grown.extra_paths.len() && grown.extra_paths[e] == p;
                        if e < cache.repos[k].extra_paths.len() {
                            assert(cache.repos[k].extra_paths[e] == p);
                        }
                        assert(cache.repos[k].extra_paths.contains(p) || p == repo.original_path);
                    } else {
                        assert(cache.repos[k].original_path == p);
                    }
                }
            } else {
                assert(next.repos[cache.repos.len() as int] == repo);
                assert forall|p: PathNames| #[trigger] next.recognizes(p) implies cache.recognizes(
                    p,
                ) || p == repo.original_path by {
                    let i = choose|i: int|
                        0 <= i < next.repos.len() && ((#[trigger] next.repos[i]).original_path == p
                            || next.repos[i].extra_paths.contains(p));
                    if i < cache.repos.len() {
                        assert(cache.repos[i] == next.repos[i]);
                    }
                }
            }
        },
    }
}

/// Where a repository has the working directory, one is the first that has
/// it.
pub proof fn lemma_first_at_workdir(cache: CacheView, workdir: PathNames, w: int)
    requires
        0 <= w < cache.repos.len(),
        cache.repos[w].workdir == workdir,
    ensures
        exists|k: int| cache.is_at_workdir(workdir, k),
    decreases w,
{
    if forall|i: int| 0 <= i < w ==> (#[trigger] cache.repos[i]).workdir != workdir {
        assert(cache.is_at_workdir(workdir, w));
    } else {
        let i = choose|i: int| 0 <= i < w && (#[trigger] cache.repos[i]).workdir == workdir;
        lemma_first_at_workdir(cache, workdir, i);
    }
}

/// Taking in the outcome of a search keeps the cache well formed, if the
/// search was made for a path that had no answer yet, and the repository
/// found, if any, has no further paths.
pub proof fn lemma_recorded_well_formed(cache: CacheView, found: Result<RepoView, PathNames>)
    requires
        cache.well_formed(),
        !cache.covers(searched_path(found)),
        !cache.is_miss(searched_path(found)),
        found matches Ok(repo) ==> repo.extra_paths.len() == 0,
    ensures
        cache.recorded(found).well_formed(),
{
    let next = cache.recorded(found);
    let path = searched_path(found);
    lemma_recorded_keeps(cache, found);
    lemma_recorded_grows(cache, found);
    assert forall|p: PathNames| !(#[trigger] next.recognizes(p) && next.is_miss(p)) by {
        if next.recognizes(p) && next.is_miss(p) {
            if p == path {
                match found {
                    Err(miss) => {
                        assert(cache.recognizes(p));
                        let i = choose|i: int|
                            0 <= i < cache.repos.len() && ((#[trigger] cache.repos[i]).original_path
                                == p || cache.repos[i].extra_paths.contains(p));
                        lemma_under_itself(p);
                        if cache.repos[i].original_path != p {
                            let e = choose|e: int|
                                0 <= e < cache.repos[i].extra_paths.len()
                                    && cache.repos[i].extra_paths[e] == p;
                            assert(crate::path::is_under(p, cache.repos[i].extra_paths[e]));
                        }
                        assert(cache.repos[i].owns(p));
                    },
                    Ok(repo) => {
                        assert(cache.is_miss(p));
                    },
                }
            } else {
                assert(cache.recognizes(p) && cache.is_miss(p));
            }
        }
    }
    match found {
        Err(miss) => {},
        Ok(repo) => {
            if cache.knows_workdir(repo.workdir) {
                let w = choose|w: int|
                    0 <= w < cache.repos.len() && (#[trigger] cache.repos[w]).workdir
                        == repo.workdir;
                lemma_first_at_workdir(cache, repo.workdir, w);
            } else {
                assert(next.repos[cache.repos.len() as int] == repo);
                assert forall|i: int, j: int| 0 <= i < j < next.repos.len() implies (
                #[trigger] next.repos[i]).workdir != (#[trigger] next.repos[j]).workdir by {
                    assert(cache.repos[i] == next.repos[i]);
                    if j < cache.repos.len() {
                        assert(cache.repos[j] == next.repos[j]);
                    }
                }
            }
        },
    }
}

/// Asking twice gives the same answer: a second query for the status of the
/// same path, in the same way, answers as the first did and leaves the cache
/// as the first left it. In particular the repository is scanned for the
/// first query at most, since from then on its statuses are known and stay.
pub proof fn lemma_get_twice(
    first: CacheView,
    second: CacheView,
    third: CacheView,
    index: PathNames,
    prefix_lookup: bool,
    fs: crate::path::ResolutionView,
    once: Git,
    again: Git,
)
    requires
        first.after_get(second, index, prefix_lookup, fs, once),
        second.after_get(third, index, prefix_lookup, fs, again),
    ensures
        again == once,
        third == second,
{
    if first.covers(index) {
        let w = choose|w: int| 0 <= w < first.repos.len() && (#[trigger] first.repos[w]).owns(index);
        lemma_first_owner(first, index, w);
        let k = choose|k: int| first.is_owner(index, k);
        assert(first.is_owner(index, k));
        assert(second.repos[k].owns(index) == first.repos[k].owns(index));
        assert forall|i: int| 0 <= i < k implies !(#[trigger] second.repos[i]).owns(index) by {
            assert(second.repos[i] == first.repos[i]);
        }
        assert(second.is_owner(index, k));
        assert(third.repos[k] == second.repos[k]);
        assert(third.repos =~= second.repos);
    } else {
        assert(second == first);
    }
}

/// Where a repository answers for the path, one is the first that does.
pub proof fn lemma_first_owner(cache: CacheView, path: PathNames, w: int)
    requires
        0 <= w < cache.repos.len(),
        cache.repos[w].owns(path),
    ensures
        exists|k: int| cache.is_owner(path, k),
    decreases w,
{
    if forall|i: int| 0 <= i < w ==> !(#[trigger] cache.repos[i]).owns(path) {
        assert(cache.is_owner(path, w));
    } else {
        let i = choose|i: int| 0 <= i < w && (#[trigger] cache.repos[i]).owns(path);
        lemma_first_owner(cache, path, i);
    }
}

/// Asking twice whether a path is in a submodule gives the same answer, and
/// the second query leaves the cache as the first left it.
pub proof fn lemma_submodule_query_twice(
    first: CacheView,
    second: CacheView,
    third: CacheView,
    path: PathNames,
    once: bool,
    again: bool,
)
    requires
        first.after_submodule_query(second, path, once),
        second.after_submodule_query(third, path, again),
    ensures
        again == once,
        third == second,
{
    if first.covers(path) {
        let w = choose|w: int| 0 <= w < first.repos.len() && (#[trigger] first.repos[w]).owns(path);
        lemma_first_owner(first, path, w);
        let k = choose|k: int| first.is_owner(path, k);
        assert(first.is_owner(path, k));
        assert(second.repos[k].owns(path) == first.repos[k].owns(path));
        assert forall|i: int| 0 <= i < k implies !(#[trigger] second.repos[i]).owns(path) by {
            assert(second.repos[i] == first.repos[i]);
        }
        assert(second.is_owner(path, k));
        assert(third.repos[k] == second.repos[k]);
        assert(third.repos =~= second.repos);
    } else {
        assert(second == first);
    }
}

/// A path for which no repository answers has the status of an unknown
/// path, whichever way it is asked for, and the query changes nothing.
pub proof fn lemma_unknown_outside(
    cache: CacheView,
    next: CacheView,
    index: PathNames,
    prefix_lookup: bool,
    fs: crate::path::ResolutionView,
    answer: Git,
)
    requires
        forall|i: int| 0 <= i < cache.repos.len() ==> !(#[trigger] cache.repos[i]).owns(index),
        cache.after_get(next, index, prefix_lookup, fs, answer),
    ensures
        !cache.covers(index),
        answer == Git::unknown(),
        next == cache,
{
}

/// Two paths that lead to the same working directory share one repository:
/// when a repository is taken in whose working directory the cache knows
/// already, the number of repositories stays, the one with that working
/// directory answers for the new path as well, and every path that had an
/// answer keeps it.
pub proof fn lemma_same_workdir_shares(cache: CacheView, repo: RepoView, k: int)
    requires
        cache.is_at_workdir(repo.workdir, k),
    ensures
        cache.recorded(Ok(repo)).repos.len() == cache.repos.len(),
        cache.recorded(Ok(repo)).misses == cache.misses,
        cache.recorded(Ok(repo)).repos[k].workdir == repo.workdir,
        cache.recorded(Ok(repo)).repos[k].original_path == cache.repos[k].original_path,
        cache.recorded(Ok(repo)).repos[k].extra_paths == cache.repos[k].extra_paths.push(
            repo.original_path,
        ),
        cache.recorded(Ok(repo)).repos[k].owns(repo.original_path),
        cache.recorded(Ok(repo)).repos[k].owns(cache.repos[k].original_path),
        forall|p: PathNames| #[trigger] cache.covers(p) ==> cache.recorded(Ok(repo)).covers(p),
{
    let chosen = choose|c: int| cache.is_at_workdir(repo.workdir, c);
    assert(chosen == k);
    lemma_recorded_keeps(cache, Ok(repo));
    lemma_under_itself(repo.original_path);
    lemma_under_itself(cache.repos[k].original_path);
    let grown = cache.recorded(Ok(repo)).repos[k];
    assert(grown.extra_paths[cache.repos[k].extra_paths.len() as int] == repo.original_path);
}

/// Starting with nothing, two repositories found from two paths and with
/// the same working directory leave exactly one repository: it was found
/// from the first path and has the second as its only further path.
pub proof fn lemma_two_paths_one_repository(one: RepoView, two: RepoView)
    requires
        one.workdir == two.workdir,
        one.extra_paths.len() == 0,
    ensures
        ({
            let both = CacheView::empty().recorded(Ok(one)).recorded(Ok(two));
            &&& both.repos.len() == 1
            &&& both.misses.len() == 0
            &&& both.repos[0].workdir == one.workdir
            &&& both.repos[0].original_path == one.original_path
            &&& both.repos[0].extra_paths == seq![two.original_path]
            &&& both.repos[0].owns(one.original_path)
            &&& both.repos[0].owns(two.original_path)
        }),
{
    let first = CacheView::empty().recorded(Ok(one));
    assert(!CacheView::empty().knows_workdir(one.workdir));
    assert(first.repos =~= seq![one]);
    assert(first.is_at_workdir(two.workdir, 0));
    lemma_same_workdir_shares(first, two, 0);
    assert(one.extra_paths.push(two.original_path) =~= seq![two.original_path]);
}

/// A query for a status changes no working directory, none of the paths
/// that led to a repository, and no miss.
pub proof fn lemma_get_keeps_paths(
    cache: CacheView,
    next: CacheView,
    index: PathNames,
    prefix_lookup: bool,
    fs: crate::path::ResolutionView,
    answer: Git,
)
    requires
        cache.after_get(next, index, prefix_lookup, fs, answer),
    ensures
        cache.same_paths(next),
{
    if cache.covers(index) {
        let w = choose|w: int| 0 <= w < cache.repos.len() && (#[trigger] cache.repos[w]).owns(index);
        lemma_first_owner(cache, index, w);
        let k = choose|k: int| cache.is_owner(index, k);
        assert(cache.is_owner(index, k));
        assert forall|i: int| 0 <= i < cache.repos.len() implies cache.repos[i].same_paths(
            #[trigger] next.repos[i],
        ) by {
            if i != k {
                assert(next.repos[i] == cache.repos[i]);
            }
        }
    }
}

/// A query for submodules changes no working directory, none of the paths
/// that led to a repository, and no miss.
pub proof fn lemma_submodule_query_keeps_paths(
    cache: CacheView,
    next: CacheView,
    path: PathNames,
    answer: bool,
)
    requires
        cache.after_submodule_query(next, path, answer),
    ensures
        cache.same_paths(next),
{
    if cache.covers(path) {
        let w = choose|w: int| 0 <= w < cache.repos.len() && (#[trigger] cache.repos[w]).owns(path);
        lemma_first_owner(cache, path, w);
        let k = choose|k: int| cache.is_owner(path, k);
        assert(cache.is_owner(path, k));
        assert forall|i: int| 0 <= i < cache.repos.len() implies cache.repos[i].same_paths(
            #[trigger] next.repos[i],
        ) by {
            if i != k {
                assert(next.repos[i] == cache.repos[i]);
            }
        }
    }
}

/// A cache stays well formed as long as the working directories, the paths
/// that led to the repositories and the misses stay.
pub proof fn lemma_same_paths_well_formed(cache: CacheView, next: CacheView)
    requires
        cache.well_formed(),
        cache.same_paths(next),
    ensures
        next.well_formed(),
{
    assert forall|i: int, j: int| 0 <= i < j < next.repos.len() implies (
    #[trigger] next.repos[i]).workdir != (#[trigger] next.repos[j]).workdir by {
        assert(cache.repos[i].same_paths(next.repos[i]));
        assert(cache.repos[j].same_paths(next.repos[j]));
    }
    assert forall|p: PathNames| !(#[trigger] next.recognizes(p) && next.is_miss(p)) by {
        if next.recognizes(p) && next.is_miss(p) {
            let i = choose|i: int|
                0 <= i < next.repos.len() && ((#[trigger] next.repos[i]).original_path == p
                    || next.repos[i].extra_paths.contains(p));
            assert(cache.repos[i].same_paths(next.repos[i]));
            assert(cache.repos[i].original_path == p || cache.repos[i].extra_paths.contains(p));
            assert(cache.recognizes(p) && cache.is_miss(p));
        }
    }
}

} // verus!
