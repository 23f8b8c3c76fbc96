//! The statuses of one repository, and the queries on them.
//!
//! The entries are what one scan of the repository found: a path and its
//! flags each. A query combines the flags of the entries that bear on a path
//! and reduces them to the two displayed axes. Which entries bear on a path
//! depends on the kind of query. For a file it is the entry of the file
//! itself; for a directory it is every entry below it. In both cases an
//! entry whose only flag is the ignored one bears on everything below it: a
//! file in an ignored directory is ignored, while a directory is not ignored
//! for holding something ignored.

use crate::path::{is_under, joined, reorient, reoriented, GitPath, PathNames, Resolution};
use crate::status::{
    git_of, has_flag, index_status, is_single_flag, lemma_empty_flags, lemma_named_flags_single,
    lemma_union_has_flag, staged_of, working_tree_status, Git, GitStatus, StatusFlags, IGNORED,
    INDEX_DELETED, INDEX_MODIFIED, INDEX_NEW, INDEX_RENAMED, INDEX_TYPECHANGE, WT_DELETED,
    WT_MODIFIED, WT_NEW, WT_RENAMED, WT_TYPECHANGE,
};
use vstd::prelude::*;

verus! {

/// An entry: the names of its path and the bits of its flags.
pub type Entry = (PathNames, u32);

/// The name of the directory in which a repository keeps its own data.
pub open spec fn dot_git_name() -> Seq<char> {
    seq!['.', 'g', 'i', 't']
}

/// Whether an entry bears on the status of the file `path`.
pub open spec fn bears_on_file(entry: Entry, path: PathNames) -> bool {
    if entry.1 == IGNORED {
        is_under(path, entry.0)
    } else {
        entry.0 == path
    }
}

/// Whether an entry bears on the status of the directory `path`.
pub open spec fn bears_on_dir(entry: Entry, path: PathNames) -> bool {
    if entry.1 == IGNORED {
        is_under(path, entry.0)
    } else {
        is_under(entry.0, path)
    }
}

/// Whether an entry bears on `path` in the given kind of query.
pub open spec fn bears_on(entry: Entry, path: PathNames, prefix_lookup: bool) -> bool {
    if prefix_lookup {
        bears_on_dir(entry, path)
    } else {
        bears_on_file(entry, path)
    }
}

/// The flags of all entries that bear on `path`, taken together.
pub open spec fn combined(entries: Seq<Entry>, path: PathNames, prefix_lookup: bool) -> u32
    decreases entries.len(),
{
    if entries.len() == 0 {
        0
    } else {
        let rest = combined(entries.drop_last(), path, prefix_lookup);
        if bears_on(entries.last(), path, prefix_lookup) {
            rest | entries.last().1
        } else {
            rest
        }
    }
}

/// The status that the entries give to `path`, which is in the form in which
/// the entries are held.
pub open spec fn status_in(entries: Seq<Entry>, path: PathNames, prefix_lookup: bool) -> Git {
    git_of(combined(entries, path, prefix_lookup))
}

/// The entries that a scan leaves: none if the scan failed; else what it
/// found, each path placed under the working directory, and after them the
/// repository's own directory as ignored.
pub open spec fn indexed(workdir: PathNames, scan: Option<Seq<Entry>>) -> Seq<Entry> {
    match scan {
        None => Seq::empty(),
        Some(found) => Seq::new(found.len(), |i: int| (joined(workdir, found[i].0), found[i].1)).push(
            (joined(workdir, seq![dot_git_name()]), IGNORED),
        ),
    }
}

/// A scan leaves no entry exactly when it failed.
pub proof fn lemma_nothing_left_is_failure(workdir: PathNames, scan: Option<Seq<Entry>>)
    ensures
        indexed(workdir, scan).len() == 0 <==> scan is None,
{
}

/// The statuses of the paths of one repository.
#[derive(Debug)]
pub struct GitStatuses {
    statuses: Vec<(GitPath, StatusFlags)>,
}

impl View for GitStatuses {
    type V = Seq<Entry>;

    closed spec fn view(&self) -> Seq<Entry> {
        Seq::new(self.statuses@.len(), |i: int| (self.statuses@[i].0@, self.statuses@[i].1.bits))
    }
}

/// The model of the result of a scan.
pub open spec fn scan_view(scanned: Result<Vec<(GitPath, StatusFlags)>, git2::Error>) -> Option<
    Seq<Entry>,
> {
    match scanned {
        Ok(found) => Some(Seq::new(found@.len(), |i: int| (found@[i].0@, found@[i].1.bits))),
        Err(_) => None,
    }
}

impl GitStatuses {
    /// Builds the statuses from what a scan of the repository with the given
    /// working directory returned.
    pub fn from_scan(
        workdir: &GitPath,
        scanned: Result<Vec<(GitPath, StatusFlags)>, git2::Error>,
    ) -> (r: GitStatuses)
        ensures
            r@ == indexed(workdir@, scan_view(scanned)),
    {
        let mut statuses: Vec<(GitPath, StatusFlags)> = Vec::new();
        match scanned {
            Ok(found) => {
                let ghost found_view = scan_view(Ok::<_, git2::Error>(found))->0;
                let mut i: usize = 0;
                while i < found.len()
                    invariant
                        i <= found.len(),
                        statuses@.len() == i,
                        found_view.len() == found@.len(),
                        forall|k: int|
                            0 <= k < found@.len() ==> found_view[k] == (
                                found@[k].0@,
                                found@[k].1.bits,
                            ),
                        forall|k: int|
                            0 <= k < i ==> (#[trigger] statuses@[k]).0@ == joined(
                                workdir@,
                                found_view[k].0,
                            ) && statuses@[k].1.bits == found_view[k].1,
                    decreases found.len() - i,
                {
                    let path = workdir.join(&found[i].0);
                    statuses.push((path, found[i].1));
                    i += 1;
                }
                let own = GitPath::single(".git");
                proof {
                    reveal_strlit(".git");
                    assert(".git"@ =~= dot_git_name());
                }
                statuses.push((workdir.join(&own), StatusFlags::from_bits(IGNORED)));
                let r = GitStatuses { statuses };
                assert(r@ =~= indexed(workdir@, Some(found_view)));
                r
            },
            Err(_) => {
                let r = GitStatuses { statuses };
                assert(r@ =~= Seq::<Entry>::empty());
                r
            },
        }
    }

    /// The number of entries.
    pub fn len(&self) -> (r: usize)
        ensures
            r == self@.len(),
    {
        self.statuses.len()
    }

    /// The entry at position `i`, if there is one.
    pub fn entry(&self, i: usize) -> (r: Option<(GitPath, StatusFlags)>)
        ensures
            r is Some <==> i < self@.len(),
            r matches Some(e) ==> (e.0@, e.1.bits) == self@[i as int],
    {
        if i < self.statuses.len() {
            Some((self.statuses[i].0.clone(), self.statuses[i].1))
        } else {
            None
        }
    }

    /// The status of a path: that of a directory with everything below it if
    /// `prefix_lookup` is set, else that of a file.
    pub fn status(&self, index: &GitPath, prefix_lookup: bool, fs: &Resolution) -> (r: Git)
        ensures
            r == status_in(self@, reoriented(index@, fs@), prefix_lookup),
    {
        if prefix_lookup {
            self.dir_status(index, fs)
        } else {
            self.file_status(index, fs)
        }
    }

    /// The status of a file: the flags of its own entries, and the ignored
    /// flag of every entry that is only ignored and above it.
    pub fn file_status(&self, file: &GitPath, fs: &Resolution) -> (r: Git)
        ensures
            r == status_in(self@, reoriented(file@, fs@), false),
    {
        let path = reorient(file, fs);
        let mut s = StatusFlags::empty();
        let mut i: usize = 0;
        while i < self.statuses.len()
            invariant
                i <= self.statuses.len(),
                s.bits == combined(self@.take(i as int), path@, false),
            decreases self.statuses.len() - i,
        {
            let entry = &self.statuses[i];
            let bears = if entry.1.is_only_ignored() {
                path.starts_with(&entry.0)
            } else {
                entry.0.same_as(&path)
            };
            proof {
                assert(self@.take(i as int + 1).drop_last() =~= self@.take(i as int));
                assert(self@.take(i as int + 1).last() == self@[i as int]);
            }
            if bears {
                s = s.union(entry.1);
            }
            i += 1;
        }
        assert(self@.take(i as int) =~= self@);
        Git { staged: index_status(s), unstaged: working_tree_status(s) }
    }

    /// The status of a directory: the flags of every entry in it or below
    /// it, and the ignored flag of every entry that is only ignored and
    /// above it.
    pub fn dir_status(&self, dir: &GitPath, fs: &Resolution) -> (r: Git)
        ensures
            r == status_in(self@, reoriented(dir@, fs@), true),
    {
        let path = reorient(dir, fs);
        let mut s = StatusFlags::empty();
        let mut i: usize = 0;
        while i < self.statuses.len()
            invariant
                i <= self.statuses.len(),
                s.bits == combined(self@.take(i as int), path@, true),
            decreases self.statuses.len() - i,
        {
            let entry = &self.statuses[i];
            let bears = if entry.1.is_only_ignored() {
                path.starts_with(&entry.0)
            } else {
                entry.0.starts_with(&path)
            };
            proof {
                assert(self@.take(i as int + 1).drop_last() =~= self@.take(i as int));
                assert(self@.take(i as int + 1).last() == self@[i as int]);
            }
            if bears {
                s = s.union(entry.1);
            }
            i += 1;
        }
        assert(self@.take(i as int) =~= self@);
        Git { staged: index_status(s), unstaged: working_tree_status(s) }
    }
}

/// Whether the flags show no change in the working tree.
pub open spec fn worktree_unchanged(bits: u32) -> bool {
    &&& !has_flag(bits, WT_NEW)
    &&& !has_flag(bits, WT_MODIFIED)
    &&& !has_flag(bits, WT_DELETED)
    &&& !has_flag(bits, WT_RENAMED)
    &&& !has_flag(bits, WT_TYPECHANGE)
}

/// A single flag is among the combined flags exactly when an entry that
/// bears on the path has it.
pub proof fn lemma_combined_has_flag(
    entries: Seq<Entry>,
    path: PathNames,
    prefix_lookup: bool,
    flag: u32,
)
    requires
        is_single_flag(flag),
    ensures
        has_flag(combined(entries, path, prefix_lookup), flag) <==> exists|i: int|
            0 <= i < entries.len() && bears_on(#[trigger] entries[i], path, prefix_lookup)
                && has_flag(entries[i].1, flag),
    decreases entries.len(),
{
    if entries.len() == 0 {
        lemma_empty_flags(0, flag);
    } else {
        let front = entries.drop_last();
        let last = entries.last();
        lemma_combined_has_flag(front, path, prefix_lookup, flag);
        let rest = combined(front, path, prefix_lookup);
        lemma_union_has_flag(rest, last.1, flag);
        if has_flag(combined(entries, path, prefix_lookup), flag) {
            if bears_on(last, path, prefix_lookup) && has_flag(last.1, flag) {
                assert(entries[entries.len() - 1] == last);
            } else {
                let i = choose|i: int|
                    0 <= i < front.len() && bears_on(#[trigger] front[i], path, prefix_lookup)
                        && has_flag(front[i].1, flag);
                assert(entries[i] == front[i]);
            }
        }
        if exists|i: int|
            0 <= i < entries.len() && bears_on(#[trigger] entries[i], path, prefix_lookup)
                && has_flag(entries[i].1, flag) {
            let i = choose|i: int|
                0 <= i < entries.len() && bears_on(#[trigger] entries[i], path, prefix_lookup)
                    && has_flag(entries[i].1, flag);
            if i < front.len() {
                assert(front[i] == entries[i]);
            }
        }
    }
}

/// What is ignored reaches down: where an entry is only ignored, every path
/// at or below it gets the ignored flag, in a query for a file and in one
/// for a directory, whether or not the path has an entry of its own. It is
/// then shown as ignored unless an entry that bears on it reports a change
/// in the working tree.
pub proof fn lemma_ignored_reaches_below(
    entries: Seq<Entry>,
    i: int,
    path: PathNames,
    prefix_lookup: bool,
)
    requires
        0 <= i < entries.len(),
        entries[i].1 == IGNORED,
        is_under(path, entries[i].0),
    ensures
        has_flag(combined(entries, path, prefix_lookup), IGNORED),
        (forall|j: int|
            0 <= j < entries.len() && bears_on(#[trigger] entries[j], path, prefix_lookup)
                ==> worktree_unchanged(entries[j].1)) ==> status_in(
            entries,
            path,
            prefix_lookup,
        ).unstaged == GitStatus::Ignored,
{
    lemma_named_flags_single();
    assert(has_flag(IGNORED, IGNORED)) by (bit_vector);
    assert(bears_on(entries[i], path, prefix_lookup));
    lemma_combined_has_flag(entries, path, prefix_lookup, IGNORED);
    lemma_combined_has_flag(entries, path, prefix_lookup, WT_NEW);
    lemma_combined_has_flag(entries, path, prefix_lookup, WT_MODIFIED);
    lemma_combined_has_flag(entries, path, prefix_lookup, WT_DELETED);
    lemma_combined_has_flag(entries, path, prefix_lookup, WT_RENAMED);
    lemma_combined_has_flag(entries, path, prefix_lookup, WT_TYPECHANGE);
}

/// What is ignored does not reach up: a directory does not get the ignored
/// flag from entries that are only ignored and lie elsewhere or below it. If
/// every entry with the ignored flag is only ignored, and the directory is
/// at or below none of them, it is not shown as ignored.
pub proof fn lemma_ignored_stays_below(entries: Seq<Entry>, dir: PathNames)
    requires
        forall|i: int|
            0 <= i < entries.len() && has_flag((#[trigger] entries[i]).1, IGNORED) ==> entries[i].1
                == IGNORED && !is_under(dir, entries[i].0),
    ensures
        !has_flag(combined(entries, dir, true), IGNORED),
        status_in(entries, dir, true).unstaged != GitStatus::Ignored,
{
    lemma_named_flags_single();
    lemma_combined_has_flag(entries, dir, true, IGNORED);
}

/// A directory gathers what lies in it: if an entry at or below the
/// directory is new in the working tree, the directory is shown as new,
/// whatever else lies in it.
pub proof fn lemma_new_below_shows_new(entries: Seq<Entry>, i: int, dir: PathNames)
    requires
        0 <= i < entries.len(),
        is_under(entries[i].0, dir),
        has_flag(entries[i].1, WT_NEW),
    ensures
        status_in(entries, dir, true).unstaged == GitStatus::New,
{
    lemma_named_flags_single();
    assert(!has_flag(IGNORED, WT_NEW)) by (bit_vector);
    assert(bears_on(entries[i], dir, true));
    lemma_combined_has_flag(entries, dir, true, WT_NEW);
}

/// Nothing is shown as staged for a path if no entry that bears on it has
/// anything staged.
pub proof fn lemma_nothing_staged(entries: Seq<Entry>, path: PathNames, prefix_lookup: bool)
    requires
        forall|i: int|
            0 <= i < entries.len() && bears_on(#[trigger] entries[i], path, prefix_lookup)
                ==> staged_of(entries[i].1) == GitStatus::NotModified,
    ensures
        status_in(entries, path, prefix_lookup).staged == GitStatus::NotModified,
{
    lemma_named_flags_single();
    lemma_combined_has_flag(entries, path, prefix_lookup, INDEX_NEW);
    lemma_combined_has_flag(entries, path, prefix_lookup, INDEX_MODIFIED);
    lemma_combined_has_flag(entries, path, prefix_lookup, INDEX_DELETED);
    lemma_combined_has_flag(entries, path, prefix_lookup, INDEX_RENAMED);
    lemma_combined_has_flag(entries, path, prefix_lookup, INDEX_TYPECHANGE);
}

/// A path on which no entry bears has the status of an unknown path.
pub proof fn lemma_untouched_is_unknown(entries: Seq<Entry>, path: PathNames, prefix_lookup: bool)
    requires
        forall|i: int|
            0 <= i < entries.len() ==> !bears_on(#[trigger] entries[i], path, prefix_lookup),
    ensures
        combined(entries, path, prefix_lookup) == 0,
        status_in(entries, path, prefix_lookup) == Git::unknown(),
    decreases entries.len(),
{
    if entries.len() > 0 {
        let front = entries.drop_last();
        assert(forall|i: int| 0 <= i < front.len() ==> front[i] == entries[i]);
        lemma_untouched_is_unknown(front, path, prefix_lookup);
        assert(entries.last() == entries[entries.len() - 1]);
    }
    lemma_named_flags_single();
    lemma_empty_flags(0, INDEX_NEW);
    lemma_empty_flags(0, INDEX_MODIFIED);
    lemma_empty_flags(0, INDEX_DELETED);
    lemma_empty_flags(0, INDEX_RENAMED);
    lemma_empty_flags(0, INDEX_TYPECHANGE);
    lemma_empty_flags(0, WT_NEW);
    lemma_empty_flags(0, WT_MODIFIED);
    lemma_empty_flags(0, WT_DELETED);
    lemma_empty_flags(0, WT_RENAMED);
    lemma_empty_flags(0, WT_TYPECHANGE);
    lemma_empty_flags(0, IGNORED);
    lemma_empty_flags(0, crate::status::CONFLICTED);
}

} // verus!
