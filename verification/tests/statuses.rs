use gitcache::index::GitStatuses;
use gitcache::path::{GitPath, Resolution};
use gitcache::status::{
    GitStatus, StatusFlags, CONFLICTED, IGNORED, INDEX_MODIFIED, INDEX_NEW, WT_DELETED,
    WT_MODIFIED, WT_NEW,
};
use std::path::Path;

fn path(text: &str) -> GitPath {
    GitPath::new(
        Path::new(text).components().map(|c| c.as_os_str().to_string_lossy().into_owned()).collect(),
    )
}

fn nowhere() -> Resolution {
    Resolution { cwd: None, canonical: None }
}

fn scan(workdir: &str, found: &[(&str, u32)]) -> GitStatuses {
    let found = found.iter().map(|(name, bits)| (path(name), StatusFlags::from_bits(*bits))).collect();
    GitStatuses::from_scan(&path(workdir), Ok(found))
}

fn text(path: &GitPath) -> String {
    let joined: std::path::PathBuf = path.parts.iter().collect();
    joined.to_string_lossy().into_owned()
}

#[test]
fn a_scan_is_placed_under_the_working_directory() {
    let statuses = scan("/repo", &[("a.txt", WT_MODIFIED), ("dir/b.txt", INDEX_NEW | WT_DELETED)]);
    assert_eq!(statuses.len(), 3);
    let first = statuses.entry(0).unwrap();
    assert_eq!(text(&first.0), "/repo/a.txt");
    assert_eq!(first.1.bits, WT_MODIFIED);
    let second = statuses.entry(1).unwrap();
    assert_eq!(text(&second.0), "/repo/dir/b.txt");
    assert_eq!(second.1.bits, INDEX_NEW | WT_DELETED);
    let own = statuses.entry(2).unwrap();
    assert_eq!(text(&own.0), "/repo/.git");
    assert_eq!(own.1.bits, IGNORED);
    assert!(statuses.entry(3).is_none());
}

#[test]
fn an_empty_scan_still_ignores_the_repository_itself() {
    let statuses = scan("/repo", &[]);
    assert_eq!(statuses.len(), 1);
    let inside = statuses.file_status(&path("/repo/.git/HEAD"), &nowhere());
    assert_eq!(inside.unstaged, GitStatus::Ignored);
    assert_eq!(inside.staged, GitStatus::NotModified);
    let own = statuses.dir_status(&path("/repo/.git"), &nowhere());
    assert_eq!(own.unstaged, GitStatus::Ignored);
    let top = statuses.dir_status(&path("/repo"), &nowhere());
    assert_eq!(top.unstaged, GitStatus::NotModified);
}

#[test]
fn a_failed_scan_leaves_nothing() {
    let statuses = GitStatuses::from_scan(&path("/repo"), Err(git2::Error::from_str("no index")));
    assert_eq!(statuses.len(), 0);
    let any = statuses.status(&path("/repo/.git"), false, &nowhere());
    assert_eq!(any.unstaged, GitStatus::NotModified);
    assert_eq!(any.staged, GitStatus::NotModified);
}

#[test]
fn scenario_one_modified_entry() {
    let statuses = scan("/repo", &[("a.txt", WT_MODIFIED)]);
    let file = statuses.status(&path("/repo/a.txt"), false, &nowhere());
    assert_eq!((file.staged, file.unstaged), (GitStatus::NotModified, GitStatus::Modified));
    let dir = statuses.status(&path("/repo"), true, &nowhere());
    assert_eq!((dir.staged, dir.unstaged), (GitStatus::NotModified, GitStatus::Modified));
    let other = statuses.status(&path("/repo/b.txt"), false, &nowhere());
    assert_eq!((other.staged, other.unstaged), (GitStatus::NotModified, GitStatus::NotModified));
}

#[test]
fn status_picks_the_kind_of_query() {
    let statuses = scan("/repo", &[("dir/a.txt", WT_NEW)]);
    let dir = path("/repo/dir");
    assert_eq!(statuses.status(&dir, true, &nowhere()), statuses.dir_status(&dir, &nowhere()));
    assert_eq!(statuses.status(&dir, false, &nowhere()), statuses.file_status(&dir, &nowhere()));
    assert_eq!(statuses.dir_status(&dir, &nowhere()).unstaged, GitStatus::New);
    assert_eq!(statuses.file_status(&dir, &nowhere()).unstaged, GitStatus::NotModified);
}

#[test]
fn a_directory_gathers_what_lies_in_it() {
    let statuses = scan("/repo", &[("dir/a.txt", WT_NEW), ("dir/b.txt", WT_MODIFIED)]);
    let dir = statuses.dir_status(&path("/repo/dir"), &nowhere());
    assert_eq!(dir.unstaged, GitStatus::New);
    assert_eq!(dir.staged, GitStatus::NotModified);
    let b = statuses.file_status(&path("/repo/dir/b.txt"), &nowhere());
    assert_eq!(b.unstaged, GitStatus::Modified);
    let reversed = scan("/repo", &[("dir/b.txt", WT_MODIFIED), ("dir/a.txt", WT_NEW)]);
    assert_eq!(reversed.dir_status(&path("/repo/dir"), &nowhere()).unstaged, GitStatus::New);
}

#[test]
fn a_directory_gathers_staged_changes_too() {
    let statuses = scan("/repo", &[("dir/a.txt", INDEX_MODIFIED), ("dir/deep/b.txt", INDEX_NEW | WT_DELETED)]);
    let dir = statuses.dir_status(&path("/repo/dir"), &nowhere());
    assert_eq!(dir.staged, GitStatus::New);
    assert_eq!(dir.unstaged, GitStatus::Deleted);
}

#[test]
fn a_directory_does_not_gather_from_beside_it() {
    let statuses = scan("/repo", &[("dir2/a.txt", WT_NEW), ("dir.txt", WT_MODIFIED)]);
    let dir = statuses.dir_status(&path("/repo/dir"), &nowhere());
    assert_eq!(dir.unstaged, GitStatus::NotModified);
}

#[test]
fn ignored_reaches_down() {
    let statuses = scan("/repo", &[("target", IGNORED)]);
    let child = statuses.file_status(&path("/repo/target/debug/out"), &nowhere());
    assert_eq!(child.unstaged, GitStatus::Ignored);
    assert_eq!(child.staged, GitStatus::NotModified);
    let below = statuses.dir_status(&path("/repo/target/debug"), &nowhere());
    assert_eq!(below.unstaged, GitStatus::Ignored);
    let itself = statuses.dir_status(&path("/repo/target"), &nowhere());
    assert_eq!(itself.unstaged, GitStatus::Ignored);
}

#[test]
fn ignored_does_not_reach_up() {
    let statuses = scan("/repo", &[("dir/target", IGNORED)]);
    let parent = statuses.dir_status(&path("/repo/dir"), &nowhere());
    assert_eq!(parent.unstaged, GitStatus::NotModified);
    let top = statuses.dir_status(&path("/repo"), &nowhere());
    assert_eq!(top.unstaged, GitStatus::NotModified);
    let beside = statuses.file_status(&path("/repo/dir/target2"), &nowhere());
    assert_eq!(beside.unstaged, GitStatus::NotModified);
}

#[test]
fn ignored_with_another_flag_counts_for_the_path_itself_only() {
    let statuses = scan("/repo", &[("odd", IGNORED | CONFLICTED)]);
    let itself = statuses.file_status(&path("/repo/odd"), &nowhere());
    assert_eq!(itself.unstaged, GitStatus::Ignored);
    let child = statuses.file_status(&path("/repo/odd/x"), &nowhere());
    assert_eq!(child.unstaged, GitStatus::NotModified);
    let parent = statuses.dir_status(&path("/repo"), &nowhere());
    assert_eq!(parent.unstaged, GitStatus::Ignored);
}

#[test]
fn a_change_in_the_working_tree_shows_before_ignored() {
    let statuses = scan("/repo", &[("target", IGNORED), ("target/kept.txt", WT_MODIFIED)]);
    let kept = statuses.file_status(&path("/repo/target/kept.txt"), &nowhere());
    assert_eq!(kept.unstaged, GitStatus::Modified);
}

#[test]
fn a_query_goes_by_the_reoriented_path() {
    let statuses = scan("/repo", &[("a.txt", WT_MODIFIED)]);
    let inside = Resolution { cwd: Some(path("/repo")), canonical: None };
    assert_eq!(statuses.file_status(&path("a.txt"), &inside).unstaged, GitStatus::Modified);
    assert_eq!(statuses.file_status(&path("./a.txt"), &inside).unstaged, GitStatus::Modified);
    let elsewhere = Resolution { cwd: Some(path("/home")), canonical: None };
    assert_eq!(statuses.file_status(&path("a.txt"), &elsewhere).unstaged, GitStatus::NotModified);
    let linked = Resolution { cwd: Some(path("/home")), canonical: Some(path("/repo/a.txt")) };
    assert_eq!(statuses.file_status(&path("link"), &linked).unstaged, GitStatus::Modified);
    let lost = Resolution { cwd: None, canonical: None };
    assert_eq!(statuses.file_status(&path("a.txt"), &lost).unstaged, GitStatus::NotModified);
}
