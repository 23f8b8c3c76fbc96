use gitcache::cache::GitCache;
use gitcache::path::{GitPath, Resolution};
use gitcache::repo::{GitRepo, OPEN_FROM_ENV, OPEN_NO_DOTGIT, OPEN_NO_SEARCH};
use gitcache::status::GitStatus;
use std::path::Path;

fn path(text: &str) -> GitPath {
    GitPath::new(
        Path::new(text).components().map(|c| c.as_os_str().to_string_lossy().into_owned()).collect(),
    )
}

fn text(path: &GitPath) -> String {
    let joined: std::path::PathBuf = path.parts.iter().collect();
    joined.to_string_lossy().into_owned()
}

fn nowhere() -> Resolution {
    Resolution { cwd: None, canonical: None }
}

/// A directory of its own for one test.
fn scratch(name: &str) -> String {
    let now = std::time::SystemTime::now().duration_since(std::time::UNIX_EPOCH).unwrap();
    format!("/tmp/gitcache_tests/{}_{}", name, now.as_nanos())
}

/// Puts a file with this content into the index.
fn stage(repo: &git2::Repository, name: &str, content: &[u8]) {
    let entry = git2::IndexEntry {
        ctime: git2::IndexTime::new(0, 0),
        mtime: git2::IndexTime::new(0, 0),
        dev: 0,
        ino: 0,
        mode: 0o100644,
        uid: 0,
        gid: 0,
        file_size: 0,
        id: git2::Oid::zero(),
        flags: 0,
        flags_extended: 0,
        path: name.as_bytes().to_vec(),
    };
    let mut index = repo.index().unwrap();
    index.add_frombuffer(&entry, content).unwrap();
    index.write().unwrap();
}

/// Takes a file out of the index and leaves it on disk.
fn unstage(repo: &git2::Repository, name: &str) {
    let mut index = repo.index().unwrap();
    index.remove_path(Path::new(name)).unwrap();
    index.write().unwrap();
}

/// Writes what the index holds to the working directory.
fn write_out(repo: &git2::Repository) {
    let mut how = git2::build::CheckoutBuilder::new();
    how.force();
    repo.checkout_index(None, Some(&mut how)).unwrap();
}

/// Commits what the index holds.
fn commit(repo: &git2::Repository) {
    let mut index = repo.index().unwrap();
    let tree = repo.find_tree(index.write_tree().unwrap()).unwrap();
    let who = git2::Signature::new("tester", "tester@example.com", &git2::Time::new(0, 0)).unwrap();
    match repo.head() {
        Ok(head) => {
            let parent = head.peel_to_commit().unwrap();
            repo.commit(Some("HEAD"), &who, &who, "more", &tree, &[&parent]).unwrap();
        }
        Err(_) => {
            repo.commit(Some("HEAD"), &who, &who, "first", &tree, &[]).unwrap();
        }
    }
}

/// A repository with one committed file `a.txt` that was changed on disk
/// since, and two directories `sub1` and `sub2` with a clean file each.
fn modified_repository(name: &str) -> (String, git2::Repository) {
    let root = scratch(name);
    let repo = git2::Repository::init(&root).unwrap();
    stage(&repo, "a.txt", b"on disk\n");
    stage(&repo, "sub1/one.txt", b"one\n");
    stage(&repo, "sub2/two.txt", b"two\n");
    write_out(&repo);
    stage(&repo, "a.txt", b"committed\n");
    commit(&repo);
    let workdir = text(&path(&repo.workdir().unwrap().to_string_lossy()));
    (workdir, repo)
}

#[test]
fn open_flags_are_those_of_git() {
    assert_eq!(OPEN_NO_SEARCH, git2::RepositoryOpenFlags::NO_SEARCH.bits());
    assert_eq!(OPEN_NO_DOTGIT, git2::RepositoryOpenFlags::NO_DOTGIT.bits());
    assert_eq!(OPEN_FROM_ENV, git2::RepositoryOpenFlags::FROM_ENV.bits());
}

#[test]
fn a_cache_of_nothing_answers_nothing() {
    let mut cache = GitCache::from_iter(Vec::new(), None);
    assert_eq!(cache.repo_count(), 0);
    assert_eq!(cache.miss_count(), 0);
    assert!(!cache.has_anything_for(&path("/no/such/place")));
    let git = cache.get(&path("/no/such/place"), false, &nowhere());
    assert_eq!(git.staged, GitStatus::NotModified);
    assert_eq!(git.unstaged, GitStatus::NotModified);
    assert!(!cache.has_in_submodule(&path("/no/such/place")));
}

#[test]
fn a_path_without_repository_is_a_miss() {
    let gone = path("/tmp/gitcache_tests/no_such_directory/at/all");
    let mut cache = GitCache::from_iter(vec![gone.clone(), gone.clone()], None);
    assert_eq!(cache.repo_count(), 0);
    assert_eq!(cache.miss_count(), 1);
    assert!(cache.is_miss(&gone));
    assert!(!cache.has_anything_for(&gone));
    let git = cache.get(&gone, true, &nowhere());
    assert_eq!(git.staged, GitStatus::NotModified);
    assert_eq!(git.unstaged, GitStatus::NotModified);
    assert!(!cache.has_in_submodule(&gone));
}

#[test]
fn scenario_one_modified_file() {
    let (root, _repo) = modified_repository("modified");
    let mut cache = GitCache::from_iter(vec![path(&root)], None);
    assert_eq!(cache.repo_count(), 1);
    assert_eq!(cache.miss_count(), 0);
    assert!(!cache.repo(0).unwrap().has_statuses());

    let file = cache.get(&path(&format!("{}/a.txt", root)), false, &nowhere());
    assert_eq!(file.staged, GitStatus::NotModified);
    assert_eq!(file.unstaged, GitStatus::Modified);
    assert!(cache.repo(0).unwrap().has_statuses());

    let dir = cache.get(&path(&root), true, &nowhere());
    assert_eq!(dir.staged, GitStatus::NotModified);
    assert_eq!(dir.unstaged, GitStatus::Modified);

    let other = cache.get(&path(&format!("{}/b.txt", root)), false, &nowhere());
    assert_eq!(other.staged, GitStatus::NotModified);
    assert_eq!(other.unstaged, GitStatus::NotModified);

    let clean = cache.get(&path(&format!("{}/sub1", root)), true, &nowhere());
    assert_eq!(clean.staged, GitStatus::NotModified);
    assert_eq!(clean.unstaged, GitStatus::NotModified);
}

#[test]
fn a_path_outside_every_repository_is_unknown() {
    let (root, _repo) = modified_repository("outside");
    let mut cache = GitCache::from_iter(vec![path(&format!("{}/sub1", root))], None);
    assert_eq!(cache.repo_count(), 1);
    // The changed file lies in the repository, but not below the path that
    // led to it, so the cache does not answer for it.
    let file = path(&format!("{}/a.txt", root));
    assert!(!cache.has_anything_for(&file));
    let git = cache.get(&file, false, &nowhere());
    assert_eq!((git.staged, git.unstaged), (GitStatus::NotModified, GitStatus::NotModified));
    let git = cache.get(&path(&root), true, &nowhere());
    assert_eq!((git.staged, git.unstaged), (GitStatus::NotModified, GitStatus::NotModified));
    assert!(!cache.repo(0).unwrap().has_statuses());
    assert!(!cache.has_in_submodule(&file));
    assert!(!cache.repo(0).unwrap().has_submodules());
}

#[test]
fn asking_again_gives_the_same_answer() {
    let (root, repo) = modified_repository("again");
    let mut cache = GitCache::from_iter(vec![path(&root)], None);
    let file = path(&format!("{}/a.txt", root));
    let first = cache.get(&file, false, &nowhere());
    assert_eq!(first.unstaged, GitStatus::Modified);
    // What changes in the repository after the first query is not seen:
    // the statuses were asked for once and are kept.
    stage(&repo, "a.txt", b"on disk\n");
    let second = cache.get(&file, false, &nowhere());
    assert_eq!(second, first);
    let mut late = GitCache::from_iter(vec![path(&root)], None);
    let seen = late.get(&file, false, &nowhere());
    assert_eq!(seen.unstaged, GitStatus::NotModified);
    assert_eq!(seen.staged, GitStatus::Modified);
}

#[test]
fn scenario_two_paths_one_repository() {
    let (root, _repo) = modified_repository("shared");
    let sub1 = path(&format!("{}/sub1", root));
    let sub2 = path(&format!("{}/sub2", root));
    let cache = GitCache::from_iter(vec![sub1.clone(), sub2.clone()], None);
    assert_eq!(cache.repo_count(), 1);
    assert_eq!(cache.miss_count(), 0);
    let repo = cache.repo(0).unwrap();
    assert!(repo.has_workdir(&path(&root)));
    assert_eq!(repo.original_path().parts, sub1.parts);
    assert_eq!(repo.extra_paths().len(), 1);
    assert_eq!(repo.extra_paths()[0].parts, sub2.parts);
    assert!(repo.has_path(&sub1));
    assert!(repo.has_path(&sub2));
    assert!(repo.has_path(&path(&format!("{}/sub2/two.txt", root))));
    assert!(!repo.has_path(&path(&root)));
    assert!(!repo.has_path(&path(&format!("{}/sub12", root))));
    assert!(cache.has_anything_for(&sub2));
    assert!(!cache.has_anything_for(&path(&format!("{}/a.txt", root))));
}

#[test]
fn a_path_below_a_known_one_is_not_searched_again() {
    let (root, _repo) = modified_repository("below");
    let top = path(&root);
    let below = path(&format!("{}/sub1", root));
    let cache = GitCache::from_iter(vec![top.clone(), below, top.clone()], None);
    assert_eq!(cache.repo_count(), 1);
    assert_eq!(cache.repo(0).unwrap().extra_paths().len(), 0);
    assert_eq!(cache.repo(0).unwrap().original_path().parts, top.parts);
}

#[test]
fn new_ignored_and_deleted_files() {
    let root = scratch("kinds");
    let repo = git2::Repository::init(&root).unwrap();
    stage(&repo, ".gitignore", b"build/\n");
    stage(&repo, "gone.txt", b"gone\n");
    commit(&repo);
    stage(&repo, "dir/new.txt", b"new\n");
    stage(&repo, "dir/old.txt", b"old\n");
    stage(&repo, "build/out/made.txt", b"made\n");
    write_out(&repo);
    unstage(&repo, "dir/new.txt");
    unstage(&repo, "build/out/made.txt");
    unstage(&repo, "gone.txt");
    stage(&repo, "gone.txt", b"gone\n");
    let workdir = text(&path(&repo.workdir().unwrap().to_string_lossy()));
    let mut cache = GitCache::from_iter(vec![path(&workdir)], None);
    let at = |name: &str| path(&format!("{}/{}", workdir, name));

    let new = cache.get(&at("dir/new.txt"), false, &nowhere());
    assert_eq!(new.unstaged, GitStatus::New);
    assert_eq!(new.staged, GitStatus::NotModified);

    let old = cache.get(&at("dir/old.txt"), false, &nowhere());
    assert_eq!(old.unstaged, GitStatus::NotModified);
    assert_eq!(old.staged, GitStatus::New);

    // The directory gathers both files: new below it, and new in the index.
    let dir = cache.get(&at("dir"), true, &nowhere());
    assert_eq!(dir.unstaged, GitStatus::New);
    assert_eq!(dir.staged, GitStatus::New);

    // What lies in an ignored directory is ignored, with no entry of its own.
    let made = cache.get(&at("build/out/made.txt"), false, &nowhere());
    assert_eq!(made.unstaged, GitStatus::Ignored);
    let out = cache.get(&at("build/out"), true, &nowhere());
    assert_eq!(out.unstaged, GitStatus::Ignored);

    // The repository's own directory counts as ignored.
    let own = cache.get(&at(".git/config"), false, &nowhere());
    assert_eq!(own.unstaged, GitStatus::Ignored);

    // The directory above what is ignored is not ignored for that.
    let top = cache.get(&at(""), true, &nowhere());
    assert_eq!(top.unstaged, GitStatus::New);
}

#[test]
fn discover_from_below_and_at_the_repository() {
    let (root, _repo) = modified_repository("discover");
    let below = path(&format!("{}/sub1", root));
    let found = GitRepo::discover(below.clone(), OPEN_FROM_ENV);
    let found = match found {
        Ok(found) => found,
        Err(_) => panic!("there is a repository above sub1"),
    };
    assert!(found.has_workdir(&path(&root)));
    assert_eq!(found.workdir().parts, path(&root).parts);
    assert_eq!(found.original_path().parts, below.parts);
    assert!(!found.has_statuses());
    assert!(!found.has_submodules());

    // Without a search the path has to be the repository's own directory.
    let own = path(&format!("{}/.git", root));
    assert!(GitRepo::discover(own, OPEN_NO_SEARCH | OPEN_NO_DOTGIT).is_ok());
    match GitRepo::discover(below.clone(), OPEN_NO_SEARCH | OPEN_NO_DOTGIT) {
        Ok(_) => panic!("sub1 is no repository"),
        Err(miss) => assert_eq!(miss.parts, below.parts),
    }
}

#[test]
fn a_bare_repository_is_a_miss() {
    let root = scratch("bare");
    git2::Repository::init_bare(&root).unwrap();
    match GitRepo::discover(path(&root), OPEN_FROM_ENV) {
        Ok(_) => panic!("a bare repository has no working directory"),
        Err(miss) => assert_eq!(miss.parts, path(&root).parts),
    }
    let cache = GitCache::from_iter(vec![path(&root)], None);
    assert_eq!(cache.repo_count(), 0);
    assert_eq!(cache.miss_count(), 1);
}

#[test]
fn the_named_repository_comes_first() {
    let (root, _repo) = modified_repository("named");
    let own = path(&format!("{}/.git", root));
    let mut cache = GitCache::from_iter(vec![path(&root)], Some(own.clone()));
    // The repository is found from its own directory, and the root of its
    // working directory, which is not below that, leads to it once more.
    assert_eq!(cache.repo_count(), 1);
    let repo = cache.repo(0).unwrap();
    assert_eq!(repo.original_path().parts, own.parts);
    assert_eq!(repo.extra_paths().len(), 1);
    let file = cache.get(&path(&format!("{}/a.txt", root)), false, &nowhere());
    assert_eq!(file.unstaged, GitStatus::Modified);

    let missing = path(&format!("{}/sub1", root));
    let cache = GitCache::from_iter(Vec::new(), Some(missing.clone()));
    assert_eq!(cache.repo_count(), 0);
    assert!(cache.is_miss(&missing));
}

#[test]
fn submodules_of_a_repository_on_disk() {
    let (root, repo) = modified_repository("submodules");
    repo.submodule("https://example.invalid/lib.git", Path::new("vendor/lib"), true).unwrap();
    let mut cache = GitCache::from_iter(vec![path(&root)], None);
    assert!(!cache.repo(0).unwrap().has_submodules());
    assert!(cache.has_in_submodule(&path(&format!("{}/vendor/lib/src/x.rs", root))));
    assert!(cache.repo(0).unwrap().has_submodules());
    assert!(cache.has_in_submodule(&path(&format!("{}/vendor/lib", root))));
    assert!(!cache.has_in_submodule(&path(&format!("{}/vendor/other", root))));
    assert!(!cache.has_in_submodule(&path(&format!("{}/vendor", root))));
    assert!(!cache.has_in_submodule(&path(&format!("{}/sub1/one.txt", root))));
    assert!(!cache.has_in_submodule(&path("/elsewhere/vendor/lib")));
}

#[test]
fn a_repository_without_submodules() {
    let (root, _repo) = modified_repository("plain");
    let mut cache = GitCache::from_iter(vec![path(&root)], None);
    assert!(!cache.has_in_submodule(&path(&format!("{}/sub1/one.txt", root))));
    let repo = cache.repo(0).unwrap();
    assert!(repo.has_submodules());
    assert!(!repo.submodules_failed());
}

#[test]
fn a_declared_name_that_is_no_submodule_fails_the_listing() {
    let (root, repo) = modified_repository("ghost");
    repo.submodule("https://example.invalid/lib.git", Path::new("vendor/lib"), true).unwrap();
    stage(&repo, ".gitmodules", b"[submodule \"ghost\"]\n\tshape = none\n");
    write_out(&repo);
    let mut cache = GitCache::from_iter(vec![path(&root)], None);
    assert!(!cache.has_in_submodule(&path(&format!("{}/ghost/x", root))));
    assert!(!cache.has_in_submodule(&path(&format!("{}/vendor/lib/x", root))));
    let repo = cache.repo(0).unwrap();
    assert!(repo.has_submodules());
    assert!(repo.submodules_failed());
}

#[test]
fn a_submodule_declared_by_its_address_alone() {
    let (root, repo) = modified_repository("address");
    stage(&repo, ".gitmodules", b"[submodule \"vendor/kit\"]\n\turl = https://example.invalid/kit.git\n");
    write_out(&repo);
    let mut cache = GitCache::from_iter(vec![path(&root)], None);
    assert!(cache.has_in_submodule(&path(&format!("{}/vendor/kit/x", root))));
    assert!(!cache.has_in_submodule(&path(&format!("{}/vendor/kit2", root))));
    assert!(!cache.repo(0).unwrap().submodules_failed());
}

#[test]
fn two_submodules_with_names_unlike_their_places() {
    let (root, repo) = modified_repository("named_modules");
    let text = b"[submodule \"one.two\"]\n\tpath = deps/one\n\turl = https://example.invalid/one.git\n\
[submodule \"other\"]\n\tpath = deps/other\n\turl = https://example.invalid/other.git\n";
    stage(&repo, ".gitmodules", text);
    write_out(&repo);
    let mut cache = GitCache::from_iter(vec![path(&root)], None);
    assert!(cache.has_in_submodule(&path(&format!("{}/deps/one/src", root))));
    assert!(cache.has_in_submodule(&path(&format!("{}/deps/other", root))));
    assert!(!cache.has_in_submodule(&path(&format!("{}/one.two", root))));
    assert!(!cache.has_in_submodule(&path(&format!("{}/deps", root))));
}

#[test]
fn misses_can_be_read_back() {
    let first = path("/tmp/gitcache_tests/no_such_directory/one");
    let second = path("/tmp/gitcache_tests/no_such_directory/two");
    let cache = GitCache::from_iter(vec![first.clone(), second.clone(), first.clone()], None);
    assert_eq!(cache.miss_count(), 2);
    assert_eq!(cache.miss(0).unwrap().parts, first.parts);
    assert_eq!(cache.miss(1).unwrap().parts, second.parts);
    assert!(cache.miss(2).is_none());
}

#[test]
fn a_scan_that_works_has_not_failed() {
    let (root, _repo) = modified_repository("scanned");
    let mut cache = GitCache::from_iter(vec![path(&root)], None);
    assert!(!cache.repo(0).unwrap().scan_failed());
    cache.get(&path(&root), true, &nowhere());
    assert!(cache.repo(0).unwrap().has_statuses());
    assert!(!cache.repo(0).unwrap().scan_failed());
}
