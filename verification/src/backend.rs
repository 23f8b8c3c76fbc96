//! The calls into `git2`.
//!
//! Nothing in this file is proved. Each function hands plain values to one
//! function of `git2` and hands plain values back. What a repository on disk
//! holds is not known to the proofs, so none of these functions promises
//! anything about its result: the functions that call them are verified for
//! every value that may come back.
//!
//! Paths cross this boundary by their components, and text that is not valid
//! UTF-8 is replaced as `String::from_utf8_lossy` does.

use crate::path::GitPath;
use crate::status::StatusFlags;
use crate::subdir::HeadError;
use vstd::prelude::*;

verus! {

/// `git2::Repository`, an open repository. The proofs see nothing inside it.
#[verifier::external_type_specification]
#[verifier::external_body]
pub struct ExRepository(git2::Repository);

/// `git2::Error`, the reason for which a call into `git2` failed. The proofs
/// see nothing inside it.
#[verifier::external_type_specification]
#[verifier::external_body]
pub struct ExError(git2::Error);

/// `git2::Config`, an open configuration file. The proofs see nothing inside
/// it.
#[verifier::external_type_specification]
#[verifier::external_body]
pub struct ExConfig(git2::Config);

/// Calls `git2::Repository::open_ext` on the path with the given bits as
/// flags and without ceiling directories. Nothing is claimed of the result.
#[verifier::external_body]
pub(crate) fn open_ext(path: &GitPath, flags: u32) -> (r: Result<git2::Repository, git2::Error>) {
    let place: std::path::PathBuf = path.parts.iter().collect();
    let flags = git2::RepositoryOpenFlags::from_bits_truncate(flags);
    git2::Repository::open_ext(place, flags, Vec::<String>::new())
}

/// Calls `git2::Repository::open` on the path. Nothing is claimed of the
/// result.
#[verifier::external_body]
pub(crate) fn open(path: &GitPath) -> (r: Result<git2::Repository, git2::Error>) {
    let place: std::path::PathBuf = path.parts.iter().collect();
    git2::Repository::open(place)
}

/// Calls `git2::Repository::workdir`: the working directory, or `None` for a
/// bare repository. Nothing is claimed of the result.
#[verifier::external_body]
pub(crate) fn workdir(repo: &git2::Repository) -> (r: Option<GitPath>) {
    let dir = repo.workdir()?;
    let parts = dir.components().map(|c| c.as_os_str().to_string_lossy().into_owned()).collect();
    Some(GitPath { parts })
}

/// Calls `git2::Repository::statuses` without options and hands out each
/// entry as its path, as Git gives it, and the bits of its status. Nothing is
/// claimed of the result.
#[verifier::external_body]
pub(crate) fn statuses(repo: &git2::Repository) -> (r: Result<
    Vec<(GitPath, StatusFlags)>,
    git2::Error,
>) {
    let list = repo.statuses(None)?;
    let plain = |e: git2::StatusEntry<'_>| {
        let text = String::from_utf8_lossy(e.path_bytes()).into_owned();
        let names = std::path::Path::new(&text).components();
        let parts = names.map(|c| c.as_os_str().to_string_lossy().into_owned()).collect();
        (GitPath { parts }, StatusFlags { bits: e.status().bits() })
    };
    Ok(list.iter().map(plain).collect())
}

/// Calls `git2::Config::open` on the file at the path. Nothing is claimed of
/// the result.
#[verifier::external_body]
pub(crate) fn config_open(file: &GitPath) -> (r: Result<git2::Config, git2::Error>) {
    let place: std::path::PathBuf = file.parts.iter().collect();
    git2::Config::open(&place)
}

/// Calls `git2::Config::entries` without a pattern and hands out the name of
/// each entry, as `git2::ConfigEntry::name_bytes` gives it. Nothing is
/// claimed of the result.
#[verifier::external_body]
pub(crate) fn config_entry_names(config: &git2::Config) -> (r: Result<Vec<String>, git2::Error>) {
    let mut names = Vec::new();
    let list = config.entries(None)?;
    list.for_each(|e| names.push(String::from_utf8_lossy(e.name_bytes()).into_owned()))?;
    Ok(names)
}

/// Calls `git2::Repository::find_submodule` with the name and hands out the
/// path of the submodule, as `git2::Submodule::path` gives it. Nothing is
/// claimed of the result.
#[verifier::external_body]
pub(crate) fn find_submodule_path(repo: &git2::Repository, name: &str) -> (r: Result<
    GitPath,
    git2::Error,
>) {
    let found = repo.find_submodule(name)?;
    let parts = found.path().components().map(|c| c.as_os_str().to_string_lossy().into_owned());
    Ok(GitPath { parts: parts.collect() })
}

/// Calls `git2::Repository::head` and hands out the short name of the
/// reference, as `git2::Reference::shorthand` gives it: `None` where that
/// name is not valid UTF-8. Nothing is claimed of the result.
#[verifier::external_body]
pub(crate) fn head_shorthand(repo: &git2::Repository) -> (r: Result<Option<String>, git2::Error>) {
    let head = repo.head()?;
    Ok(head.shorthand().map(|s| s.to_owned()))
}

/// Calls `git2::Error::code` and tells apart the two codes that stand for a
/// repository without a `HEAD` to resolve. Nothing is claimed of the result.
#[verifier::external_body]
pub(crate) fn head_error(e: &git2::Error) -> (r: HeadError) {
    match e.code() {
        git2::ErrorCode::UnbornBranch => HeadError::UnbornBranch,
        git2::ErrorCode::NotFound => HeadError::NotFound,
        _ => HeadError::Other,
    }
}

} // verus!
