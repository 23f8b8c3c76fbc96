//! A per-invocation cache of Git statuses for the paths a file listing shows.

pub mod backend;
pub mod cache;
pub mod gitmodules;
pub mod index;
pub mod path;
pub mod repo;
pub mod status;
pub mod subdir;
