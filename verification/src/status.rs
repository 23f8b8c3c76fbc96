//! Status flags of one path and their reduction to the two displayed axes.
//!
//! Git reports the state of a path as a set of independent flags: one group
//! compares the index with `HEAD` (the staged axis), one compares the working
//! tree with the index (the unstaged axis), and two more mark a path as
//! ignored or as conflicted. A listing shows one status per axis, so each
//! axis is reduced by a fixed waterfall: the first flag found in a fixed
//! order decides.

use vstd::prelude::*;

verus! {

/// The path is new in the index.
pub const INDEX_NEW: u32 = 0x0001;

/// The path is modified in the index.
pub const INDEX_MODIFIED: u32 = 0x0002;

/// The path is deleted from the index.
pub const INDEX_DELETED: u32 = 0x0004;

/// The path is renamed in the index.
pub const INDEX_RENAMED: u32 = 0x0008;

/// The path changed its type in the index.
pub const INDEX_TYPECHANGE: u32 = 0x0010;

/// The path is new in the working tree.
pub const WT_NEW: u32 = 0x0080;

/// The path is modified in the working tree.
pub const WT_MODIFIED: u32 = 0x0100;

/// The path is deleted from the working tree.
pub const WT_DELETED: u32 = 0x0200;

/// The path changed its type in the working tree.
pub const WT_TYPECHANGE: u32 = 0x0400;

/// The path is renamed in the working tree.
pub const WT_RENAMED: u32 = 0x0800;

/// The path is ignored.
pub const IGNORED: u32 = 0x4000;

/// The path is in conflict.
pub const CONFLICTED: u32 = 0x8000;

/// Whether `flag` names exactly one bit.
pub open spec fn is_single_flag(flag: u32) -> bool {
    flag != 0 && flag & ((flag - 1) as u32) == 0
}

/// Whether every bit of `wanted` is set in `bits`.
pub open spec fn has_flag(bits: u32, wanted: u32) -> bool {
    bits & wanted == wanted
}

/// A set of status flags, held as the bits that Git uses for them.
#[derive(Clone, Copy, Debug, PartialEq, Eq, Structural)]
pub struct StatusFlags {
    pub bits: u32,
}

impl StatusFlags {
    /// The empty set.
    pub fn empty() -> (r: StatusFlags)
        ensures
            r.bits == 0,
    {
        StatusFlags { bits: 0 }
    }

    /// The set with exactly the given bits.
    pub fn from_bits(bits: u32) -> (r: StatusFlags)
        ensures
            r.bits == bits,
    {
        StatusFlags { bits }
    }

    /// Whether every flag of `wanted` is in this set.
    pub fn contains(self, wanted: u32) -> (r: bool)
        ensures
            r == has_flag(self.bits, wanted),
    {
        self.bits & wanted == wanted
    }

    /// The flags that are in this set or in `other`.
    pub fn union(self, other: StatusFlags) -> (r: StatusFlags)
        ensures
            r.bits == self.bits | other.bits,
    {
        StatusFlags { bits: self.bits | other.bits }
    }

    /// Whether the set holds the ignored flag and nothing else.
    pub fn is_only_ignored(self) -> (r: bool)
        ensures
            r == (self.bits == IGNORED),
    {
        self.bits == IGNORED
    }
}

/// What a listing shows for one axis of a path.
#[derive(Clone, Copy, Debug, PartialEq, Eq, Structural)]
pub enum GitStatus {
    /// Nothing to report.
    NotModified,
    /// New on this axis.
    New,
    /// Modified on this axis.
    Modified,
    /// Deleted on this axis.
    Deleted,
    /// Renamed on this axis.
    Renamed,
    /// Changed its type on this axis.
    TypeChange,
    /// Ignored by Git.
    Ignored,
    /// In conflict.
    Conflicted,
}

/// The two statuses of a path: what is staged and what is not.
#[derive(Clone, Copy, Debug, PartialEq, Eq, Structural)]
pub struct Git {
    pub staged: GitStatus,
    pub unstaged: GitStatus,
}

impl Git {
    /// The status of a path about which no repository says anything.
    pub open spec fn unknown() -> Git {
        Git { staged: GitStatus::NotModified, unstaged: GitStatus::NotModified }
    }
}

impl Default for Git {
    fn default() -> (r: Git)
        ensures
            r == Git::unknown(),
    {
        Git { staged: GitStatus::NotModified, unstaged: GitStatus::NotModified }
    }
}

/// The unstaged status of a flag set: the first of new, modified, deleted,
/// renamed, type change, ignored and conflicted whose flag is set.
pub open spec fn unstaged_of(bits: u32) -> GitStatus {
    if has_flag(bits, WT_NEW) {
        GitStatus::New
    } else if has_flag(bits, WT_MODIFIED) {
        GitStatus::Modified
    } else if has_flag(bits, WT_DELETED) {
        GitStatus::Deleted
    } else if has_flag(bits, WT_RENAMED) {
        GitStatus::Renamed
    } else if has_flag(bits, WT_TYPECHANGE) {
        GitStatus::TypeChange
    } else if has_flag(bits, IGNORED) {
        GitStatus::Ignored
    } else if has_flag(bits, CONFLICTED) {
        GitStatus::Conflicted
    } else {
        GitStatus::NotModified
    }
}

/// The staged status of a flag set: the first of new, modified, deleted,
/// renamed and type change whose index flag is set. Ignored and conflicted
/// do not show on this axis.
pub open spec fn staged_of(bits: u32) -> GitStatus {
    if has_flag(bits, INDEX_NEW) {
        GitStatus::New
    } else if has_flag(bits, INDEX_MODIFIED) {
        GitStatus::Modified
    } else if has_flag(bits, INDEX_DELETED) {
        GitStatus::Deleted
    } else if has_flag(bits, INDEX_RENAMED) {
        GitStatus::Renamed
    } else if has_flag(bits, INDEX_TYPECHANGE) {
        GitStatus::TypeChange
    } else {
        GitStatus::NotModified
    }
}

/// Both axes of a flag set.
pub open spec fn git_of(bits: u32) -> Git {
    Git { staged: staged_of(bits), unstaged: unstaged_of(bits) }
}

/// The status to show for changes that are not staged.
pub fn working_tree_status(status: StatusFlags) -> (r: GitStatus)
    ensures
        r == unstaged_of(status.bits),
{
    if status.contains(WT_NEW) {
        GitStatus::New
    } else if status.contains(WT_MODIFIED) {
        GitStatus::Modified
    } else if status.contains(WT_DELETED) {
        GitStatus::Deleted
    } else if status.contains(WT_RENAMED) {
        GitStatus::Renamed
    } else if status.contains(WT_TYPECHANGE) {
        GitStatus::TypeChange
    } else if status.contains(IGNORED) {
        GitStatus::Ignored
    } else if status.contains(CONFLICTED) {
        GitStatus::Conflicted
    } else {
        GitStatus::NotModified
    }
}

/// The status to show for changes that are staged.
pub fn index_status(status: StatusFlags) -> (r: GitStatus)
    ensures
        r == staged_of(status.bits),
{
    if status.contains(INDEX_NEW) {
        GitStatus::New
    } else if status.contains(INDEX_MODIFIED) {
        GitStatus::Modified
    } else if status.contains(INDEX_DELETED) {
        GitStatus::Deleted
    } else if status.contains(INDEX_RENAMED) {
        GitStatus::Renamed
    } else if status.contains(INDEX_TYPECHANGE) {
        GitStatus::TypeChange
    } else {
        GitStatus::NotModified
    }
}

/// A single flag is in a union exactly when it is in one of the two sets.
pub proof fn lemma_union_has_flag(a: u32, b: u32, flag: u32)
    requires
        is_single_flag(flag),
    ensures
        has_flag(a | b, flag) <==> has_flag(a, flag) || has_flag(b, flag),
{
    assert(flag != 0 && flag & ((flag - 1) as u32) == 0 ==> ((a | b) & flag == flag <==> (a & flag
        == flag || b & flag == flag))) by (bit_vector);
}

/// Adding the empty set changes nothing, and the empty set holds no flag.
pub proof fn lemma_empty_flags(a: u32, flag: u32)
    ensures
        a | 0 == a,
        0 | a == a,
        flag != 0 ==> !has_flag(0, flag),
{
    assert(a | 0 == a) by (bit_vector);
    assert(0 | a == a) by (bit_vector);
    assert(flag != 0 ==> 0u32 & flag != flag) by (bit_vector);
}

/// Each named flag is a single bit.
pub proof fn lemma_named_flags_single()
    ensures
        is_single_flag(INDEX_NEW),
        is_single_flag(INDEX_MODIFIED),
        is_single_flag(INDEX_DELETED),
        is_single_flag(INDEX_RENAMED),
        is_single_flag(INDEX_TYPECHANGE),
        is_single_flag(WT_NEW),
        is_single_flag(WT_MODIFIED),
        is_single_flag(WT_DELETED),
        is_single_flag(WT_TYPECHANGE),
        is_single_flag(WT_RENAMED),
        is_single_flag(IGNORED),
        is_single_flag(CONFLICTED),
{
    assert(0x0001u32 & 0x0000u32 == 0) by (bit_vector);
    assert(0x0002u32 & 0x0001u32 == 0) by (bit_vector);
    assert(0x0004u32 & 0x0003u32 == 0) by (bit_vector);
    assert(0x0008u32 & 0x0007u32 == 0) by (bit_vector);
    assert(0x0010u32 & 0x000fu32 == 0) by (bit_vector);
    assert(0x0080u32 & 0x007fu32 == 0) by (bit_vector);
    assert(0x0100u32 & 0x00ffu32 == 0) by (bit_vector);
    assert(0x0200u32 & 0x01ffu32 == 0) by (bit_vector);
    assert(0x0400u32 & 0x03ffu32 == 0) by (bit_vector);
    assert(0x0800u32 & 0x07ffu32 == 0) by (bit_vector);
    assert(0x4000u32 & 0x3fffu32 == 0) by (bit_vector);
    assert(0x8000u32 & 0x7fffu32 == 0) by (bit_vector);
}

} // verus!
