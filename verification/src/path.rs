//! Paths as sequences of names.
//!
//! A path is held as the list of its components, in the order in which
//! `std::path::Path::components` yields them: the root, where there is one,
//! is the name `/` in first place; a leading `.` and every `..` are names
//! like any other. Two paths are the same when their names are the same, and
//! one path lies under another when the other's names are the first of its
//! own, so a prefix always ends at the boundary of a component.

use vstd::prelude::*;
use vstd::string::StringExecFns;

verus! {

/// The names of a path.
pub type PathNames = Seq<Seq<char>>;

/// The name of the root.
pub open spec fn root_name() -> Seq<char> {
    seq!['/']
}

/// The name of the directory itself.
pub open spec fn here_name() -> Seq<char> {
    seq!['.']
}

/// Whether the names of `base` are the first names of `path`.
pub open spec fn is_under(path: PathNames, base: PathNames) -> bool {
    base.len() <= path.len() && path.subrange(0, base.len() as int) == base
}

/// Whether the path starts at the root.
pub open spec fn is_rooted(path: PathNames) -> bool {
    path.len() > 0 && path[0] == root_name()
}

/// `rel` placed under `base`: a rooted `rel` stands for itself, as does any
/// `rel` under an empty `base`; otherwise the names of `rel` follow those of
/// `base`, without the leading `.` if `rel` has one.
pub open spec fn joined(base: PathNames, rel: PathNames) -> PathNames {
    if is_rooted(rel) || base.len() == 0 {
        rel
    } else if rel.len() > 0 && rel[0] == here_name() {
        base + rel.skip(1)
    } else {
        base + rel
    }
}

/// The path made absolute: under the current directory, or under `.` where
/// the current directory is not known.
pub open spec fn absolute_of(path: PathNames, cwd: Option<PathNames>) -> PathNames {
    match cwd {
        Some(dir) => joined(dir, path),
        None => joined(seq![here_name()], path),
    }
}

/// The form in which a path is compared with the entries of a repository:
/// its canonical form where the file system gave one, else the path made
/// absolute.
pub open spec fn reoriented(path: PathNames, fs: ResolutionView) -> PathNames {
    match fs.canonical {
        Some(resolved) => resolved,
        None => absolute_of(path, fs.cwd),
    }
}

/// A path, as the list of its components.
#[derive(Debug)]
pub struct GitPath {
    pub parts: Vec<String>,
}

/// The names of a path that may be missing.
pub open spec fn names_of(path: Option<GitPath>) -> Option<PathNames> {
    match path {
        Some(given) => Some(given@),
        None => None,
    }
}

/// A path that does not start at the root lies under the path that it is
/// placed under.
pub proof fn lemma_joined_under(base: PathNames, rel: PathNames)
    requires
        !is_rooted(rel),
    ensures
        is_under(joined(base, rel), base),
{
    assert(joined(base, rel).subrange(0, base.len() as int) =~= base);
}

/// A path is at or below itself.
pub proof fn lemma_under_itself(path: PathNames)
    ensures
        is_under(path, path),
{
    assert(path.subrange(0, path.len() as int) =~= path);
}

impl View for GitPath {
    type V = PathNames;

    open spec fn view(&self) -> PathNames {
        Seq::new(self.parts@.len(), |i: int| self.parts@[i]@)
    }
}

impl Clone for GitPath {
    fn clone(&self) -> (r: GitPath)
        ensures
            r@ == self@,
    {
        let mut parts: Vec<String> = Vec::new();
        let mut i: usize = 0;
        while i < self.parts.len()
            invariant
                i <= self.parts.len(),
                parts@.len() == i,
                forall|k: int| 0 <= k < i ==> parts@[k]@ == self.parts@[k]@,
            decreases self.parts.len() - i,
        {
            parts.push(self.parts[i].clone());
            i += 1;
        }
        let r = GitPath { parts };
        assert(r@ =~= self@);
        r
    }
}

impl GitPath {
    /// The path with the given components.
    pub fn new(parts: Vec<String>) -> (r: GitPath)
        ensures
            r.parts == parts,
    {
        GitPath { parts }
    }

    /// The path of one component.
    pub fn single(name: &str) -> (r: GitPath)
        ensures
            r@ == seq![name@],
    {
        let mut parts: Vec<String> = Vec::new();
        parts.push(String::from_str(name));
        let r = GitPath { parts };
        assert(r@ =~= seq![name@]);
        r
    }

    /// The number of components.
    pub fn len(&self) -> (r: usize)
        ensures
            r == self@.len(),
    {
        self.parts.len()
    }

    /// Whether the two paths have the same components.
    pub fn same_as(&self, other: &GitPath) -> (r: bool)
        ensures
            r == (self@ == other@),
    {
        if self.parts.len() != other.parts.len() {
            assert(self@.len() != other@.len());
            return false;
        }
        let r = other.starts_with(self);
        assert(other@.subrange(0, self@.len() as int) =~= other@);
        r
    }

    /// Whether this path is `base` or lies under it.
    pub fn starts_with(&self, base: &GitPath) -> (r: bool)
        ensures
            r == is_under(self@, base@),
    {
        if base.parts.len() > self.parts.len() {
            return false;
        }
        let mut i: usize = 0;
        while i < base.parts.len()
            invariant
                i <= base.parts.len() <= self.parts.len(),
                forall|k: int| 0 <= k < i ==> self@[k] == base@[k],
            decreases base.parts.len() - i,
        {
            if self.parts[i] != base.parts[i] {
                assert(self@.subrange(0, base@.len() as int)[i as int] == self@[i as int]);
                return false;
            }
            i += 1;
        }
        assert(self@.subrange(0, base@.len() as int) =~= base@);
        true
    }

    /// What is left of this path below `base`, if it is `base` or lies under
    /// it.
    pub fn strip_prefix(&self, base: &GitPath) -> (r: Option<GitPath>)
        ensures
            r is Some <==> is_under(self@, base@),
            r matches Some(rest) ==> rest@ == self@.skip(base@.len() as int),
    {
        if !self.starts_with(base) {
            return None;
        }
        let rest = self.tail(base.parts.len());
        Some(rest)
    }

    /// The components from position `from` on.
    fn tail(&self, from: usize) -> (r: GitPath)
        requires
            from <= self@.len(),
        ensures
            r@ == self@.skip(from as int),
    {
        let mut parts: Vec<String> = Vec::new();
        let mut i: usize = from;
        while i < self.parts.len()
            invariant
                from <= i <= self.parts.len(),
                parts@.len() == i - from,
                forall|k: int| 0 <= k < i - from ==> parts@[k]@ == self.parts@[from + k]@,
            decreases self.parts.len() - i,
        {
            parts.push(self.parts[i].clone());
            i += 1;
        }
        let r = GitPath { parts };
        assert(r@ =~= self@.skip(from as int));
        r
    }

    /// Whether the first component is the root.
    pub fn is_absolute(&self) -> (r: bool)
        ensures
            r == is_rooted(self@),
    {
        proof {
            reveal_strlit("/");
            assert("/"@ =~= root_name());
        }
        self.first_is("/")
    }

    /// Whether there is a first component and it is `name`.
    fn first_is(&self, name: &str) -> (r: bool)
        ensures
            r == (self@.len() > 0 && self@[0] == name@),
    {
        if self.parts.len() == 0 {
            return false;
        }
        let wanted = String::from_str(name);
        self.parts[0] == wanted
    }

    /// This path with `rel` placed under it.
    pub fn join(&self, rel: &GitPath) -> (r: GitPath)
        ensures
            r@ == joined(self@, rel@),
    {
        proof {
            reveal_strlit("/");
            reveal_strlit(".");
            assert("/"@ =~= root_name());
            assert("."@ =~= here_name());
        }
        if rel.first_is("/") || self.parts.len() == 0 {
            return rel.clone();
        }
        let skip: usize = if rel.first_is(".") { 1 } else { 0 };
        let mut parts: Vec<String> = Vec::new();
        let mut i: usize = 0;
        while i < self.parts.len()
            invariant
                i <= self.parts.len(),
                parts@.len() == i,
                forall|k: int| 0 <= k < i ==> parts@[k]@ == self.parts@[k]@,
            decreases self.parts.len() - i,
        {
            parts.push(self.parts[i].clone());
            i += 1;
        }
        let mut j: usize = skip;
        while j < rel.parts.len()
            invariant
                skip <= j <= rel.parts.len(),
                parts@.len() == self.parts.len() + (j - skip),
                forall|k: int| 0 <= k < self.parts.len() ==> parts@[k]@ == self.parts@[k]@,
                forall|k: int|
                    self.parts.len() <= k < parts@.len() ==> parts@[k]@ == rel.parts@[k
                        - self.parts.len() + skip]@,
            decreases rel.parts.len() - j,
        {
            parts.push(rel.parts[j].clone());
            j += 1;
        }
        let r = GitPath { parts };
        assert(r@ =~= self@ + rel@.skip(skip as int));
        assert(rel@.skip(0) =~= rel@);
        r
    }
}

/// What the file system says about the path of one query.
#[derive(Debug)]
pub struct Resolution {
    /// The current directory, if it can be had.
    pub cwd: Option<GitPath>,
    /// The canonical form of the path made absolute, if the file system
    /// resolves it.
    pub canonical: Option<GitPath>,
}

/// The model of a [`Resolution`].
pub struct ResolutionView {
    pub cwd: Option<PathNames>,
    pub canonical: Option<PathNames>,
}

impl View for Resolution {
    type V = ResolutionView;

    open spec fn view(&self) -> ResolutionView {
        ResolutionView { cwd: names_of(self.cwd), canonical: names_of(self.canonical) }
    }
}

/// The path under the current directory, or under `.` where the current
/// directory is not known. This is the path to resolve on the file system
/// before a query.
pub fn absolute(path: &GitPath, cwd: &Option<GitPath>) -> (r: GitPath)
    ensures
        r@ == absolute_of(path@, names_of(*cwd)),
{
    match cwd {
        Some(dir) => dir.join(path),
        None => {
            let here = GitPath::single(".");
            proof {
                reveal_strlit(".");
                assert("."@ =~= here_name());
            }
            here.join(path)
        },
    }
}

/// Brings a path into the form in which the entries of a repository are
/// held: canonical where the file system resolved it, else absolute.
pub fn reorient(path: &GitPath, fs: &Resolution) -> (r: GitPath)
    ensures
        r@ == reoriented(path@, fs@),
{
    match &fs.canonical {
        Some(resolved) => resolved.clone(),
        None => absolute(path, &fs.cwd),
    }
}

} // verus!
