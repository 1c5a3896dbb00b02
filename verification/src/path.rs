//! Paths and asset identities, as far as an evaluation looks at them.

use vstd::prelude::*;

verus! {

/// A path and the relative paths that are still to be joined to it.
#[verifier::ext_equal]
pub struct PathView {
    pub path: Seq<char>,
    pub joins: Seq<Seq<char>>,
}

impl PathView {
    /// The path that joining `relative` gives.
    pub open spec fn join(self, relative: Seq<char>) -> PathView {
        PathView { path: self.path, joins: self.joins.push(relative) }
    }
}

/// A path on some file system.
///
/// Joining is only recorded: what the joined path comes to is decided by the
/// file system when the path is used.
#[derive(Debug, PartialEq, Eq)]
pub struct FileSystemPath {
    path: String,
    joins: Vec<String>,
}

impl View for FileSystemPath {
    type V = PathView;

    closed spec fn view(&self) -> PathView {
        PathView { path: self.path@, joins: self.joins@.map_values(|s: String| s@) }
    }
}

impl Clone for FileSystemPath {
    fn clone(&self) -> (copy: FileSystemPath)
        ensures
            copy@ == self@,
    {
        let mut joins: Vec<String> = Vec::new();
        let mut i: usize = 0;
        while i < self.joins.len()
            invariant
                i <= self.joins.len(),
                joins@ == self.joins@.take(i as int),
            decreases self.joins.len() - i,
        {
            joins.push(self.joins[i].clone());
            proof {
                assert(self.joins@.take(i + 1) =~= self.joins@.take(i as int).push(
                    self.joins@[i as int],
                ));
            }
            i += 1;
        }
        proof {
            assert(self.joins@.take(self.joins@.len() as int) =~= self.joins@);
        }
        FileSystemPath { path: self.path.clone(), joins }
    }
}

impl FileSystemPath {
    /// The path that is written `path`, with nothing joined to it.
    pub fn new(path: String) -> (created: FileSystemPath)
        ensures
            created@ == (PathView { path: path@, joins: seq![] }),
    {
        let created = FileSystemPath { path, joins: Vec::new() };
        proof {
            assert(created@.joins =~= seq![]);
        }
        created
    }

    /// The path that `relative` names when it is taken from this one.
    pub fn join(&self, relative: &str) -> (joined: FileSystemPath)
        ensures
            joined@ == self@.join(relative@),
            joined@.path == self@.path,
            joined@.joins == self@.joins.push(relative@),
    {
        let mut joined = self.clone();
        joined.joins.push(relative.to_owned());
        proof {
            assert(joined@.joins =~= self@.joins.push(relative@));
        }
        joined
    }

    /// The path that the joins start from.
    pub fn base(&self) -> (base: &str)
        ensures
            base@ == self@.path,
    {
        self.path.as_str()
    }

    /// The relative paths to be joined, in order.
    pub fn joins(&self) -> (joins: &[String])
        ensures
            joins@.map_values(|s: String| s@) == self@.joins,
    {
        self.joins.as_slice()
    }
}

/// The identity of an asset: where it lies.
#[derive(Debug, PartialEq, Eq)]
pub struct AssetIdent {
    path: FileSystemPath,
}

impl View for AssetIdent {
    type V = PathView;

    closed spec fn view(&self) -> PathView {
        self.path@
    }
}

impl Clone for AssetIdent {
    fn clone(&self) -> (copy: AssetIdent)
        ensures
            copy@ == self@,
    {
        AssetIdent { path: self.path.clone() }
    }
}

impl AssetIdent {
    /// The identity of the asset at `path`.
    pub fn new(path: FileSystemPath) -> (ident: AssetIdent)
        ensures
            ident@ == path@,
    {
        AssetIdent { path }
    }

    /// The path of the asset.
    pub fn path(&self) -> (path: FileSystemPath)
        ensures
            path@ == self@,
    {
        self.path.clone()
    }
}

/// Joining keeps the path and all that was joined before, and adds the relative
/// path behind it. So two joined paths are the same only if they were joined from
/// the same path with the same relative path.
pub proof fn law_joining_adds_one_relative_path(
    base: PathView,
    relative: Seq<char>,
    other_base: PathView,
    other_relative: Seq<char>,
)
    ensures
        base.join(relative).path == base.path,
        base.join(relative).joins.len() == base.joins.len() + 1,
        forall|i: int|
            0 <= i < base.joins.len() ==> base.join(relative).joins[i] == #[trigger] base.joins[i],
        base.join(relative).joins.last() == relative,
        base.join(relative) == other_base.join(other_relative) ==> base == other_base && relative
            == other_relative,
{
    let joined = base.join(relative);
    assert(joined.joins.drop_last() =~= base.joins);
    assert(other_base.join(other_relative).joins.drop_last() =~= other_base.joins);
    assert(other_base.join(other_relative).joins.last() == other_relative);
    if joined == other_base.join(other_relative) {
        assert(base =~= other_base);
    }
}

} // verus!
