//! The libraries that wait to be put into the package.

use crate::text::{holds, views};
use vstd::prelude::*;

verus! {

/// The paths, inside the package, of the libraries that are staged in the
/// build directory and not yet written into the package. No path occurs
/// twice. The paths are kept in the order in which they were first added.
#[derive(Debug)]
pub struct StagedLibrarySet {
    paths: Vec<String>,
}

/// `set` with `path` added: unchanged if it holds `path` already.
pub open spec fn insert_spec(set: Seq<Seq<char>>, path: Seq<char>) -> Seq<Seq<char>> {
    if set.contains(path) {
        set
    } else {
        set.push(path)
    }
}

/// Adding a path a second time changes nothing: the set holds it once.
pub proof fn lemma_insert_is_idempotent(set: Seq<Seq<char>>, path: Seq<char>)
    ensures
        insert_spec(insert_spec(set, path), path) == insert_spec(set, path),
        insert_spec(set, path).contains(path),
        set.no_duplicates() ==> insert_spec(set, path).no_duplicates(),
{
    if !set.contains(path) {
        assert(set.push(path)[set.len() as int] == path);
    }
}

impl View for StagedLibrarySet {
    type V = Seq<Seq<char>>;

    closed spec fn view(&self) -> Seq<Seq<char>> {
        views(self.paths@)
    }
}

impl StagedLibrarySet {
    #[verifier::type_invariant]
    spec fn unique(&self) -> bool {
        views(self.paths@).no_duplicates()
    }

    /// The set without any path.
    pub fn new() -> (set: Self)
        ensures
            set@ == Seq::<Seq<char>>::empty(),
    {
        let set = StagedLibrarySet { paths: Vec::new() };
        assert(set@ =~= Seq::<Seq<char>>::empty());
        set
    }

    /// The number of paths.
    pub fn len(&self) -> (n: usize)
        ensures
            n == self@.len(),
    {
        self.paths.len()
    }

    /// Whether `path` is in the set.
    pub fn contains(&self, path: &str) -> (found: bool)
        ensures
            found == self@.contains(path@),
    {
        holds(&self.paths, &String::from_str(path))
    }

    /// The set with `path` added. A path that the set holds already is not
    /// added again: the set comes back as it was.
    pub fn insert(self, path: String) -> (set: Self)
        ensures
            set@ == insert_spec(self@, path@),
            set@.no_duplicates(),
    {
        proof {
            use_type_invariant(&self);
        }
        if self.contains(path.as_str()) {
            self
        } else {
            proof {
                crate::text::lemma_views_push(self.paths@, path);
            }
            let StagedLibrarySet { paths } = self;
            let mut paths = paths;
            paths.push(path);
            StagedLibrarySet { paths }
        }
    }

    /// A copy with the same paths in the same order.
    pub fn duplicate(&self) -> (copy: Self)
        ensures
            copy@ == self@,
    {
        proof {
            use_type_invariant(self);
        }
        let mut paths: Vec<String> = Vec::new();
        let mut i: usize = 0;
        while i < self.paths.len()
            invariant
                i <= self.paths.len(),
                paths@.len() == i,
                views(paths@) == self@.take(i as int),
            decreases self.paths.len() - i,
        {
            let path = self.paths[i].clone();
            paths.push(path);
            i = i + 1;
            assert(views(paths@) =~= self@.take(i as int));
        }
        assert(self@.take(self.paths.len() as int) =~= self@);
        StagedLibrarySet { paths }
    }

    /// The paths, in the order in which they were first added.
    pub fn paths(&self) -> (paths: &Vec<String>)
        ensures
            views(paths@) == self@,
            self@.no_duplicates(),
    {
        proof {
            use_type_invariant(self);
        }
        &self.paths
    }
}

} // verus!
