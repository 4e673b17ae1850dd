//! Runtime libraries and what they depend on.
//!
//! The libraries of an application bring their own dependencies: other
//! shared libraries that must be in the package too, and that may depend on
//! further ones. Which libraries a library needs is written in the library
//! itself, and where they lie is a question for the filesystem; neither is
//! answered here. This module keeps the list of what has been seen and what
//! is still to be looked at, so that every library is staged once however
//! many others need it.

use crate::path::{is_shared_library, is_shared_library_spec, join, join_spec};
use crate::target::Target;
use crate::text::{holds, lemma_views_push, views};
use vstd::prelude::*;

verus! {

/// A walk through libraries and their dependencies.
#[derive(Debug)]
pub struct LibraryWalk {
    pending: Vec<String>,
    visited: Vec<String>,
}

/// What came of listing a directory.
#[derive(Debug, Clone, PartialEq, Eq)]
pub enum Listing {
    /// The names of the files in the directory.
    Names(Vec<String>),
    /// The directory could not be read; holds the operating system's
    /// message.
    Unreadable(String),
    /// The directory was read, but one of its entries could not be; holds
    /// the operating system's message.
    Broken(String),
}

/// A walk as contracts see it.
pub struct WalkState {
    /// The libraries that are still to be staged. The last one is due.
    pub pending: Seq<Seq<char>>,
    /// The libraries that have been staged, in the order in which they were.
    pub visited: Seq<Seq<char>>,
}

/// Whether the walk has come across `library` already.
pub open spec fn known(state: WalkState, library: Seq<char>) -> bool {
    state.pending.contains(library) || state.visited.contains(library)
}

/// The walk after it has come across `library`: the library is still to be
/// staged if the walk has not come across it before.
pub open spec fn enqueue(state: WalkState, library: Seq<char>) -> WalkState {
    if known(state, library) {
        state
    } else {
        WalkState { pending: state.pending.push(library), ..state }
    }
}

/// The walk after it has come across each of `libraries`, in order.
pub open spec fn enqueue_all(state: WalkState, libraries: Seq<Seq<char>>) -> WalkState
    decreases libraries.len(),
{
    if libraries.len() == 0 {
        state
    } else {
        enqueue(enqueue_all(state, libraries.drop_last()), libraries.last())
    }
}

/// The walk after the library that was due has been staged and turned out
/// to depend on `dependencies`. A walk in which nothing is due stays as it
/// is.
pub open spec fn visit(state: WalkState, dependencies: Seq<Seq<char>>) -> WalkState {
    if state.pending.len() == 0 {
        state
    } else {
        enqueue_all(
            WalkState {
                pending: state.pending.drop_last(),
                visited: state.visited.push(state.pending.last()),
            },
            dependencies,
        )
    }
}

/// The walk before it has come across any library.
pub open spec fn nothing_seen() -> WalkState {
    WalkState { pending: Seq::empty(), visited: Seq::empty() }
}

/// No library is in the walk twice: neither among those still to be
/// staged, nor among those staged, nor once here and once there.
pub open spec fn each_once(state: WalkState) -> bool {
    &&& state.pending.no_duplicates()
    &&& state.visited.no_duplicates()
    &&& forall|i: int, j: int|
        0 <= i < state.pending.len() && 0 <= j < state.visited.len() ==> state.pending[i]
            != state.visited[j]
}

/// The shared libraries among the files called `names` in the directory
/// `dir`, by their paths, in the order of `names`.
pub open spec fn shared_libraries(dir: Seq<char>, names: Seq<Seq<char>>) -> Seq<Seq<char>>
    decreases names.len(),
{
    if names.len() == 0 {
        Seq::empty()
    } else if is_shared_library_spec(names.last()) {
        shared_libraries(dir, names.drop_last()).push(join_spec(dir, names.last()))
    } else {
        shared_libraries(dir, names.drop_last())
    }
}

/// Coming across a library leaves no library in the walk twice.
pub proof fn lemma_enqueue_each_once(state: WalkState, library: Seq<char>)
    requires
        each_once(state),
    ensures
        each_once(enqueue(state, library)),
        enqueue(state, library).visited == state.visited,
{
}

/// Coming across libraries leaves no library in the walk twice, and does
/// not touch the libraries that have been staged.
pub proof fn lemma_enqueue_all_each_once(state: WalkState, libraries: Seq<Seq<char>>)
    requires
        each_once(state),
    ensures
        each_once(enqueue_all(state, libraries)),
        enqueue_all(state, libraries).visited == state.visited,
    decreases libraries.len(),
{
    if libraries.len() > 0 {
        lemma_enqueue_all_each_once(state, libraries.drop_last());
        lemma_enqueue_each_once(enqueue_all(state, libraries.drop_last()), libraries.last());
    }
}

/// Coming across libraries forgets none and leaves none of them out: what
/// the walk knew it still knows, and it knows each of `libraries`.
pub proof fn lemma_enqueue_all_knows(state: WalkState, libraries: Seq<Seq<char>>)
    ensures
        enqueue_all(state, libraries).visited == state.visited,
        forall|library: Seq<char>|
            known(state, library) ==> known(enqueue_all(state, libraries), library),
        forall|i: int|
            0 <= i < libraries.len() ==> known(
                enqueue_all(state, libraries),
                #[trigger] libraries[i],
            ),
    decreases libraries.len(),
{
    if libraries.len() > 0 {
        let front = libraries.drop_last();
        let before = enqueue_all(state, front);
        let after = enqueue_all(state, libraries);
        lemma_enqueue_all_knows(state, front);
        assert forall|library: Seq<char>| known(before, library) implies known(
            after,
            library,
        ) by {
            if before.pending.contains(library) && after != before {
                let i = before.pending.index_of(library);
                assert(after.pending[i] == library);
            }
        }
        if !known(before, libraries.last()) {
            assert(after.pending[after.pending.len() - 1] == libraries.last());
        }
        assert forall|i: int| 0 <= i < libraries.len() implies known(
            after,
            #[trigger] libraries[i],
        ) by {
            if i < front.len() {
                assert(front[i] == libraries[i]);
            }
        }
    }
}

/// A round of the walk forgets nothing and leaves no dependency out. The
/// library that was due has been staged; what the walk knew it still knows;
/// and it knows each of `dependencies`, which is therefore staged already or
/// will be due.
pub proof fn lemma_visit_knows(state: WalkState, dependencies: Seq<Seq<char>>)
    requires
        state.pending.len() > 0,
    ensures
        visit(state, dependencies).visited == state.visited.push(state.pending.last()),
        forall|library: Seq<char>|
            known(state, library) ==> known(visit(state, dependencies), library),
        forall|i: int|
            0 <= i < dependencies.len() ==> known(
                visit(state, dependencies),
                #[trigger] dependencies[i],
            ),
{
    let due = state.pending.last();
    let staged = WalkState {
        pending: state.pending.drop_last(),
        visited: state.visited.push(due),
    };
    lemma_enqueue_all_knows(staged, dependencies);
    assert forall|library: Seq<char>| known(state, library) implies known(
        staged,
        library,
    ) by {
        if state.pending.contains(library) {
            let i = state.pending.index_of(library);
            if i == state.pending.len() - 1 {
                assert(staged.visited[staged.visited.len() - 1] == library);
            } else {
                assert(staged.pending[i] == library);
            }
        } else {
            let i = state.visited.index_of(library);
            assert(staged.visited[i] == library);
        }
    }
}

/// Every library is staged once. When the library that is due has been
/// staged, it joins the staged libraries and is never due again, whichever
/// libraries turn out to depend on it, itself included; and no library is in
/// the walk twice.
pub proof fn lemma_visit_each_once(state: WalkState, dependencies: Seq<Seq<char>>)
    requires
        each_once(state),
        state.pending.len() > 0,
    ensures
        each_once(visit(state, dependencies)),
        visit(state, dependencies).visited == state.visited.push(state.pending.last()),
        !visit(state, dependencies).pending.contains(state.pending.last()),
{
    let due = state.pending.last();
    let staged = WalkState {
        pending: state.pending.drop_last(),
        visited: state.visited.push(due),
    };
    assert(each_once(staged)) by {
        assert forall|i: int, j: int|
            0 <= i < staged.pending.len() && 0 <= j < staged.visited.len() implies staged.pending[i]
            != staged.visited[j] by {
            assert(staged.pending[i] == state.pending[i]);
            if j < state.visited.len() {
                assert(staged.visited[j] == state.visited[j]);
            }
        }
    }
    lemma_enqueue_all_each_once(staged, dependencies);
    let after = visit(state, dependencies);
    assert(after.visited[after.visited.len() - 1] == due);
    if after.pending.contains(due) {
        let i = after.pending.index_of(due);
        assert(after.pending[i] != after.visited[after.visited.len() - 1]);
    }
}

impl View for LibraryWalk {
    type V = WalkState;

    closed spec fn view(&self) -> WalkState {
        WalkState { pending: views(self.pending@), visited: views(self.visited@) }
    }
}

impl LibraryWalk {
    #[verifier::type_invariant]
    spec fn unique(&self) -> bool {
        each_once(self@)
    }

    fn come_across(self, library: String) -> (walk: Self)
        ensures
            walk@ == enqueue(self@, library@),
    {
        proof {
            use_type_invariant(&self);
            lemma_enqueue_each_once(self@, library@);
        }
        if holds(&self.pending, &library) || holds(&self.visited, &library) {
            self
        } else {
            proof {
                lemma_views_push(self.pending@, library);
            }
            let LibraryWalk { pending, visited } = self;
            let mut pending = pending;
            pending.push(library);
            LibraryWalk { pending, visited }
        }
    }

    fn come_across_all(self, libraries: Vec<String>) -> (walk: Self)
        ensures
            walk@ == enqueue_all(self@, views(libraries@)),
    {
        let mut walk = self;
        let mut i: usize = 0;
        while i < libraries.len()
            invariant
                i <= libraries.len(),
                walk@ == enqueue_all(self@, views(libraries@).take(i as int)),
            decreases libraries.len() - i,
        {
            let library = libraries[i].clone();
            walk = walk.come_across(library);
            i = i + 1;
            proof {
                let seen = views(libraries@).take(i as int);
                assert(seen.drop_last() =~= views(libraries@).take(i - 1));
            }
        }
        assert(views(libraries@).take(libraries.len() as int) =~= views(libraries@));
        walk
    }

    /// The walk that begins with `libraries`. A library that is named more
    /// than once is taken once.
    pub fn new(libraries: Vec<String>) -> (walk: Self)
        ensures
            walk@ == enqueue_all(nothing_seen(), views(libraries@)),
            each_once(walk@),
    {
        let empty = LibraryWalk { pending: Vec::new(), visited: Vec::new() };
        assert(empty@.pending =~= Seq::<Seq<char>>::empty());
        assert(empty@.visited =~= Seq::<Seq<char>>::empty());
        proof {
            lemma_enqueue_all_each_once(nothing_seen(), views(libraries@));
        }
        empty.come_across_all(libraries)
    }

    /// The library that is due: the one to stage next, and to look into for
    /// what it depends on. `None` when the walk is over.
    pub fn due(&self) -> (library: Option<&String>)
        ensures
            each_once(self@),
            match library {
                Some(library) => self@.pending.len() > 0 && library@ == self@.pending.last(),
                None => self@.pending.len() == 0,
            },
    {
        proof {
            use_type_invariant(self);
        }
        if self.pending.len() == 0 {
            None
        } else {
            Some(&self.pending[self.pending.len() - 1])
        }
    }

    /// The walk after the library that was due has been staged and turned
    /// out to depend on `dependencies`. Those among them that the walk has
    /// not come across are staged later.
    pub fn advance(self, dependencies: Vec<String>) -> (walk: Self)
        ensures
            walk@ == visit(self@, views(dependencies@)),
            each_once(walk@),
    {
        proof {
            use_type_invariant(&self);
            if self@.pending.len() > 0 {
                lemma_visit_each_once(self@, views(dependencies@));
            }
        }
        if self.pending.len() == 0 {
            return self;
        }
        let LibraryWalk { pending, visited } = self;
        let mut pending = pending;
        let mut visited = visited;
        let ghost before = WalkState { pending: views(pending@), visited: views(visited@) };
        match pending.pop() {
            Some(library) => {
                proof {
                    lemma_views_push(visited@, library);
                    assert(views(pending@) =~= before.pending.drop_last());
                }
                visited.push(library);
                LibraryWalk { pending, visited }.come_across_all(dependencies)
            },
            None => LibraryWalk { pending, visited },
        }
    }

    /// The libraries that have been staged, in the order in which they were.
    pub fn staged(&self) -> (libraries: &Vec<String>)
        ensures
            views(libraries@) == self@.visited,
            self@.visited.no_duplicates(),
    {
        proof {
            use_type_invariant(self);
        }
        &self.visited
    }
}

/// The directory under `path` that holds the runtime libraries of `target`.
pub fn runtime_libs_dir(path: &str, target: Target) -> (dir: String)
    ensures
        dir@ == join_spec(path@, target.abi()),
{
    join(path, target.android_abi())
}

/// The shared libraries among the files called `names` in the directory
/// `dir`, by their paths.
pub fn select_shared_libraries(dir: &str, names: &Vec<String>) -> (libraries: Vec<String>)
    ensures
        views(libraries@) == shared_libraries(dir@, views(names@)),
{
    let mut libraries: Vec<String> = Vec::new();
    assert(views(libraries@) =~= Seq::<Seq<char>>::empty());
    let mut i: usize = 0;
    while i < names.len()
        invariant
            i <= names.len(),
            views(libraries@) == shared_libraries(dir@, views(names@).take(i as int)),
        decreases names.len() - i,
    {
        proof {
            let seen = views(names@).take(i + 1);
            assert(seen.drop_last() =~= views(names@).take(i as int));
            assert(seen.last() == names@[i as int]@);
        }
        if is_shared_library(names[i].as_str()) {
            let library = join(dir, names[i].as_str());
            proof {
                lemma_views_push(libraries@, library);
            }
            libraries.push(library);
        }
        i = i + 1;
    }
    assert(views(names@).take(names.len() as int) =~= views(names@));
    libraries
}

} // verus!
