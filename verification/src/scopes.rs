//! Whether the write scopes of a Task stay within its worktree.
use vstd::prelude::*;

use crate::error::{refusal, refuse, CoordinatorError, ErrorCategory, Refusal};
use crate::paths::{
    below, components, components_of, is_below, join_path, lists_view, parent, parent_of,
    path_is_below, same_path,
};
use crate::repository::WriteScopeV1;
use crate::text::{same_text, text_of, texts};

verus! {

/// The most entries of a subtree that are inspected.
pub const MAX_SCOPE_ENTRIES: usize = 100_000;

pub open spec fn invalid_scope(message: Seq<char>) -> Refusal {
    refusal(ErrorCategory::InvalidInput, message)
}

fn refuse_scope(message: &str) -> (r: CoordinatorError)
    ensures
        r@ == invalid_scope(message@),
{
    refuse(ErrorCategory::InvalidInput, message)
}

/// The path of a scope, relative to the worktree.
pub open spec fn scope_path(scope: WriteScopeV1) -> Seq<char> {
    match scope {
        WriteScopeV1::ExactFile { path } => path@,
        WriteScopeV1::Subtree { path } => path@,
    }
}

/// The path of a scope.
pub fn path_of_scope(scope: &WriteScopeV1) -> (r: &str)
    ensures
        r@ == scope_path(*scope),
{
    match scope {
        WriteScopeV1::ExactFile { path } => path.as_str(),
        WriteScopeV1::Subtree { path } => path.as_str(),
    }
}

/// A path through the administrative data of Git.
pub open spec fn administrative(path: Seq<char>) -> bool {
    exists|i: int| 0 <= i < components(path).len() && #[trigger] components(path)[i] == ".git"@
}

/// Requires a scope outside the administrative data of Git.
pub fn require_ordinary_path(scope: &WriteScopeV1) -> (r: Result<(), CoordinatorError>)
    ensures
        match r {
            Ok(_) => !administrative(scope_path(*scope)),
            Err(e) => administrative(scope_path(*scope)) && e@ == invalid_scope(
                "write scope may not target Git administrative data"@,
            ),
        },
{
    let path = path_of_scope(scope);
    let parts = components_of(path);
    let ghost all = components(path@);
    assert(all.len() == parts.len());
    let mut i: usize = 0;
    while i < parts.len()
        invariant
            i <= parts.len(),
            all == components(path@),
            path@ == scope_path(*scope),
            lists_view(parts@) == all,
            forall|j: int| 0 <= j < i ==> #[trigger] all[j] != ".git"@,
        decreases parts.len() - i,
    {
        let part = text_of(parts[i].as_slice());
        assert(all[i as int] == parts@[i as int]@);
        if same_text(part.as_str(), ".git") {
            return Err(refuse_scope("write scope may not target Git administrative data"));
        }
        i += 1;
    }
    Ok(())
}

/// The nearest place on the way up from a path to the worktree's root that exists.
pub open spec fn nearest(path: Seq<char>, base: Seq<char>, existing: Seq<Seq<char>>, steps: nat) -> Seq<
    char,
>
    decreases steps,
{
    if steps == 0 || existing.contains(path) || components(path) == components(base) {
        path
    } else {
        match parent(path) {
            Some(up) => nearest(up, base, existing, (steps - 1) as nat),
            None => path,
        }
    }
}

fn is_listed(all: &Vec<String>, text: &str) -> (r: bool)
    ensures
        r == texts(all@).contains(text@),
{
    let mut i: usize = 0;
    while i < all.len()
        invariant
            i <= all.len(),
            forall|j: int| 0 <= j < i ==> (#[trigger] texts(all@)[j]) != text@,
        decreases all.len() - i,
    {
        if same_text(all[i].as_str(), text) {
            assert(texts(all@)[i as int] == text@);
            return true;
        }
        i += 1;
    }
    false
}

fn climb(path: String, base: &str, existing: &Vec<String>, steps: usize) -> (r: String)
    ensures
        r@ == nearest(path@, base@, texts(existing@), steps as nat),
    decreases steps,
{
    if steps == 0 || is_listed(existing, path.as_str()) || same_path(path.as_str(), base) {
        return path;
    }
    match parent_of(path.as_str()) {
        Some(up) => climb(up, base, existing, steps - 1),
        None => path,
    }
}

/// Finds the nearest place on the way up from a scope that exists.
pub fn nearest_existing(base: &str, scope: &WriteScopeV1, existing: &Vec<String>) -> (r: String)
    ensures
        r@ == nearest(
            below(base@, scope_path(*scope)),
            base@,
            texts(existing@),
            components(below(base@, scope_path(*scope))).len(),
        ),
{
    let start = join_path(base, path_of_scope(scope));
    let parts = components_of(start.as_str());
    assert(components(start@).len() == parts.len());
    climb(start, base, existing, parts.len())
}

/// The places from a path up to, and without, the root of the worktree.
pub open spec fn places_up(path: Seq<char>, base: Seq<char>, steps: nat) -> Seq<Seq<char>>
    decreases steps,
{
    if steps == 0 || components(path) == components(base) {
        Seq::empty()
    } else {
        match parent(path) {
            Some(up) => seq![path] + places_up(up, base, (steps - 1) as nat),
            None => seq![path],
        }
    }
}

fn add_places(places: &mut Vec<String>, path: String, base: &str, steps: usize)
    ensures
        texts(final(places)@) == texts(old(places)@) + places_up(path@, base@, steps as nat),
    decreases steps,
{
    if steps == 0 || same_path(path.as_str(), base) {
        assert(texts(places@) =~= texts(old(places)@) + Seq::<Seq<char>>::empty());
        return ;
    }
    let up = parent_of(path.as_str());
    let ghost place = path@;
    places.push(path);
    assert(texts(places@) =~= texts(old(places)@) + seq![place]);
    match up {
        Some(up) => {
            let ghost rest = places_up(up@, base@, (steps - 1) as nat);
            add_places(places, up, base, steps - 1);
            assert(texts(places@) =~= texts(old(places)@) + (seq![place] + rest));
        },
        None => {},
    }
}

/// Lists the places between a resolved scope and the root of the worktree; one of them that holds
/// a `.git` entry makes the scope nested.
pub fn places_to_inspect(resolved: &str, base: &str) -> (r: Vec<String>)
    ensures
        texts(r@) == places_up(resolved@, base@, components(resolved@).len()),
{
    let parts = components_of(resolved);
    assert(components(resolved@).len() == parts.len());
    let mut r: Vec<String> = Vec::new();
    add_places(&mut r, resolved.to_owned(), base, parts.len());
    assert(texts(r@) =~= places_up(resolved@, base@, components(resolved@).len()));
    r
}

/// What the file system says of the place that a scope stands for.
#[derive(Debug)]
pub struct ScopeFacts {
    /// Its canonical path, or why it has none.
    pub resolved: Result<String, String>,
    /// Some place from it up to, and without, the root of the worktree holds a `.git` entry.
    pub nested: bool,
    /// It is a directory.
    pub directory: bool,
}

/// Whether a scope is refused, or else whether everything below it has to be inspected.
pub open spec fn scope_verdict(base: Seq<char>, scope: WriteScopeV1, facts: ScopeFacts) -> Result<
    bool,
    Refusal,
> {
    if administrative(scope_path(scope)) {
        Err(invalid_scope("write scope may not target Git administrative data"@))
    } else {
        match facts.resolved {
            Err(e) => Err(refusal(ErrorCategory::StorageFailure, e@)),
            Ok(resolved) => if !is_below(components(resolved@), components(base)) {
                Err(invalid_scope("write scope resolves outside the canonical worktree"@))
            } else if facts.nested {
                Err(
                    invalid_scope(
                        "write scope crosses a nested repository or submodule boundary"@,
                    ),
                )
            } else {
                Ok(scope is Subtree && facts.directory)
            },
        }
    }
}

/// Decides on a scope.
pub fn validate_scope(base: &str, scope: &WriteScopeV1, facts: &ScopeFacts) -> (r: Result<
    bool,
    CoordinatorError,
>)
    ensures
        match (r, scope_verdict(base@, *scope, *facts)) {
            (Ok(inspect), Ok(said)) => inspect == said,
            (Err(e), Err(f)) => e@ == f,
            _ => false,
        },
{
    match require_ordinary_path(scope) {
        Err(e) => {
            return Err(e);
        },
        Ok(_) => {},
    }
    match &facts.resolved {
        Err(e) => Err(refuse(ErrorCategory::StorageFailure, e.as_str())),
        Ok(resolved) => {
            if !path_is_below(resolved.as_str(), base) {
                return Err(refuse_scope("write scope resolves outside the canonical worktree"));
            }
            if facts.nested {
                return Err(
                    refuse_scope("write scope crosses a nested repository or submodule boundary"),
                );
            }
            let subtree = match scope {
                WriteScopeV1::Subtree { .. } => true,
                WriteScopeV1::ExactFile { .. } => false,
            };
            Ok(subtree && facts.directory)
        },
    }
}

// ---------------------------------------------------------------------------------------------
// Subtrees
// ---------------------------------------------------------------------------------------------

/// What an entry of a directory is.
#[derive(Debug)]
#[allow(inconsistent_fields)]
pub enum EntryKind {
    Directory,
    /// A symbolic link, with its canonical target or why it has none.
    Link { target: Result<String, String> },
    Other,
}

/// What follows an entry.
#[derive(Debug, Clone, Copy, PartialEq, Eq, Structural)]
pub enum EntryStep {
    /// Inspect the directory later.
    Descend,
    /// Go on with the next entry.
    Pass,
}

/// What follows an entry of a subtree, of which `visited` were seen before it.
pub open spec fn entry_verdict(
    base: Seq<char>,
    directory: Seq<char>,
    visited: usize,
    name: Seq<char>,
    kind: EntryKind,
) -> Result<EntryStep, Refusal> {
    if visited >= MAX_SCOPE_ENTRIES {
        Err(invalid_scope("write scope subtree is too large to validate safely"@))
    } else if name == ".git"@ {
        if components(directory) != components(base) {
            Err(invalid_scope("write scope contains a nested repository or submodule"@))
        } else {
            Ok(EntryStep::Pass)
        }
    } else {
        match kind {
            EntryKind::Link { target } => match target {
                Err(e) => Err(refusal(ErrorCategory::StorageFailure, e@)),
                Ok(path) => if is_below(components(path@), components(base)) {
                    Ok(EntryStep::Pass)
                } else {
                    Err(
                        invalid_scope(
                            "write scope contains a symlink escaping the canonical worktree"@,
                        ),
                    )
                },
            },
            EntryKind::Directory => Ok(EntryStep::Descend),
            EntryKind::Other => Ok(EntryStep::Pass),
        }
    }
}

/// The inspection of a subtree.
#[derive(Debug)]
pub struct ScopeScan {
    pub visited: usize,
}

impl ScopeScan {
    /// An inspection that has seen nothing.
    pub fn new() -> (r: ScopeScan)
        ensures
            r.visited == 0,
    {
        ScopeScan { visited: 0 }
    }

    /// Decides on one more entry.
    pub fn on_entry(&mut self, base: &str, directory: &str, name: &str, kind: &EntryKind) -> (r:
        Result<EntryStep, CoordinatorError>)
        ensures
            match (r, entry_verdict(base@, directory@, old(self).visited, name@, *kind)) {
                (Ok(step), Ok(said)) => step == said,
                (Err(e), Err(f)) => e@ == f,
                _ => false,
            },
            final(self).visited == (if old(self).visited >= MAX_SCOPE_ENTRIES {
                old(self).visited
            } else {
                (old(self).visited + 1) as usize
            }),
    {
        if self.visited >= MAX_SCOPE_ENTRIES {
            return Err(refuse_scope("write scope subtree is too large to validate safely"));
        }
        self.visited = self.visited + 1;
        if same_text(name, ".git") {
            if !same_path(directory, base) {
                return Err(
                    refuse_scope("write scope contains a nested repository or submodule"),
                );
            }
            return Ok(EntryStep::Pass);
        }
        match kind {
            EntryKind::Link { target } => match target {
                Err(e) => Err(refuse(ErrorCategory::StorageFailure, e.as_str())),
                Ok(path) => {
                    if !path_is_below(path.as_str(), base) {
                        return Err(
                            refuse_scope(
                                "write scope contains a symlink escaping the canonical worktree",
                            ),
                        );
                    }
                    Ok(EntryStep::Pass)
                },
            },
            EntryKind::Directory => Ok(EntryStep::Descend),
            EntryKind::Other => Ok(EntryStep::Pass),
        }
    }
}

} // verus!
