//! What adding a package to a tree amounts to: the packages that it needs,
//! found in a repository, each once.

use crate::package::dependency::DependencyError;
use crate::package::package::{parse_all, PackageView};
use crate::repository::is_candidate;
use vstd::prelude::*;

verus! {

/// Why a package could not be added to a tree, as a value.
pub enum TreeErrorView {
    /// A specifier of a package on the way reads as no dependency.
    Dependency(DependencyError),
    /// The repository holds no package of this name that meets the
    /// constraint.
    NoCandidate { name: Seq<char>, constraint: Seq<char> },
    /// A package of this name is in the tree already. The versions are that
    /// of the package in the tree and that of the package to add.
    DuplicatePackage { name: Seq<char>, versions: Seq<Seq<char>> },
    /// The dependencies go deeper than the limit allows. Adding a package
    /// to a tree never comes to this: the limit is the number of packages
    /// of the repository, and no name comes twice on the way down.
    TooDeep,
}

/// The name and the version of a package.
pub type Key = (Seq<char>, Seq<char>);

/// A package in a tree with its depth, as a value.
pub type NodeView = (PackageView, nat);

/// The nodes one level further down.
pub open spec fn deeper_views(nodes: Seq<NodeView>) -> Seq<NodeView> {
    nodes.map_values(|n: NodeView| (n.0, n.1 + 1))
}

/// The names and versions of some nodes.
pub open spec fn keys(nodes: Seq<NodeView>) -> Seq<Key> {
    nodes.map_values(|n: NodeView| (n.0.name, n.0.version))
}

/// The names of some packages, given by name and version.
pub open spec fn names(keys: Seq<Key>) -> Seq<Seq<char>> {
    keys.map_values(|k: Key| k.0)
}

/// The version of the first package of the name among `seen`, if there is
/// one.
pub open spec fn seen_version(seen: Seq<Key>, name: Seq<char>) -> Option<Seq<char>>
    decreases seen.len(),
{
    if seen.len() == 0 {
        None
    } else if seen[0].0 == name {
        Some(seen[0].1)
    } else {
        seen_version(seen.drop_first(), name)
    }
}

/// The nodes below a package: those of its dependencies, in the order of
/// the recipe, build dependencies first.
///
/// `seen` are the packages that are in the tree already, the package itself
/// among them. `fuel` limits how deep the dependencies may go.
pub open spec fn resolve_package(repo: Seq<PackageView>, package: PackageView, seen: Seq<Key>, fuel: nat) -> Result<
    Seq<NodeView>,
    TreeErrorView,
>
    decreases fuel, 2nat, 0nat,
{
    match parse_all(package.build + package.runtime) {
        Err(e) => Err(TreeErrorView::Dependency(e)),
        Ok(dependencies) => resolve_dependencies(repo, dependencies, seen, fuel),
    }
}

/// The nodes of some dependencies: for each in turn, those of the packages
/// of the repository that have the name and meet the constraint. A
/// dependency that no package meets is an error.
pub open spec fn resolve_dependencies(
    repo: Seq<PackageView>,
    dependencies: Seq<Key>,
    seen: Seq<Key>,
    fuel: nat,
) -> Result<Seq<NodeView>, TreeErrorView>
    decreases fuel, 1nat, dependencies.len(),
{
    if dependencies.len() == 0 {
        Ok(Seq::empty())
    } else {
        match resolve_dependencies(repo, dependencies.drop_last(), seen, fuel) {
            Err(e) => Err(e),
            Ok(nodes) => {
                let dependency = dependencies.last();
                let candidates = repo.filter(
                    |p: PackageView| is_candidate(p, dependency.0, dependency.1),
                );
                if candidates.len() == 0 {
                    Err(
                        TreeErrorView::NoCandidate {
                            name: dependency.0,
                            constraint: dependency.1,
                        },
                    )
                } else {
                    match resolve_candidates(repo, candidates, seen + keys(nodes), fuel) {
                        Err(e) => Err(e),
                        Ok(more) => Ok(nodes + more),
                    }
                }
            },
        }
    }
}

/// The nodes of some packages to add: each in turn, followed by the nodes
/// below it, one level further down. A package whose name is in the tree
/// already is an error.
pub open spec fn resolve_candidates(
    repo: Seq<PackageView>,
    candidates: Seq<PackageView>,
    seen: Seq<Key>,
    fuel: nat,
) -> Result<Seq<NodeView>, TreeErrorView>
    decreases fuel, 0nat, candidates.len(),
{
    if candidates.len() == 0 {
        Ok(Seq::empty())
    } else {
        match resolve_candidates(repo, candidates.drop_last(), seen, fuel) {
            Err(e) => Err(e),
            Ok(nodes) => {
                let candidate = candidates.last();
                let seen_now = seen + keys(nodes);
                match seen_version(seen_now, candidate.name) {
                    Some(version) => Err(
                        TreeErrorView::DuplicatePackage {
                            name: candidate.name,
                            versions: seq![version, candidate.version],
                        },
                    ),
                    None => if fuel == 0 {
                        Err(TreeErrorView::TooDeep)
                    } else {
                        match resolve_package(
                            repo,
                            candidate,
                            seen_now.push((candidate.name, candidate.version)),
                            (fuel - 1) as nat,
                        ) {
                            Err(e) => Err(e),
                            Ok(below) => Ok(nodes + seq![(candidate, 0nat)] + deeper_views(below)),
                        }
                    },
                }
            },
        }
    }
}

/// What adding a package to a tree gives: the nodes to add, the package
/// first and below it what it needs, or the reason why it cannot be added.
/// `tree` are the nodes of the tree.
pub open spec fn spec_add_package(repo: Seq<PackageView>, tree: Seq<NodeView>, package: PackageView) -> Result<
    Seq<NodeView>,
    TreeErrorView,
> {
    match seen_version(keys(tree), package.name) {
        Some(version) => Err(
            TreeErrorView::DuplicatePackage {
                name: package.name,
                versions: seq![version, package.version],
            },
        ),
        None => match resolve_package(
            repo,
            package,
            keys(tree).push((package.name, package.version)),
            repo.len(),
        ) {
            Err(e) => Err(e),
            Ok(below) => Ok(seq![(package, 0nat)] + deeper_views(below)),
        },
    }
}

/// How many packages of the repository have a name that was not seen.
pub open spec fn remaining(repo: Seq<PackageView>, seen: Seq<Key>) -> nat
    decreases repo.len(),
{
    if repo.len() == 0 {
        0
    } else {
        remaining(repo.drop_last(), seen) + if names(seen).contains(repo.last().name) {
            0nat
        } else {
            1nat
        }
    }
}

/// No more packages remain than the repository has.
pub proof fn lemma_remaining_bound(repo: Seq<PackageView>, seen: Seq<Key>)
    ensures
        remaining(repo, seen) <= repo.len(),
    decreases repo.len(),
{
    if repo.len() > 0 {
        lemma_remaining_bound(repo.drop_last(), seen);
    }
}

/// Where more was seen, no more packages remain.
pub proof fn lemma_remaining_monotone(repo: Seq<PackageView>, seen: Seq<Key>, more: Seq<Key>)
    requires
        forall|name: Seq<char>| names(seen).contains(name) ==> names(more).contains(name),
    ensures
        remaining(repo, more) <= remaining(repo, seen),
    decreases repo.len(),
{
    if repo.len() > 0 {
        lemma_remaining_monotone(repo.drop_last(), seen, more);
    }
}

/// Seeing the name of a package of the repository that was not seen leaves
/// fewer packages.
pub proof fn lemma_remaining_less(repo: Seq<PackageView>, seen: Seq<Key>, more: Seq<Key>, at: int)
    requires
        0 <= at < repo.len(),
        !names(seen).contains(repo[at].name),
        names(more).contains(repo[at].name),
        forall|name: Seq<char>| names(seen).contains(name) ==> names(more).contains(name),
    ensures
        remaining(repo, more) < remaining(repo, seen),
    decreases repo.len(),
{
    if at == repo.len() - 1 {
        lemma_remaining_monotone(repo.drop_last(), seen, more);
    } else {
        lemma_remaining_less(repo.drop_last(), seen, more, at);
    }
}

/// What was seen is still seen when more is.
pub proof fn lemma_names_grow(seen: Seq<Key>, more: Seq<Key>)
    ensures
        forall|name: Seq<char>| names(seen).contains(name) ==> names(seen + more).contains(name),
        forall|name: Seq<char>| names(more).contains(name) ==> names(seen + more).contains(name),
{
    assert forall|name: Seq<char>| names(seen).contains(name) implies names(seen + more).contains(
        name,
    ) by {
        let k = choose|k: int| 0 <= k < names(seen).len() && names(seen)[k] == name;
        assert(names(seen + more)[k] == name);
    }
    assert forall|name: Seq<char>| names(more).contains(name) implies names(seen + more).contains(
        name,
    ) by {
        let k = choose|k: int| 0 <= k < names(more).len() && names(more)[k] == name;
        assert(names(seen + more)[seen.len() + k] == name);
    }
}

/// An error among the first dependencies is the error of them all.
pub proof fn lemma_dependencies_error(
    repo: Seq<PackageView>,
    dependencies: Seq<Key>,
    n: int,
    seen: Seq<Key>,
    fuel: nat,
)
    requires
        0 <= n <= dependencies.len(),
        resolve_dependencies(repo, dependencies.take(n), seen, fuel) is Err,
    ensures
        resolve_dependencies(repo, dependencies, seen, fuel) == resolve_dependencies(
            repo,
            dependencies.take(n),
            seen,
            fuel,
        ),
    decreases dependencies.len(),
{
    if n == dependencies.len() {
        assert(dependencies.take(n) =~= dependencies);
    } else {
        assert(dependencies.drop_last().take(n) =~= dependencies.take(n));
        lemma_dependencies_error(repo, dependencies.drop_last(), n, seen, fuel);
    }
}

/// An error among the first packages to add is the error of them all.
pub proof fn lemma_candidates_error(
    repo: Seq<PackageView>,
    candidates: Seq<PackageView>,
    n: int,
    seen: Seq<Key>,
    fuel: nat,
)
    requires
        0 <= n <= candidates.len(),
        resolve_candidates(repo, candidates.take(n), seen, fuel) is Err,
    ensures
        resolve_candidates(repo, candidates, seen, fuel) == resolve_candidates(
            repo,
            candidates.take(n),
            seen,
            fuel,
        ),
    decreases candidates.len(),
{
    if n == candidates.len() {
        assert(candidates.take(n) =~= candidates);
    } else {
        assert(candidates.drop_last().take(n) =~= candidates.take(n));
        lemma_candidates_error(repo, candidates.drop_last(), n, seen, fuel);
    }
}

/// A name that is not among names without duplicates can be added to them.
pub proof fn lemma_push_no_duplicates(seen: Seq<Key>, key: Key)
    requires
        names(seen).no_duplicates(),
        !names(seen).contains(key.0),
    ensures
        names(seen.push(key)).no_duplicates(),
{
    let after = names(seen.push(key));
    assert(after =~= names(seen).push(key.0));
    assert forall|i: int, j: int| 0 <= i < after.len() && 0 <= j < after.len() && i != j implies after[i]
        != after[j] by {
        if i < names(seen).len() && j < names(seen).len() {
            assert(names(seen)[i] != names(seen)[j]);
        } else if i < names(seen).len() {
            assert(names(seen)[i] != key.0);
        } else {
            assert(names(seen)[j] != key.0);
        }
    }
}

/// A name is among the seen packages exactly where a version is found for
/// it.
pub proof fn lemma_seen_version(seen: Seq<Key>, name: Seq<char>)
    ensures
        seen_version(seen, name).is_some() <==> names(seen).contains(name),
    decreases seen.len(),
{
    if seen.len() > 0 {
        lemma_seen_version(seen.drop_first(), name);
        let rest = seen.drop_first();
        if names(seen).contains(name) && seen[0].0 != name {
            let k = choose|k: int| 0 <= k < names(seen).len() && names(seen)[k] == name;
            assert(names(rest)[k - 1] == name);
        }
        if names(rest).contains(name) {
            let k = choose|k: int| 0 <= k < names(rest).len() && names(rest)[k] == name;
            assert(names(seen)[k + 1] == name);
        }
        if seen[0].0 == name {
            assert(names(seen)[0] == name);
        }
    }
}

} // verus!
