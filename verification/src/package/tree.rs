//! The tree of what a package needs.

use crate::package::dependency::{DependencyError, PackageVersionConstraint};
use crate::package::name::{PackageName, PackageVersion};
use crate::package::package::{constraint_views, same_key, Package, PackageView};
use crate::package::resolution::{deeper_views, keys, lemma_seen_version, names, resolve_candidates};
use crate::package::resolution::{lemma_candidates_error, lemma_dependencies_error};
use crate::package::resolution::lemma_push_no_duplicates;
use crate::package::resolution::{lemma_names_grow, lemma_remaining_bound, lemma_remaining_less};
use crate::package::resolution::{lemma_remaining_monotone, remaining};
use crate::package::resolution::{resolve_dependencies, resolve_package, seen_version};
use crate::package::resolution::{spec_add_package, Key, NodeView, TreeErrorView};
use crate::repository::{is_candidate, package_ref_views, Repository};
use crate::util::text::texts;
use vstd::prelude::*;
use vstd::string::{StrSliceExecFns, StringExecFns};

verus! {

/// A package in a tree, with how deep it stands: 0 for a package at the
/// root.
pub struct Node {
    pub package: Package,
    pub depth: nat,
}

/// The nodes one level further down.
pub open spec fn deeper(nodes: Seq<Node>) -> Seq<Node> {
    nodes.map_values(|n: Node| Node { package: n.package, depth: n.depth + 1 })
}

/// The names of the packages of some nodes.
pub open spec fn node_names(nodes: Seq<Node>) -> Seq<Seq<char>> {
    nodes.map_values(|n: Node| n.package@.name)
}

/// The nodes as values.
pub open spec fn node_views(nodes: Seq<Node>) -> Seq<NodeView> {
    nodes.map_values(|n: Node| (n.package@, n.depth))
}

/// Why a package could not be added to a tree.
#[derive(Debug)]
pub enum TreeError {
    /// A specifier of a package on the way reads as no dependency.
    Dependency(DependencyError),
    /// The repository holds no package of this name that meets the
    /// constraint.
    NoCandidate { name: PackageName, constraint: PackageVersionConstraint },
    /// A package of this name is in the tree already. The versions are that
    /// of the package in the tree and that of the package to add.
    DuplicatePackage { name: PackageName, versions: Vec<PackageVersion> },
}

/// The texts of some versions.
pub open spec fn version_texts(versions: Seq<PackageVersion>) -> Seq<Seq<char>> {
    versions.map_values(|v: PackageVersion| v@)
}

impl View for TreeError {
    type V = TreeErrorView;

    open spec fn view(&self) -> TreeErrorView {
        match *self {
            TreeError::Dependency(e) => TreeErrorView::Dependency(e),
            TreeError::NoCandidate { name, constraint } => TreeErrorView::NoCandidate {
                name: name@,
                constraint: constraint@,
            },
            TreeError::DuplicatePackage { name, versions } => TreeErrorView::DuplicatePackage {
                name: name@,
                versions: version_texts(versions@),
            },
        }
    }
}

/// The names and versions of some packages that were seen.
pub open spec fn seen_keys(seen: Seq<(PackageName, PackageVersion)>) -> Seq<Key> {
    seen.map_values(|k: (PackageName, PackageVersion)| (k.0@, k.1@))
}

/// Whether `r` reports the outcome `result` of adding nodes to a tree:
/// where nodes were added, the tree has its nodes, then these, and they are
/// seen; names that were seen once each still are.
pub open spec fn is_added(
    r: Result<(), TreeError>,
    result: Result<Seq<NodeView>, TreeErrorView>,
    old_nodes: Seq<Node>,
    new_nodes: Seq<Node>,
    old_seen: Seq<Key>,
    new_seen: Seq<Key>,
) -> bool {
    match r {
        Ok(()) => {
            &&& result is Ok
            &&& node_views(new_nodes) == node_views(old_nodes) + result->Ok_0
            &&& new_seen == old_seen + keys(result->Ok_0)
            &&& names(old_seen).no_duplicates() ==> names(new_seen).no_duplicates()
        },
        Err(e) => result == Err::<Seq<NodeView>, TreeErrorView>(e@),
    }
}

/// The blanks before the line of a package that stands `depth` deep: one
/// at the root, two for each level below.
pub open spec fn indentation(depth: nat) -> Seq<char> {
    Seq::new(
        if depth == 0 {
            1nat
        } else {
            2 * depth
        },
        |i: int| ' ',
    )
}

/// The line of a node: its indentation, a hyphen, and the name and the
/// version of its package.
pub open spec fn debug_line(node: NodeView) -> Seq<char> {
    indentation(node.1) + "- "@ + node.0.name + " "@ + node.0.version
}

/// The lines of some nodes.
pub open spec fn debug_lines(nodes: Seq<NodeView>) -> Seq<Seq<char>> {
    nodes.map_values(|n: NodeView| debug_line(n))
}

/// Finds the first package of a name among those that were seen.
fn find_seen<'a>(seen: &'a Vec<(PackageName, PackageVersion)>, name: &PackageName) -> (r: Option<
    &'a PackageVersion,
>)
    ensures
        match r {
            Some(version) => seen_version(seen_keys(seen@), name@) == Some(version@),
            None => seen_version(seen_keys(seen@), name@).is_none(),
        },
{
    let mut i: usize = 0;
    proof {
        assert(seen_keys(seen@).skip(0) =~= seen_keys(seen@));
    }
    while i < seen.len()
        invariant
            i <= seen.len(),
            seen_version(seen_keys(seen@), name@) == seen_version(
                seen_keys(seen@).skip(i as int),
                name@,
            ),
        decreases seen.len() - i,
    {
        proof {
            assert(seen_keys(seen@).skip(i as int).drop_first() =~= seen_keys(seen@).skip(
                i as int + 1,
            ));
        }
        if seen[i].0 == *name {
            return Some(&seen[i].1);
        }
        i = i + 1;
    }
    None
}

/// Whether the test `accept` has denied every node that stands less than
/// `below` deep.
pub open spec fn none_match<F: Fn(&Package) -> bool>(nodes: Seq<Node>, accept: F, below: nat) -> bool {
    forall|k: int|
        0 <= k < nodes.len() && (#[trigger] nodes[k]).depth < below ==> call_ensures(
            accept,
            (&nodes[k].package,),
            false,
        )
}

/// Whether the test `accept` has accepted a node that stands `depth` deep.
pub open spec fn some_match<F: Fn(&Package) -> bool>(nodes: Seq<Node>, accept: F, depth: nat) -> bool {
    exists|k: int|
        0 <= k < nodes.len() && (#[trigger] nodes[k]).depth == depth && call_ensures(
            accept,
            (&nodes[k].package,),
            true,
        )
}

/// Whether `r` answers how deep the first node stands that the test `accept`
/// accepts, level by level: the test accepted a node at this depth and
/// denied every node above it; or it denied every node whose depth fits the
/// machine's numbers.
pub open spec fn is_depth_where<F: Fn(&Package) -> bool>(nodes: Seq<Node>, accept: F, r: Option<usize>) -> bool {
    match r {
        Some(depth) => some_match(nodes, accept, depth as nat) && none_match(nodes, accept, depth as nat),
        None => none_match(nodes, accept, (usize::MAX + 1) as nat),
    }
}

/// Whether `r` answers how deep the package stands in the tree: a node at
/// this depth is the package and none above it is; or no node is the
/// package whose depth fits the machine's numbers.
pub open spec fn is_depth_of(nodes: Seq<Node>, package: PackageView, r: Option<usize>) -> bool {
    match r {
        Some(depth) => (exists|k: int|
            0 <= k < nodes.len() && (#[trigger] nodes[k]).depth == depth && same_key(
                nodes[k].package@,
                package,
            )) && (forall|k: int|
            0 <= k < nodes.len() && same_key((#[trigger] nodes[k]).package@, package) ==> nodes[k].depth
                >= depth),
        None => forall|k: int|
            0 <= k < nodes.len() && (#[trigger] nodes[k]).depth <= usize::MAX ==> !same_key(
                nodes[k].package@,
                package,
            ),
    }
}

/// What was denied in two stretches of nodes was denied in both together.
proof fn lemma_none_match_concat<F: Fn(&Package) -> bool>(a: Seq<Node>, b: Seq<Node>, accept: F, below: nat)
    requires
        none_match(a, accept, below),
        none_match(b, accept, below),
    ensures
        none_match(a + b, accept, below),
{
    assert forall|k: int| 0 <= k < (a + b).len() && (#[trigger] (a + b)[k]).depth < below implies call_ensures(
        accept,
        (&(a + b)[k].package,),
        false,
    ) by {
        if k < a.len() {
            assert(a[k].depth < below);
        } else {
            assert(b[k - a.len()].depth < below);
        }
    }
}

/// What was denied above a depth was denied above every smaller depth.
proof fn lemma_none_match_less<F: Fn(&Package) -> bool>(nodes: Seq<Node>, accept: F, below: nat, less: nat)
    requires
        none_match(nodes, accept, below),
        less <= below,
    ensures
        none_match(nodes, accept, less),
{
    assert forall|k: int| 0 <= k < nodes.len() && (#[trigger] nodes[k]).depth < less implies call_ensures(
        accept,
        (&nodes[k].package,),
        false,
    ) by {
        assert(nodes[k].depth < below);
    }
}

/// A match in a stretch of nodes is a match in a longer one.
proof fn lemma_some_match_concat<F: Fn(&Package) -> bool>(a: Seq<Node>, b: Seq<Node>, accept: F, depth: nat)
    requires
        some_match(a, accept, depth) || some_match(b, accept, depth),
    ensures
        some_match(a + b, accept, depth),
{
    if some_match(a, accept, depth) {
        let k = choose|k: int|
            0 <= k < a.len() && (#[trigger] a[k]).depth == depth && call_ensures(
                accept,
                (&a[k].package,),
                true,
            );
        assert((a + b)[k].depth == depth);
    } else {
        let k = choose|k: int|
            0 <= k < b.len() && (#[trigger] b[k]).depth == depth && call_ensures(
                accept,
                (&b[k].package,),
                true,
            );
        assert((a + b)[a.len() + k].depth == depth);
    }
}

/// What holds of nodes holds of the same nodes one level further down, one
/// level further down.
proof fn lemma_deeper_match<F: Fn(&Package) -> bool>(nodes: Seq<Node>, accept: F, depth: nat)
    ensures
        none_match(nodes, accept, depth) ==> none_match(deeper(nodes), accept, depth + 1),
        some_match(nodes, accept, depth) ==> some_match(deeper(nodes), accept, depth + 1),
{
    if none_match(nodes, accept, depth) {
        assert forall|k: int|
            0 <= k < deeper(nodes).len() && (#[trigger] deeper(nodes)[k]).depth < depth
                + 1 implies call_ensures(accept, (&deeper(nodes)[k].package,), false) by {
            assert(nodes[k].depth < depth);
        }
    }
    if some_match(nodes, accept, depth) {
        let k = choose|k: int|
            0 <= k < nodes.len() && (#[trigger] nodes[k]).depth == depth && call_ensures(
                accept,
                (&nodes[k].package,),
                true,
            );
        assert(deeper(nodes)[k].depth == depth + 1);
    }
}

/// A tree of packages: each package with the tree of what it needs.
#[derive(Debug)]
pub struct Tree {
    root: Vec<(Package, Tree)>,
}

impl Tree {
    /// The packages at the root, each with the tree of what it needs, in
    /// the order in which they were added.
    pub closed spec fn children(&self) -> Seq<(Package, Tree)> {
        self.root@
    }

    /// The nodes of the first `n` packages at the root and of what they
    /// need: each package before what it needs.
    pub open spec fn nodes_upto(&self, n: nat) -> Seq<Node>
        decreases self, n,
    {
        if n == 0 || n > self.children().len() {
            Seq::empty()
        } else {
            let child = self.children()[n - 1];
            self.nodes_upto((n - 1) as nat) + seq![Node { package: child.0, depth: 0 }] + deeper(
                child.1.nodes_upto(child.1.children().len()),
            )
        }
    }

    /// All nodes of the tree: each package before what it needs.
    pub open spec fn nodes(&self) -> Seq<Node> {
        self.nodes_upto(self.children().len())
    }

    /// Whether a node of the tree has the name.
    pub open spec fn has_name(&self, name: Seq<char>) -> bool {
        node_names(self.nodes()).contains(name)
    }

    /// Whether no two nodes of the tree have the same name.
    pub open spec fn wf(&self) -> bool {
        node_names(self.nodes()).no_duplicates()
    }

    /// The tree of what a package at the root needs is smaller than the
    /// tree.
    pub proof fn lemma_subtree_smaller(&self, i: int)
        requires
            0 <= i < self.children().len(),
        ensures
            decreases_to!(*self => self.children()[i].1),
    {
    }

    /// The nodes of the first packages are the first nodes of the tree.
    pub proof fn lemma_nodes_prefix(&self, j: nat, n: nat)
        requires
            j <= n <= self.children().len(),
        ensures
            self.nodes_upto(j).is_prefix_of(self.nodes_upto(n)),
        decreases n,
    {
        if j < n {
            self.lemma_nodes_prefix(j, (n - 1) as nat);
            let shorter = self.nodes_upto((n - 1) as nat);
            let longer = self.nodes_upto(n);
            assert(shorter.is_prefix_of(longer)) by {
                assert(shorter =~= longer.subrange(0, shorter.len() as int));
            }
            assert(self.nodes_upto(j) =~= longer.subrange(0, self.nodes_upto(j).len() as int));
        } else {
            assert(self.nodes_upto(j) =~= self.nodes_upto(n).subrange(
                0,
                self.nodes_upto(j).len() as int,
            ));
        }
    }

    /// A tree without packages.
    pub fn new() -> (r: Tree)
        ensures
            r.children().len() == 0,
            r.nodes().len() == 0,
            r.wf(),
    {
        Tree { root: Vec::new() }
    }

    /// The packages at the root of the tree, in the order in which they
    /// were added: not those that they need.
    pub fn packages(&self) -> (r: Vec<&Package>)
        ensures
            r@.len() == self.children().len(),
            forall|i: int| 0 <= i < r@.len() ==> *(#[trigger] r@[i]) == self.children()[i].0,
    {
        let mut r: Vec<&Package> = Vec::new();
        let mut i: usize = 0;
        while i < self.root.len()
            invariant
                i <= self.root.len(),
                r@.len() == i,
                forall|k: int| 0 <= k < i ==> *(#[trigger] r@[k]) == self.root@[k].0,
            decreases self.root.len() - i,
        {
            r.push(&self.root[i].0);
            i = i + 1;
        }
        r
    }

    /// The trees of what the packages at the root need, in the order of
    /// the packages.
    pub fn dependencies(&self) -> (r: Vec<&Tree>)
        ensures
            r@.len() == self.children().len(),
            forall|i: int| 0 <= i < r@.len() ==> *(#[trigger] r@[i]) == self.children()[i].1,
    {
        let mut r: Vec<&Tree> = Vec::new();
        let mut i: usize = 0;
        while i < self.root.len()
            invariant
                i <= self.root.len(),
                r@.len() == i,
                forall|k: int| 0 <= k < i ==> *(#[trigger] r@[k]) == self.root@[k].1,
            decreases self.root.len() - i,
        {
            r.push(&self.root[i].1);
            i = i + 1;
        }
        r
    }

    /// Whether the tree holds a package of the name of `p`, at the root or
    /// anywhere below.
    pub fn has_package(&self, p: &Package) -> (r: bool)
        ensures
            r == self.has_name(p@.name),
        decreases self,
    {
        let mut i: usize = 0;
        proof {
            assert(node_names(self.nodes_upto(0)) =~= Seq::<Seq<char>>::empty());
        }
        while i < self.root.len()
            invariant
                i <= self.root.len(),
                !node_names(self.nodes_upto(i as nat)).contains(p@.name),
            decreases self.root.len() - i,
        {
            let child = &self.root[i];
            let ghost before = self.nodes_upto(i as nat);
            let ghost own = seq![Node { package: child.0, depth: 0 }];
            let ghost below = deeper(child.1.nodes());
            proof {
                assert(self.nodes_upto((i + 1) as nat) == before + own + below);
                assert(node_names(before + own + below) =~= node_names(before) + seq![
                    child.0@.name,
                ] + node_names(child.1.nodes()));
            }
            let found = child.0.same_name(p) || child.1.has_package(p);
            if found {
                proof {
                    let names = node_names(self.nodes_upto((i + 1) as nat));
                    if child.0@.name == p@.name {
                        assert(names[node_names(before).len() as int] == p@.name);
                    } else {
                        let k = choose|k: int|
                            0 <= k < node_names(child.1.nodes()).len() && node_names(
                                child.1.nodes(),
                            )[k] == p@.name;
                        assert(names[node_names(before).len() + 1 + k] == p@.name);
                    }
                    self.lemma_nodes_prefix((i + 1) as nat, self.root@.len());
                    let at = choose|at: int| 0 <= at < names.len() && names[at] == p@.name;
                    assert(self.nodes()[at] == self.nodes_upto((i + 1) as nat)[at]);
                    assert(node_names(self.nodes())[at] == p@.name);
                }
                return true;
            }
            proof {
                let names = node_names(self.nodes_upto((i + 1) as nat));
                if names.contains(p@.name) {
                    let at = choose|at: int| 0 <= at < names.len() && names[at] == p@.name;
                    if at < node_names(before).len() {
                        assert(node_names(before)[at] == p@.name);
                    } else if at > node_names(before).len() {
                        assert(node_names(child.1.nodes())[at - node_names(before).len() - 1]
                            == p@.name);
                    }
                }
            }
            i = i + 1;
        }
        false
    }

    /// Searches the tree by `accept`, level by level.
    fn depth_where<F: Fn(&Package) -> bool>(&self, accept: &F) -> (r: Option<usize>)
        requires
            forall|p: &Package| call_requires(*accept, (p,)),
        ensures
            is_depth_where(self.nodes(), *accept, r),
        decreases self,
    {
        let mut i: usize = 0;
        while i < self.root.len()
            invariant
                i <= self.root.len(),
                forall|p: &Package| call_requires(*accept, (p,)),
                forall|k: int|
                    0 <= k < i ==> call_ensures(*accept, (&(#[trigger] self.root@[k]).0,), false),
            decreases self.root.len() - i,
        {
            if accept(&self.root[i].0) {
                proof {
                    let own = Node { package: self.root@[i as int].0, depth: 0 };
                    let at = self.nodes_upto(i as nat).len() as int;
                    assert(self.nodes_upto((i + 1) as nat)[at] == own);
                    self.lemma_nodes_prefix((i + 1) as nat, self.root@.len());
                    assert(self.nodes()[at] == own);
                }
                return Some(0);
            }
            i = i + 1;
        }
        let mut best: Option<usize> = None;
        let mut j: usize = 0;
        while j < self.root.len()
            invariant
                j <= self.root.len(),
                forall|p: &Package| call_requires(*accept, (p,)),
                forall|k: int|
                    0 <= k < self.root@.len() ==> call_ensures(
                        *accept,
                        (&(#[trigger] self.root@[k]).0,),
                        false,
                    ),
                is_depth_where(self.nodes_upto(j as nat), *accept, best),
            decreases self.root.len() - j,
        {
            let child = &self.root[j];
            let found = child.1.depth_where(accept);
            let ghost before = self.nodes_upto(j as nat);
            let ghost own = seq![Node { package: child.0, depth: 0 }];
            let ghost below = deeper(child.1.nodes());
            let ghost limit = (usize::MAX + 1) as nat;
            let candidate: Option<usize> = match found {
                Some(depth) => if depth < usize::MAX {
                    Some(depth + 1)
                } else {
                    None
                },
                None => None,
            };
            proof {
                assert(self.nodes_upto((j + 1) as nat) == before + own + below);
                assert(call_ensures(*accept, (&self.root@[j as int].0,), false));
                match found {
                    Some(depth) => {
                        lemma_deeper_match(child.1.nodes(), *accept, depth as nat);
                    },
                    None => {
                        lemma_deeper_match(child.1.nodes(), *accept, limit);
                        lemma_none_match_less(below, *accept, limit + 1, limit);
                    },
                }
                assert(is_depth_where(below, *accept, candidate));
            }
            let next: Option<usize> = match (best, candidate) {
                (Some(a), Some(b)) => if b < a {
                    Some(b)
                } else {
                    Some(a)
                },
                (Some(a), None) => Some(a),
                (None, other) => other,
            };
            proof {
                let bound: nat = match next {
                    Some(depth) => depth as nat,
                    None => limit,
                };
                let before_bound: nat = match best {
                    Some(depth) => depth as nat,
                    None => limit,
                };
                let below_bound: nat = match candidate {
                    Some(depth) => depth as nat,
                    None => limit,
                };
                assert(none_match(own, *accept, bound));
                lemma_none_match_less(before, *accept, before_bound, bound);
                lemma_none_match_less(below, *accept, below_bound, bound);
                lemma_none_match_concat(before, own, *accept, bound);
                lemma_none_match_concat(before + own, below, *accept, bound);
                if next.is_some() {
                    if best == next {
                        lemma_some_match_concat(before, own, *accept, bound);
                        lemma_some_match_concat(before + own, below, *accept, bound);
                    } else {
                        lemma_some_match_concat(before + own, below, *accept, bound);
                    }
                }
            }
            best = next;
            j = j + 1;
        }
        best
    }

    /// Finds how deep the first package stands that `accept` accepts, the
    /// tree being searched level by level; a package at the root stands at
    /// depth 0.
    pub fn package_depth_where<F: Fn(&Package) -> bool>(&self, accept: F) -> (r: Option<usize>)
        requires
            forall|p: &Package| call_requires(accept, (p,)),
        ensures
            is_depth_where(self.nodes(), accept, r),
    {
        self.depth_where(&accept)
    }

    /// Finds how deep the package `p` stands in the tree; a package at the
    /// root stands at depth 0.
    pub fn package_depth(&self, p: &Package) -> (r: Option<usize>)
        ensures
            is_depth_of(self.nodes(), p@, r),
    {
        let is_p = |k: &Package| -> (b: bool)
            ensures
                b == same_key(k@, p@),
            { k.same_package(p) };
        let r = self.package_depth_where(is_p);
        proof {
            let nodes = self.nodes();
            match r {
                Some(depth) => {
                    let k = choose|k: int|
                        0 <= k < nodes.len() && (#[trigger] nodes[k]).depth == depth as nat
                            && call_ensures(is_p, (&nodes[k].package,), true);
                    assert(same_key(nodes[k].package@, p@));
                    assert forall|k: int|
                        0 <= k < nodes.len() && same_key(
                            (#[trigger] nodes[k]).package@,
                            p@,
                        ) implies nodes[k].depth >= depth by {
                        if nodes[k].depth < depth {
                            assert(call_ensures(is_p, (&nodes[k].package,), false));
                        }
                    }
                },
                None => {
                    assert forall|k: int|
                        0 <= k < nodes.len() && (#[trigger] nodes[k]).depth
                            <= usize::MAX implies !same_key(nodes[k].package@, p@) by {
                        assert(nodes[k].depth < (usize::MAX + 1) as nat);
                        assert(call_ensures(is_p, (&nodes[k].package,), false));
                    }
                },
            }
        }
        r
    }

    /// Two trees with the same first packages have the same first nodes.
    proof fn lemma_nodes_agree(&self, other: &Tree, n: nat)
        requires
            n <= self.children().len(),
            n <= other.children().len(),
            self.children().take(n as int) == other.children().take(n as int),
        ensures
            self.nodes_upto(n) == other.nodes_upto(n),
        decreases n,
    {
        if n > 0 {
            assert(self.children().take(n as int - 1) =~= self.children().take(n as int).take(
                n as int - 1,
            ));
            assert(other.children().take(n as int - 1) =~= other.children().take(n as int).take(
                n as int - 1,
            ));
            self.lemma_nodes_agree(other, (n - 1) as nat);
            assert(self.children()[n - 1] == self.children().take(n as int)[n - 1]);
            assert(other.children()[n - 1] == other.children().take(n as int)[n - 1]);
        }
    }

    /// Adds a package with the tree of what it needs at the root.
    fn push_child(&mut self, package: Package, below: Tree)
        ensures
            final(self).children() == old(self).children().push((package, below)),
            final(self).nodes() == old(self).nodes() + seq![Node { package, depth: 0 }] + deeper(
                below.nodes(),
            ),
    {
        let ghost before = *self;
        self.root.push((package, below));
        proof {
            let n = before.children().len();
            assert(self.children().take(n as int) =~= before.children().take(n as int));
            self.lemma_nodes_agree(&before, n);
        }
    }

    /// Collects the names and versions of all packages of the tree, each
    /// package before what it needs.
    fn collect_keys(&self, seen: &mut Vec<(PackageName, PackageVersion)>)
        ensures
            seen_keys(final(seen)@) == seen_keys(old(seen)@) + keys(node_views(self.nodes())),
        decreases self,
    {
        let mut i: usize = 0;
        proof {
            assert(seen_keys(seen@) + keys(node_views(self.nodes_upto(0))) =~= seen_keys(seen@));
        }
        while i < self.root.len()
            invariant
                i <= self.root.len(),
                seen_keys(seen@) == seen_keys(old(seen)@) + keys(
                    node_views(self.nodes_upto(i as nat)),
                ),
            decreases self.root.len() - i,
        {
            let child = &self.root[i];
            let ghost start = seen_keys(seen@);
            let ghost before = self.nodes_upto(i as nat);
            let ghost own = seq![Node { package: child.0, depth: 0 }];
            let ghost below = deeper(child.1.nodes());
            seen.push((child.0.name().clone(), child.0.version().clone()));
            let ghost pushed = seen_keys(seen@);
            child.1.collect_keys(seen);
            proof {
                assert(pushed =~= start.push((child.0@.name, child.0@.version)));
                assert(self.nodes_upto((i + 1) as nat) == before + own + below);
                assert(keys(node_views(before + own + below)) =~= keys(node_views(before)) + seq![
                    (child.0@.name, child.0@.version),
                ] + keys(node_views(child.1.nodes())));
                assert(seen_keys(seen@) =~= seen_keys(old(seen)@) + keys(
                    node_views(self.nodes_upto((i + 1) as nat)),
                ));
            }
            i = i + 1;
        }
    }

    /// Builds the tree of what a package needs. `seen` are the packages
    /// that are in the tree already, the package itself among them; those
    /// of the new tree are added to them.
    fn build_subtree(
        package: &Package,
        repo: &Repository,
        seen: &mut Vec<(PackageName, PackageVersion)>,
        fuel: u128,
    ) -> (r: Result<Tree, TreeError>)
        requires
            fuel >= remaining(repo@, seen_keys(old(seen)@)),
        ensures
            match r {
                Ok(tree) => {
                    &&& resolve_package(repo@, package@, seen_keys(old(seen)@), fuel as nat) == Ok::<
                        Seq<NodeView>,
                        TreeErrorView,
                    >(node_views(tree.nodes()))
                    &&& seen_keys(final(seen)@) == seen_keys(old(seen)@) + keys(
                        node_views(tree.nodes()),
                    )
                    &&& names(seen_keys(old(seen)@)).no_duplicates() ==> names(
                        seen_keys(final(seen)@),
                    ).no_duplicates()
                },
                Err(e) => resolve_package(repo@, package@, seen_keys(old(seen)@), fuel as nat)
                    == Err::<Seq<NodeView>, TreeErrorView>(e@),
            },
        decreases fuel, 1nat,
    {
        let dependencies = match package.get_all_dependencies() {
            Ok(dependencies) => dependencies,
            Err(e) => {
                return Err(TreeError::Dependency(e));
            },
        };
        let ghost wanted = constraint_views(dependencies@);
        let ghost seen0 = seen_keys(seen@);
        let mut tree = Tree::new();
        let mut i: usize = 0;
        proof {
            assert(wanted.take(0) =~= Seq::<Key>::empty());
            assert(node_views(tree.nodes()) =~= Seq::<NodeView>::empty());
            assert(seen0 + keys(node_views(tree.nodes())) =~= seen0);
        }
        while i < dependencies.len()
            invariant
                i <= dependencies.len(),
                wanted == constraint_views(dependencies@),
                seen0 == seen_keys(old(seen)@),
                crate::package::package::parse_all(package@.build + package@.runtime) == Ok::<
                    Seq<Key>,
                    DependencyError,
                >(wanted),
                resolve_dependencies(repo@, wanted.take(i as int), seen0, fuel as nat) == Ok::<
                    Seq<NodeView>,
                    TreeErrorView,
                >(node_views(tree.nodes())),
                seen_keys(seen@) == seen0 + keys(node_views(tree.nodes())),
                names(seen0).no_duplicates() ==> names(seen_keys(seen@)).no_duplicates(),
                fuel >= remaining(repo@, seen0),
            decreases dependencies.len() - i,
        {
            let name = &dependencies[i].0;
            let constraint = &dependencies[i].1;
            let candidates = repo.find_with_version_constraint(name, constraint);
            let ghost before = node_views(tree.nodes());
            proof {
                assert(wanted.take(i as int + 1).drop_last() =~= wanted.take(i as int));
                assert(wanted.take(i as int + 1).last() == (name@, constraint@));
                lemma_names_grow(seen0, keys(before));
                lemma_remaining_monotone(repo@, seen0, seen_keys(seen@));
                let wanted_here = |p: PackageView| is_candidate(p, name@, constraint@);
                assert forall|k: int| 0 <= k < candidates@.len() implies repo@.contains(
                    #[trigger] package_ref_views(candidates@)[k],
                ) by {
                    let found = package_ref_views(candidates@);
                    assert(found.contains(found[k]));
                    repo@.lemma_filter_contains_rev(wanted_here, found[k]);
                }
            }
            if candidates.len() == 0 {
                proof {
                    lemma_dependencies_error(repo@, wanted, i as int + 1, seen0, fuel as nat);
                }
                return Err(
                    TreeError::NoCandidate { name: name.clone(), constraint: constraint.clone() },
                );
            }
            match tree.add_candidates(&candidates, repo, seen, fuel) {
                Ok(()) => {},
                Err(e) => {
                    proof {
                        lemma_dependencies_error(repo@, wanted, i as int + 1, seen0, fuel as nat);
                    }
                    return Err(e);
                },
            }
            proof {
                let more = resolve_candidates(
                    repo@,
                    package_ref_views(candidates@),
                    seen0 + keys(before),
                    fuel as nat,
                )->Ok_0;
                assert(keys(before + more) =~= keys(before) + keys(more));
                assert(seen_keys(seen@) =~= seen0 + keys(node_views(tree.nodes())));
            }
            i = i + 1;
        }
        proof {
            assert(wanted.take(i as int) =~= wanted);
        }
        Ok(tree)
    }

    /// Adds some packages at the root, each with the tree of what it
    /// needs. `seen` are the packages that are in the tree already; those
    /// that are added are added to them.
    fn add_candidates(
        &mut self,
        candidates: &Vec<&Package>,
        repo: &Repository,
        seen: &mut Vec<(PackageName, PackageVersion)>,
        fuel: u128,
    ) -> (r: Result<(), TreeError>)
        requires
            fuel >= remaining(repo@, seen_keys(old(seen)@)),
            forall|k: int|
                0 <= k < candidates@.len() ==> repo@.contains(
                    #[trigger] package_ref_views(candidates@)[k],
                ),
        ensures
            is_added(
                r,
                resolve_candidates(
                    repo@,
                    package_ref_views(candidates@),
                    seen_keys(old(seen)@),
                    fuel as nat,
                ),
                old(self).nodes(),
                final(self).nodes(),
                seen_keys(old(seen)@),
                seen_keys(final(seen)@),
            ),
            r is Ok ==> final(self).children().len() == old(self).children().len()
                + candidates@.len(),
        decreases fuel, 0nat,
    {
        let ghost all = package_ref_views(candidates@);
        let ghost seen0 = seen_keys(seen@);
        let ghost nodes0 = node_views(self.nodes());
        let ghost mut added: Seq<NodeView> = Seq::empty();
        let mut k: usize = 0;
        proof {
            assert(all.take(0) =~= Seq::<PackageView>::empty());
            assert(nodes0 + added =~= nodes0);
            assert(seen0 + keys(added) =~= seen0);
        }
        while k < candidates.len()
            invariant
                k <= candidates.len(),
                all == package_ref_views(candidates@),
                seen0 == seen_keys(old(seen)@),
                nodes0 == node_views(old(self).nodes()),
                resolve_candidates(repo@, all.take(k as int), seen0, fuel as nat) == Ok::<
                    Seq<NodeView>,
                    TreeErrorView,
                >(added),
                node_views(self.nodes()) == nodes0 + added,
                seen_keys(seen@) == seen0 + keys(added),
                names(seen0).no_duplicates() ==> names(seen_keys(seen@)).no_duplicates(),
                self.children().len() == old(self).children().len() + k,
                fuel >= remaining(repo@, seen0),
                forall|j: int|
                    0 <= j < candidates@.len() ==> repo@.contains(
                        #[trigger] package_ref_views(candidates@)[j],
                    ),
            decreases candidates.len() - k,
        {
            let candidate: &Package = candidates[k];
            let ghost seen_now = seen_keys(seen@);
            let ghost key = (candidate@.name, candidate@.version);
            proof {
                assert(all.take(k as int + 1).drop_last() =~= all.take(k as int));
                assert(all.take(k as int + 1).last() == candidate@);
            }
            match find_seen(seen, candidate.name()) {
                Some(version) => {
                    let versions = vec![version.clone(), candidate.version().clone()];
                    proof {
                        assert(version_texts(versions@) =~= seq![version@, candidate@.version]);
                        lemma_candidates_error(repo@, all, k as int + 1, seen0, fuel as nat);
                    }
                    return Err(
                        TreeError::DuplicatePackage { name: candidate.name().clone(), versions },
                    );
                },
                None => {},
            }
            proof {
                lemma_seen_version(seen_now, candidate@.name);
                lemma_names_grow(seen0, keys(added));
                lemma_remaining_monotone(repo@, seen0, seen_now);
                assert(repo@.contains(package_ref_views(candidates@)[k as int]));
                let at = choose|at: int| 0 <= at < repo@.len() && repo@[at] == candidate@;
                lemma_names_grow(seen_now, seq![key]);
                assert(seen_now.push(key) =~= seen_now + seq![key]);
                assert(names(seq![key])[0] == candidate@.name);
                assert(names(seq![key]).contains(candidate@.name));
                assert(names(seen_now.push(key)).contains(candidate@.name));
                lemma_remaining_less(repo@, seen_now, seen_now.push(key), at);
            }
            seen.push((candidate.name().clone(), candidate.version().clone()));
            proof {
                assert(seen_keys(seen@) =~= seen_now.push(key));
                if names(seen_now).no_duplicates() {
                    lemma_push_no_duplicates(seen_now, key);
                }
            }
            let below = match Tree::build_subtree(candidate, repo, seen, fuel - 1) {
                Ok(below) => below,
                Err(e) => {
                    proof {
                        lemma_candidates_error(repo@, all, k as int + 1, seen0, fuel as nat);
                    }
                    return Err(e);
                },
            };
            let ghost before = self.nodes();
            let stored = candidate.clone();
            self.push_child(stored, below);
            proof {
                let own = seq![Node { package: stored, depth: 0 }];
                let more = seq![(candidate@, 0nat)] + deeper_views(node_views(below.nodes()));
                let so_far = added;
                assert(node_views(before + own + deeper(below.nodes())) =~= node_views(before)
                    + more);
                assert(keys(more) =~= seq![key] + keys(node_views(below.nodes())));
                assert(keys(so_far + more) =~= keys(so_far) + keys(more));
                added = so_far + seq![(candidate@, 0nat)] + deeper_views(
                    node_views(below.nodes()),
                );
                assert(added =~= so_far + more);
                assert(node_views(self.nodes()) =~= nodes0 + added);
                assert(seen_keys(seen@) =~= seen0 + keys(added));
            }
            k = k + 1;
        }
        proof {
            assert(all.take(k as int) =~= all);
        }
        Ok(())
    }

    /// Adds a package to the tree, with the tree of what it needs: its
    /// dependencies, found in the repository, and theirs. No name may come
    /// twice in a tree.
    ///
    /// The result is the number of dependencies that were followed. Where
    /// the package cannot be added, the tree stays as it is.
    pub fn add_package(&mut self, p: Package, repo: &Repository) -> (r: Result<usize, TreeError>)
        ensures
            match r {
                Ok(steps) => {
                    &&& spec_add_package(repo@, node_views(old(self).nodes()), p@) is Ok
                    &&& node_views(final(self).nodes()) == node_views(old(self).nodes())
                        + spec_add_package(repo@, node_views(old(self).nodes()), p@)->Ok_0
                    &&& steps + 1 == spec_add_package(
                        repo@,
                        node_views(old(self).nodes()),
                        p@,
                    )->Ok_0.len()
                    &&& final(self).children().len() == old(self).children().len() + 1
                    &&& final(self).children().take(old(self).children().len() as int) == old(
                        self,
                    ).children()
                    &&& final(self).children().last().0@ == p@
                    &&& old(self).wf() ==> final(self).wf()
                },
                Err(e) => spec_add_package(repo@, node_views(old(self).nodes()), p@) == Err::<
                    Seq<NodeView>,
                    TreeErrorView,
                >(e@) && *final(self) == *old(self),
            },
            spec_add_package(repo@, node_views(old(self).nodes()), p@) != Err::<
                Seq<NodeView>,
                TreeErrorView,
            >(TreeErrorView::TooDeep),
    {
        let mut seen: Vec<(PackageName, PackageVersion)> = Vec::new();
        self.collect_keys(&mut seen);
        let known = seen.len();
        let ghost nodes0 = self.nodes();
        let ghost seen0 = seen_keys(seen@);
        let ghost key = (p@.name, p@.version);
        proof {
            assert(seen0 =~= keys(node_views(nodes0)));
            assert(names(keys(node_views(nodes0))) =~= node_names(nodes0));
        }
        match find_seen(&seen, p.name()) {
            Some(version) => {
                let versions = vec![version.clone(), p.version().clone()];
                proof {
                    assert(version_texts(versions@) =~= seq![version@, p@.version]);
                }
                return Err(TreeError::DuplicatePackage { name: p.name().clone(), versions });
            },
            None => {},
        }
        seen.push((p.name().clone(), p.version().clone()));
        let fuel: u128 = repo.packages().len() as u128;
        proof {
            assert(seen_keys(seen@) =~= seen0.push(key));
            lemma_seen_version(seen0, p@.name);
            if names(seen0).no_duplicates() {
                lemma_push_no_duplicates(seen0, key);
            }
            lemma_remaining_bound(repo@, seen_keys(seen@));
        }
        let below = match Tree::build_subtree(&p, repo, &mut seen, fuel) {
            Ok(below) => below,
            Err(e) => {
                return Err(e);
            },
        };
        let steps = seen.len() - known - 1;
        let ghost more = seq![(p@, 0nat)] + deeper_views(node_views(below.nodes()));
        let ghost before = self.children();
        proof {
            assert(seen_keys(seen@).len() == known + 1 + below.nodes().len());
            assert(keys(more) =~= seq![key] + keys(node_views(below.nodes())));
            assert(seen_keys(seen@) =~= seen0 + keys(more));
        }
        self.push_child(p, below);
        proof {
            assert(node_views(self.nodes()) =~= node_views(nodes0) + more);
            assert(self.children().take(before.len() as int) =~= before);
            assert(node_names(self.nodes()) =~= names(seen_keys(seen@)));
        }
        Ok(steps)
    }

    /// Writes the lines of the nodes of the tree below a package.
    fn push_lines(&self, indent: &str, out: &mut Vec<String>, Ghost(depth): Ghost<nat>)
        requires
            indent@ == indentation(depth),
        ensures
            texts(final(out)@) == texts(old(out)@) + debug_lines(
                node_views(self.nodes()).map_values(|n: NodeView| (n.0, n.1 + depth)),
            ),
        decreases self,
    {
        let child_indent = if indent.unicode_len() < 2 {
            String::from_str("  ")
        } else {
            String::from_str(indent).concat("  ")
        };
        proof {
            reveal_strlit("  ");
            assert(child_indent@ =~= indentation(depth + 1));
            assert(texts(out@) + debug_lines(
                node_views(self.nodes_upto(0)).map_values(|n: NodeView| (n.0, n.1 + depth)),
            ) =~= texts(out@));
        }
        let mut i: usize = 0;
        while i < self.root.len()
            invariant
                i <= self.root.len(),
                indent@ == indentation(depth),
                child_indent@ == indentation(depth + 1),
                texts(out@) == texts(old(out)@) + debug_lines(
                    node_views(self.nodes_upto(i as nat)).map_values(
                        |n: NodeView| (n.0, n.1 + depth),
                    ),
                ),
            decreases self.root.len() - i,
        {
            let child = &self.root[i];
            let ghost start = texts(out@);
            let ghost before = self.nodes_upto(i as nat);
            let ghost own = seq![Node { package: child.0, depth: 0 }];
            let ghost below = deeper(child.1.nodes());
            let line = String::from_str(indent).concat("- ").concat(child.0.name().as_str()).concat(
                " ",
            ).concat(child.0.version().as_str());
            out.push(line);
            let ghost pushed = texts(out@);
            child.1.push_lines(child_indent.as_str(), out, Ghost(depth + 1));
            proof {
                let shift = |n: NodeView| (n.0, n.1 + depth);
                let shift_more = |n: NodeView| (n.0, n.1 + (depth + 1));
                assert(pushed =~= start.push(debug_line((child.0@, depth))));
                assert(self.nodes_upto((i + 1) as nat) == before + own + below);
                assert(node_views(before + own + below).map_values(shift) =~= node_views(
                    before,
                ).map_values(shift) + seq![(child.0@, depth)] + node_views(
                    child.1.nodes(),
                ).map_values(shift_more));
                assert(debug_lines(
                    node_views(before).map_values(shift) + seq![(child.0@, depth)] + node_views(
                        child.1.nodes(),
                    ).map_values(shift_more),
                ) =~= debug_lines(node_views(before).map_values(shift)) + seq![
                    debug_line((child.0@, depth)),
                ] + debug_lines(node_views(child.1.nodes()).map_values(shift_more)));
                assert(texts(out@) =~= texts(old(out)@) + debug_lines(
                    node_views(self.nodes_upto((i + 1) as nat)).map_values(shift),
                ));
            }
            i = i + 1;
        }
    }

    /// The tree as lines of text: one for each package, each package before
    /// what it needs, which is indented below it.
    pub fn debug_print(&self) -> (lines: Vec<String>)
        ensures
            texts(lines@) == debug_lines(node_views(self.nodes())),
    {
        let mut lines: Vec<String> = Vec::new();
        proof {
            reveal_strlit(" ");
            assert(" "@ =~= indentation(0));
        }
        self.push_lines(" ", &mut lines, Ghost(0));
        proof {
            assert(node_views(self.nodes()).map_values(|n: NodeView| (n.0, n.1 + 0nat))
                =~= node_views(self.nodes()));
            assert(texts(lines@) =~= debug_lines(node_views(self.nodes())));
        }
        lines
    }
}

/// Whether every node of the name of a package holds the package itself:
/// the tree has the name in no other version.
pub open spec fn only_version(nodes: Seq<Node>, package: PackageView) -> bool {
    forall|k: int|
        0 <= k < nodes.len() && (#[trigger] nodes[k]).package@.name == package.name
            ==> nodes[k].package@.version == package.version
}

/// Whether the depth of every node fits the machine's numbers.
pub open spec fn depths_fit(nodes: Seq<Node>) -> bool {
    forall|k: int| 0 <= k < nodes.len() ==> (#[trigger] nodes[k]).depth <= usize::MAX
}

/// A tree has a package exactly where the package has a depth in it,
/// unless the tree has the name of the package in another version: `depth`
/// is what `package_depth` gives for the package, and `has_name` what
/// `has_package` gives.
pub proof fn lemma_has_package_iff_depth(tree: Tree, package: Package, depth: Option<usize>)
    requires
        is_depth_of(tree.nodes(), package@, depth),
        only_version(tree.nodes(), package@),
        depths_fit(tree.nodes()),
    ensures
        tree.has_name(package@.name) <==> depth.is_some(),
{
    let nodes = tree.nodes();
    let all = node_names(nodes);
    if all.contains(package@.name) {
        let k = choose|k: int| 0 <= k < all.len() && all[k] == package@.name;
        assert(nodes[k].package@.name == package@.name);
        assert(same_key(nodes[k].package@, package@));
        assert(nodes[k].depth <= usize::MAX);
    }
    if depth.is_some() {
        let k = choose|k: int|
            0 <= k < nodes.len() && (#[trigger] nodes[k]).depth == depth->Some_0 && same_key(
                nodes[k].package@,
                package@,
            );
        assert(all[k] == package@.name);
    }
}

/// In a tree without a name twice, a package that is in the tree is the
/// only version of its name there.
pub proof fn lemma_wf_only_version(tree: Tree, package: Package, at: int)
    requires
        tree.wf(),
        0 <= at < tree.nodes().len(),
        same_key(tree.nodes()[at].package@, package@),
    ensures
        only_version(tree.nodes(), package@),
{
    let nodes = tree.nodes();
    let all = node_names(nodes);
    assert forall|k: int|
        0 <= k < nodes.len() && (#[trigger] nodes[k]).package@.name
            == package@.name implies nodes[k].package@.version == package@.version by {
        assert(all[k] == all[at]);
        if k != at {
            assert(all[k] != all[at]);
        }
    }
}

} // verus!
