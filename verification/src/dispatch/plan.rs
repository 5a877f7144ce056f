//! The jobs of a submit: one for each package of the tree, in an order in
//! which every job comes behind the jobs that it depends on.

use crate::package::package::{Package, PackageView};
use crate::package::tree::Tree;
use vstd::prelude::*;

verus! {

/// A package of the tree with the place of the package that needs it, both
/// counted in the order of the nodes of the tree.
pub type Link = (PackageView, Option<int>);

/// The packages of the first `n` root packages of a tree and of what they
/// need, in the order of the nodes of the tree, each with the place of the
/// package that needs it. `parent` is the place of the package that needs
/// the root packages, and `offset` the place of the first of them.
pub open spec fn links_upto(tree: Tree, n: nat, parent: Option<int>, offset: int) -> Seq<Link>
    decreases tree, n,
{
    if n == 0 || n > tree.children().len() {
        Seq::empty()
    } else {
        let before = links_upto(tree, (n - 1) as nat, parent, offset);
        let child = tree.children()[n - 1];
        let place = offset + before.len();
        proof {
            tree.lemma_subtree_smaller(n - 1);
        }
        before + seq![(child.0@, parent)] + links_upto(
            child.1,
            child.1.children().len(),
            Some(place),
            place + 1,
        )
    }
}

/// The packages of a tree in the order of its nodes, each with the place
/// of the package that needs it; the packages at the root are needed by
/// none.
pub open spec fn links(tree: Tree) -> Seq<Link> {
    links_upto(tree, tree.children().len(), None, 0)
}

/// A tree has a link for each node.
pub proof fn lemma_links_len(tree: Tree, n: nat, parent: Option<int>, offset: int)
    requires
        n <= tree.children().len(),
    ensures
        links_upto(tree, n, parent, offset).len() == tree.nodes_upto(n).len(),
        forall|k: int|
            0 <= k < tree.nodes_upto(n).len() ==> (#[trigger] links_upto(tree, n, parent, offset)[k]).0
                == tree.nodes_upto(n)[k].package@,
    decreases tree, n,
{
    if n > 0 {
        lemma_links_len(tree, (n - 1) as nat, parent, offset);
        let before = links_upto(tree, (n - 1) as nat, parent, offset);
        let child = tree.children()[n - 1];
        let place = offset + before.len();
        tree.lemma_subtree_smaller(n - 1);
        lemma_links_len(child.1, child.1.children().len(), Some(place), place + 1);
    }
}

/// Whether the package that needs the package of a link stands before
/// `place`, if a package needs it.
pub open spec fn needed_before(link: Link, place: int) -> bool {
    match link.1 {
        Some(p) => p < place,
        None => true,
    }
}

/// Every package is needed by a package that stands before it.
pub proof fn lemma_links_parent(tree: Tree, n: nat, parent: Option<int>, offset: int)
    requires
        n <= tree.children().len(),
        match parent {
            Some(p) => p < offset,
            None => true,
        },
    ensures
        forall|k: int|
            0 <= k < links_upto(tree, n, parent, offset).len() ==> needed_before(
                #[trigger] links_upto(tree, n, parent, offset)[k],
                offset + k,
            ),
    decreases tree, n,
{
    if n > 0 {
        lemma_links_parent(tree, (n - 1) as nat, parent, offset);
        let before = links_upto(tree, (n - 1) as nat, parent, offset);
        let child = tree.children()[n - 1];
        let place = offset + before.len();
        tree.lemma_subtree_smaller(n - 1);
        lemma_links_parent(child.1, child.1.children().len(), Some(place), place + 1);
        let below = links_upto(child.1, child.1.children().len(), Some(place), place + 1);
        let all = links_upto(tree, n, parent, offset);
        assert forall|k: int| 0 <= k < all.len() implies needed_before(
            #[trigger] all[k],
            offset + k,
        ) by {
            if k < before.len() {
                assert(all[k] == before[k]);
            } else if k > before.len() {
                assert(all[k] == below[k - before.len() - 1]);
                assert(needed_before(below[k - before.len() - 1], place + 1 + (k - before.len() - 1)));
            }
        }
    }
}

/// The places of the packages that the package at `place` needs, in
/// ascending order.
pub open spec fn needed_by(links: Seq<Link>, place: int) -> Seq<int> {
    Seq::new(links.len(), |j: int| j).filter(|j: int| links[j].1 == Some(place))
}

/// A job of a submit: the package to build, and the places in the plan of
/// the jobs that must have succeeded before.
#[derive(Debug)]
pub struct PlannedJob {
    pub package: Package,
    pub depends_on: Vec<usize>,
}

/// The mathematical value of a planned job.
pub type PlannedView = (PackageView, Seq<int>);

/// The jobs as values.
pub open spec fn plan_views(jobs: Seq<PlannedJob>) -> Seq<PlannedView> {
    jobs.map_values(
        |job: PlannedJob| (job.package@, job.depends_on@.map_values(|d: usize| d as int)),
    )
}

/// The plan of a tree: a job for each package, in the reverse of the order
/// of the nodes, so that each package comes behind everything that it
/// needs. A job depends on the jobs of the packages that its package needs.
pub open spec fn spec_plan(tree: Tree) -> Seq<PlannedView> {
    let links = links(tree);
    let n = links.len() as int;
    Seq::new(
        links.len(),
        |i: int| (links[n - 1 - i].0, needed_by(links, n - 1 - i).map_values(|j: int| n - 1 - j)),
    )
}

/// Writes the links of a tree behind those that are there.
fn collect_links<'a>(tree: &'a Tree, parent: Option<usize>, out: &mut Vec<(&'a Package, Option<usize>)>)
    ensures
        link_views(final(out)@) == link_views(old(out)@) + links_upto(
            *tree,
            tree.children().len(),
            match parent {
                Some(p) => Some(p as int),
                None => None,
            },
            old(out)@.len() as int,
        ),
    decreases tree,
{
    let packages = tree.packages();
    let subtrees = tree.dependencies();
    let ghost up: Option<int> = match parent {
        Some(p) => Some(p as int),
        None => None,
    };
    let ghost offset = out@.len() as int;
    let mut i: usize = 0;
    proof {
        assert(link_views(out@) + links_upto(*tree, 0, up, offset) =~= link_views(out@));
    }
    while i < packages.len()
        invariant
            i <= packages.len(),
            packages@.len() == tree.children().len(),
            subtrees@.len() == tree.children().len(),
            forall|k: int| 0 <= k < packages@.len() ==> *(#[trigger] packages@[k]) == tree.children()[k].0,
            forall|k: int| 0 <= k < subtrees@.len() ==> *(#[trigger] subtrees@[k]) == tree.children()[k].1,
            offset == old(out)@.len(),
            up == match parent {
                Some(p) => Some(p as int),
                None => None,
            },
            link_views(out@) == link_views(old(out)@) + links_upto(*tree, i as nat, up, offset),
        decreases packages.len() - i,
    {
        let place = out.len();
        let ghost before = link_views(out@);
        out.push((packages[i], parent));
        let ghost pushed = link_views(out@);
        proof {
            tree.lemma_subtree_smaller(i as int);
            assert(pushed =~= before.push((packages@[i as int]@, up)));
        }
        collect_links(subtrees[i], Some(place), out);
        proof {
            let so_far = links_upto(*tree, i as nat, up, offset);
            let child = tree.children()[i as int];
            assert(place == offset + so_far.len());
            assert(links_upto(*tree, (i + 1) as nat, up, offset) == so_far + seq![(child.0@, up)]
                + links_upto(child.1, child.1.children().len(), Some(place as int), place + 1));
            assert(link_views(out@) =~= link_views(old(out)@) + links_upto(
                *tree,
                (i + 1) as nat,
                up,
                offset,
            ));
        }
        i = i + 1;
    }
}

/// The links as values.
pub open spec fn link_views(links: Seq<(&Package, Option<usize>)>) -> Seq<Link> {
    links.map_values(
        |l: (&Package, Option<usize>)|
            (
                l.0@,
                match l.1 {
                    Some(p) => Some(p as int),
                    None => None,
                },
            ),
    )
}

/// The places in the plan of the jobs that the job of the package at
/// `place` depends on.
fn dependencies_of(links: &Vec<(&Package, Option<usize>)>, place: usize) -> (r: Vec<usize>)
    requires
        place < links@.len(),
    ensures
        r@.map_values(|d: usize| d as int) == needed_by(link_views(links@), place as int).map_values(
            |j: int| links@.len() - 1 - j,
        ),
{
    let n = links.len();
    let ghost values = link_views(links@);
    let ghost places = Seq::new(values.len(), |j: int| j);
    let ghost needs = |j: int| values[j].1 == Some(place as int);
    let ghost turn = |j: int| n - 1 - j;
    let mut r: Vec<usize> = Vec::new();
    let mut j: usize = 0;
    proof {
        assert(places.take(0) =~= Seq::<int>::empty());
        assert(r@.map_values(|d: usize| d as int) =~= places.take(0).filter(needs).map_values(turn));
    }
    while j < n
        invariant
            j <= n,
            n == links@.len(),
            place < n,
            values == link_views(links@),
            places == Seq::new(values.len(), |j: int| j),
            needs == |j: int| values[j].1 == Some(place as int),
            turn == |j: int| n - 1 - j,
            r@.map_values(|d: usize| d as int) == places.take(j as int).filter(needs).map_values(turn),
        decreases n - j,
    {
        let ghost before = r@.map_values(|d: usize| d as int);
        proof {
            let prefix = places.take(j as int);
            assert(places.take(j as int + 1) =~= prefix.push(j as int));
            prefix.lemma_filter_push(j as int, needs);
        }
        let needed = match links[j].1 {
            Some(p) => p == place,
            None => false,
        };
        if needed {
            r.push(n - 1 - j);
            proof {
                assert(r@.map_values(|d: usize| d as int) =~= before.push(n - 1 - j));
                assert(places.take(j as int).filter(needs).push(j as int).map_values(turn)
                    =~= before.push(n - 1 - j));
            }
        }
        j = j + 1;
    }
    proof {
        assert(places.take(j as int) =~= places);
    }
    r
}

/// Plans the jobs of a submit from the tree of its package: a job for each
/// package of the tree, each behind the jobs that it depends on.
pub fn plan(tree: &Tree) -> (jobs: Vec<PlannedJob>)
    ensures
        plan_views(jobs@) == spec_plan(*tree),
        jobs@.len() == tree.nodes().len(),
{
    let mut found: Vec<(&Package, Option<usize>)> = Vec::new();
    collect_links(tree, None, &mut found);
    let n = found.len();
    let ghost all = links(*tree);
    proof {
        assert(link_views(found@) =~= all);
        lemma_links_len(*tree, tree.children().len(), None, 0);
    }
    let mut jobs: Vec<PlannedJob> = Vec::new();
    let mut i: usize = 0;
    while i < n
        invariant
            i <= n,
            n == found@.len(),
            all == links(*tree),
            link_views(found@) == all,
            jobs@.len() == i,
            forall|k: int|
                0 <= k < i ==> (#[trigger] plan_views(jobs@)[k]) == (
                    all[n - 1 - k].0,
                    needed_by(all, n - 1 - k).map_values(|j: int| n - 1 - j),
                ),
        decreases n - i,
    {
        let place = n - 1 - i;
        let job = PlannedJob {
            package: found[place].0.clone(),
            depends_on: dependencies_of(&found, place),
        };
        let ghost before = plan_views(jobs@);
        let ghost needs = job.depends_on@.map_values(|d: usize| d as int);
        proof {
            assert(all[place as int].0 == found@[place as int].0@);
            assert(needs =~= needed_by(all, place as int).map_values(|j: int| n - 1 - j));
        }
        jobs.push(job);
        proof {
            assert(plan_views(jobs@) =~= before.push((all[place as int].0, needs)));
            assert forall|k: int| 0 <= k < i + 1 implies (#[trigger] plan_views(jobs@)[k]) == (
                all[n - 1 - k].0,
                needed_by(all, n - 1 - k).map_values(|j: int| n - 1 - j),
            ) by {
                if k < i {
                    assert(plan_views(jobs@)[k] == before[k]);
                }
            }
        }
        i = i + 1;
    }
    proof {
        assert(plan_views(jobs@) =~= spec_plan(*tree));
    }
    jobs
}

/// Every job of a plan depends on jobs that stand before it.
pub proof fn lemma_plan_topological(tree: Tree, i: int, d: int)
    requires
        0 <= i < spec_plan(tree).len(),
        spec_plan(tree)[i].1.contains(d),
    ensures
        0 <= d < i,
{
    let links = links(tree);
    let n = links.len() as int;
    let place = n - 1 - i;
    let needed = needed_by(links, place);
    let turned = needed.map_values(|j: int| n - 1 - j);
    let at = choose|at: int| 0 <= at < turned.len() && turned[at] == d;
    let j = needed[at];
    let places = Seq::new(links.len(), |j: int| j);
    let needs = |j: int| links[j].1 == Some(place);
    places.lemma_filter_pred(needs, at);
    assert(needed.contains(j));
    places.lemma_filter_contains_rev(needs, j);
    lemma_links_parent(tree, tree.children().len(), None, 0);
    assert(links[j].1 == Some(place));
    assert(needed_before(links[j], j));
}

/// A submit has as many jobs as its tree has packages.
pub proof fn lemma_plan_covers_tree(tree: Tree)
    ensures
        spec_plan(tree).len() == tree.nodes().len(),
{
    lemma_links_len(tree, tree.children().len(), None, 0);
}

} // verus!
