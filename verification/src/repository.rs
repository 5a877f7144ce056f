//! The catalogue of package recipes, indexed by name and version.

use crate::package::dependency::PackageVersionConstraint;
use crate::package::name::PackageName;
use crate::package::package::{lemma_package_order_equal, lemma_package_order_flip};
use crate::package::package::{lemma_package_order_transitive, package_order, same_key};
use crate::package::package::{Package, PackageView};
use crate::util::order::Order;
use vstd::prelude::*;

verus! {

/// The values of some recipes.
pub open spec fn package_views(packages: Seq<Package>) -> Seq<PackageView> {
    packages.map_values(|p: Package| p@)
}

/// The values of some recipes that are held by reference.
pub open spec fn package_ref_views(packages: Seq<&Package>) -> Seq<PackageView> {
    packages.map_values(|p: &Package| p@)
}

/// Whether the recipes stand in ascending order of name and version, none
/// twice.
pub open spec fn is_sorted(packages: Seq<PackageView>) -> bool {
    forall|i: int, j: int|
        0 <= i < j < packages.len() ==> package_order(#[trigger] packages[i], #[trigger] packages[j])
            == Order::Less
}

/// Whether a recipe has the name and meets the constraint.
pub open spec fn is_candidate(package: PackageView, name: Seq<char>, constraint: Seq<char>) -> bool {
    package.name == name && package.version == constraint
}

/// A catalogue of recipes: one for each pair of name and version, kept in
/// the order of name and version.
#[derive(Debug)]
pub struct Repository {
    packages: Vec<Package>,
}

impl View for Repository {
    type V = Seq<PackageView>;

    closed spec fn view(&self) -> Seq<PackageView> {
        package_views(self.packages@)
    }
}

impl Repository {
    /// The recipes stand in the order of name and version, none twice.
    #[verifier::type_invariant]
    closed spec fn sorted(&self) -> bool {
        is_sorted(self@)
    }

    /// A catalogue without recipes.
    pub fn empty() -> (r: Repository)
        ensures
            r@ == Seq::<PackageView>::empty(),
    {
        let r = Repository { packages: Vec::new() };
        proof {
            assert(r@ =~= Seq::<PackageView>::empty());
        }
        r
    }

    /// The catalogue with one recipe more: `package`, in place of the recipe
    /// of the same name and version if there is one.
    pub fn with_package(self, package: Package) -> (r: Repository)
        ensures
            is_sorted(r@),
            forall|x: PackageView| r@.contains(x) <==> stays(self@, package@, x),
    {
        proof {
            use_type_invariant(&self);
        }
        let mut packages = self.packages;
        insert_sorted(&mut packages, package);
        Repository { packages }
    }

    /// The catalogue of some recipes. Of two recipes of the same name and
    /// version the later one stays.
    pub fn new(packages: Vec<Package>) -> (r: Repository)
        ensures
            is_sorted(r@),
            forall|x: PackageView|
                r@.contains(x) <==> is_last_of(package_views(packages@), packages@.len() as int, x),
    {
        let mut sorted: Vec<Package> = Vec::new();
        let ghost all = package_views(packages@);
        let mut k: usize = 0;
        proof {
            assert(package_views(sorted@) =~= Seq::<PackageView>::empty());
        }
        while k < packages.len()
            invariant
                k <= packages.len(),
                all == package_views(packages@),
                is_sorted(package_views(sorted@)),
                forall|x: PackageView|
                    package_views(sorted@).contains(x) <==> is_last_of(all, k as int, x),
            decreases packages.len() - k,
        {
            let ghost before = package_views(sorted@);
            insert_sorted(&mut sorted, packages[k].clone());
            proof {
                assert forall|x: PackageView|
                    package_views(sorted@).contains(x) <==> is_last_of(all, k as int + 1, x) by {
                    lemma_is_last_of_step(all, k as int, x);
                    assert(before.contains(x) <==> is_last_of(all, k as int, x));
                }
            }
            k = k + 1;
        }
        Repository { packages: sorted }
    }

    /// The recipes, in the order of name and version.
    pub fn packages(&self) -> (r: &Vec<Package>)
        ensures
            package_views(r@) == self@,
            is_sorted(self@),
    {
        proof {
            use_type_invariant(self);
        }
        &self.packages
    }

    /// The recipes of the name whose version meets the constraint, in the
    /// order of name and version; none where there is no such recipe.
    pub fn find_with_version_constraint(&self, name: &PackageName, constraint: &PackageVersionConstraint) -> (r:
        Vec<&Package>)
        ensures
            package_ref_views(r@) == self@.filter(
                |p: PackageView| is_candidate(p, name@, constraint@),
            ),
            is_sorted(package_ref_views(r@)),
    {
        proof {
            use_type_invariant(self);
        }
        let mut r: Vec<&Package> = Vec::new();
        let ghost wanted = |p: PackageView| is_candidate(p, name@, constraint@);
        let ghost mut places: Seq<int> = Seq::empty();
        let mut i: usize = 0;
        proof {
            assert(self@.take(0) =~= Seq::<PackageView>::empty());
            assert(package_ref_views(r@) =~= self@.take(0).filter(wanted));
        }
        while i < self.packages.len()
            invariant
                i <= self.packages.len(),
                is_sorted(self@),
                wanted == |p: PackageView| is_candidate(p, name@, constraint@),
                package_ref_views(r@) == self@.take(i as int).filter(wanted),
                places.len() == r@.len(),
                forall|k: int|
                    0 <= k < places.len() ==> 0 <= #[trigger] places[k] < i && self@[places[k]]
                        == package_ref_views(r@)[k],
                forall|k: int, l: int| 0 <= k < l < places.len() ==> places[k] < places[l],
            decreases self.packages.len() - i,
        {
            let package = &self.packages[i];
            let ghost before = package_ref_views(r@);
            proof {
                let prefix = self@.take(i as int);
                assert(self@.take(i as int + 1) =~= prefix.push(package@));
                prefix.lemma_filter_push(package@, wanted);
            }
            if *package.name() == *name && constraint.matches(package.version()) {
                r.push(package);
                proof {
                    assert(package_ref_views(r@) =~= before.push(package@));
                    places = places.push(i as int);
                }
            }
            i = i + 1;
        }
        proof {
            assert(self@.take(i as int) =~= self@);
            let found = package_ref_views(r@);
            assert forall|k: int, l: int| 0 <= k < l < found.len() implies package_order(
                #[trigger] found[k],
                #[trigger] found[l],
            ) == Order::Less by {
                assert(places[k] < places[l]);
                assert(package_order(self@[places[k]], self@[places[l]]) == Order::Less);
            }
        }
        r
    }
}

/// Whether `x` is among the recipes once `new` has been put among `before`:
/// it is `new`, or it was there and is another package.
pub open spec fn stays(before: Seq<PackageView>, new: PackageView, x: PackageView) -> bool {
    x == new || (before.contains(x) && !same_key(x, new))
}

/// Replacing a recipe by one of the same name and version keeps the order,
/// and only exchanges the two.
proof fn lemma_replace(before: Seq<PackageView>, i: int, new: PackageView)
    requires
        is_sorted(before),
        0 <= i < before.len(),
        package_order(before[i], new) == Order::Equal,
    ensures
        is_sorted(before.update(i, new)),
        forall|x: PackageView| before.update(i, new).contains(x) <==> stays(before, new, x),
{
    let after = before.update(i, new);
    lemma_package_order_equal(before[i], new);
    assert forall|a: int, b: int| 0 <= a < b < after.len() implies package_order(
        #[trigger] after[a],
        #[trigger] after[b],
    ) == Order::Less by {
        assert(package_order(before[a], before[b]) == Order::Less);
    }
    assert forall|x: PackageView| after.contains(x) <==> stays(before, new, x) by {
        if after.contains(x) && x != new {
            let k = choose|k: int| 0 <= k < after.len() && after[k] == x;
            assert(before[k] == x);
            if k < i {
                assert(package_order(before[k], before[i]) == Order::Less);
            } else {
                assert(package_order(before[i], before[k]) == Order::Less);
                lemma_package_order_flip(before[i], before[k]);
            }
            lemma_package_order_equal(before[k], before[i]);
            lemma_package_order_equal(before[i], before[k]);
        }
        if x == new {
            assert(after[i] == x);
        }
        if before.contains(x) && !same_key(x, new) {
            let k = choose|k: int| 0 <= k < before.len() && before[k] == x;
            assert(after[k] == x);
        }
    }
}

/// Inserting a recipe between the smaller and the greater ones keeps the
/// order, and only adds the recipe.
proof fn lemma_insert(before: Seq<PackageView>, i: int, new: PackageView)
    requires
        is_sorted(before),
        0 <= i <= before.len(),
        forall|j: int| 0 <= j < i ==> package_order(#[trigger] before[j], new) == Order::Less,
        i < before.len() ==> package_order(before[i], new) == Order::Greater,
    ensures
        is_sorted(before.insert(i, new)),
        forall|x: PackageView| before.insert(i, new).contains(x) <==> stays(before, new, x),
{
    let after = before.insert(i, new);
    if i < before.len() {
        lemma_package_order_flip(before[i], new);
    }
    assert forall|a: int, b: int| 0 <= a < b < after.len() implies package_order(
        #[trigger] after[a],
        #[trigger] after[b],
    ) == Order::Less by {
        if a == i {
            assert(after[b] == before[b - 1]);
            if b - 1 > i {
                assert(package_order(before[i], before[b - 1]) == Order::Less);
                lemma_package_order_transitive(new, before[i], before[b - 1]);
            }
        } else if b == i {
            assert(after[a] == before[a]);
        } else if b < i {
            assert(package_order(before[a], before[b]) == Order::Less);
        } else if a < i {
            assert(package_order(before[a], before[b - 1]) == Order::Less);
        } else {
            assert(package_order(before[a - 1], before[b - 1]) == Order::Less);
        }
    }
    assert forall|x: PackageView| after.contains(x) <==> stays(before, new, x) by {
        if after.contains(x) && x != new {
            let k = choose|k: int| 0 <= k < after.len() && after[k] == x;
            if k < i {
                assert(before[k] == x);
                assert(package_order(after[k], after[i]) == Order::Less);
            } else {
                assert(before[k - 1] == x);
                assert(package_order(after[i], after[k]) == Order::Less);
                lemma_package_order_flip(after[i], after[k]);
            }
            lemma_package_order_equal(x, new);
        }
        if x == new {
            assert(after[i] == x);
        }
        if before.contains(x) && !same_key(x, new) {
            let k = choose|k: int| 0 <= k < before.len() && before[k] == x;
            if k < i {
                assert(after[k] == x);
            } else {
                assert(after[k + 1] == x);
            }
        }
    }
}

/// Finds the place of a recipe among sorted recipes: the first that is not
/// smaller, with how it is ordered against the recipe.
fn find_slot(packages: &Vec<Package>, package: &Package) -> (r: (usize, Order))
    ensures
        r.0 <= packages@.len(),
        forall|j: int|
            0 <= j < r.0 ==> package_order(#[trigger] package_views(packages@)[j], package@)
                == Order::Less,
        r.0 < packages@.len() ==> r.1 == package_order(packages@[r.0 as int]@, package@) && r.1
            != Order::Less,
        r.0 == packages@.len() ==> r.1 == Order::Greater,
{
    let mut i: usize = 0;
    while i < packages.len()
        invariant
            i <= packages.len(),
            forall|j: int|
                0 <= j < i ==> package_order(#[trigger] package_views(packages@)[j], package@)
                    == Order::Less,
        decreases packages.len() - i,
    {
        match packages[i].order(package) {
            Order::Less => {},
            other => {
                return (i, other);
            },
        }
        i = i + 1;
    }
    (i, Order::Greater)
}

/// Puts a recipe into its place among sorted recipes, in place of the
/// recipe of the same name and version if there is one.
fn insert_sorted(packages: &mut Vec<Package>, package: Package)
    requires
        is_sorted(package_views(old(packages)@)),
    ensures
        is_sorted(package_views(final(packages)@)),
        forall|x: PackageView|
            package_views(final(packages)@).contains(x) <==> stays(
                package_views(old(packages)@),
                package@,
                x,
            ),
{
    let ghost before = package_views(packages@);
    let ghost new = package@;
    let (i, order) = find_slot(packages, &package);
    match order {
        Order::Equal => {
            proof {
                lemma_replace(before, i as int, new);
            }
            packages[i] = package;
            proof {
                assert(package_views(packages@) =~= before.update(i as int, new));
            }
        },
        _ => {
            proof {
                lemma_insert(before, i as int, new);
            }
            packages.insert(i, package);
            proof {
                assert(package_views(packages@) =~= before.insert(i as int, new));
            }
        },
    }
}

/// The last of the recipes `all[..n]` that is the package `x` is `x`
/// itself: no later one among them has its name and version.
pub open spec fn is_last_of(all: Seq<PackageView>, n: int, x: PackageView) -> bool {
    exists|i: int| 0 <= i < n && #[trigger] all[i] == x && no_later(all, i, n, x)
}

/// None of the recipes `all[i + 1..n]` is the package `x`.
pub open spec fn no_later(all: Seq<PackageView>, i: int, n: int, x: PackageView) -> bool {
    forall|j: int| i < j < n ==> !same_key(#[trigger] all[j], x)
}

/// What is last of its name and version among one recipe more.
proof fn lemma_is_last_of_step(all: Seq<PackageView>, n: int, x: PackageView)
    requires
        0 <= n < all.len(),
    ensures
        is_last_of(all, n + 1, x) <==> x == all[n] || (is_last_of(all, n, x) && !same_key(x, all[n])),
{
    if is_last_of(all, n + 1, x) {
        let i = choose|i: int| 0 <= i < n + 1 && #[trigger] all[i] == x && no_later(all, i, n + 1, x);
        if i < n {
            assert(!same_key(all[n], x));
            assert(no_later(all, i, n, x));
        }
    }
    if x == all[n] {
        assert(no_later(all, n, n + 1, x));
    }
    if is_last_of(all, n, x) && !same_key(x, all[n]) {
        let i = choose|i: int| 0 <= i < n && #[trigger] all[i] == x && no_later(all, i, n, x);
        assert(no_later(all, i, n + 1, x));
    }
}

} // verus!
