//! `db setup`: which migrations of the embedded set are still to run.

use crate::util::text::{str_equal, texts};
use vstd::prelude::*;

verus! {

/// Why the database is not set up.
#[derive(Debug, Clone, Copy, PartialEq, Eq, Structural)]
pub enum MigrationError {
    /// The database records a migration that the embedded set does not
    /// hold: its schema is ahead. It is the applied version at this place.
    SchemaAhead(usize),
}

/// The versions of `embedded` that `applied` does not hold, in the order of
/// the embedded set.
pub open spec fn pending(embedded: Seq<Seq<char>>, applied: Seq<Seq<char>>) -> Seq<Seq<char>> {
    embedded.filter(|version: Seq<char>| !applied.contains(version))
}

/// Whether every applied version is one of the embedded set.
pub open spec fn known(embedded: Seq<Seq<char>>, applied: Seq<Seq<char>>) -> bool {
    forall|i: int| 0 <= i < applied.len() ==> embedded.contains(#[trigger] applied[i])
}

fn contains(versions: &Vec<String>, version: &str) -> (r: bool)
    ensures
        r == texts(versions@).contains(version@),
{
    let mut i: usize = 0;
    while i < versions.len()
        invariant
            i <= versions.len(),
            forall|j: int| 0 <= j < i ==> texts(versions@)[j] != version@,
        decreases versions.len() - i,
    {
        if str_equal(versions[i].as_str(), version) {
            assert(texts(versions@)[i as int] == version@);
            return true;
        }
        i = i + 1;
    }
    false
}

/// Decides what `db setup` has to run: the embedded migrations that the
/// database has not recorded, in their order. A database that records a
/// migration unknown to the embedded set is refused.
pub fn setup(embedded: &Vec<String>, applied: &Vec<String>) -> (r: Result<
    Vec<String>,
    MigrationError,
>)
    ensures
        match r {
            Ok(to_run) => known(texts(embedded@), texts(applied@)) && texts(to_run@) == pending(
                texts(embedded@),
                texts(applied@),
            ),
            Err(MigrationError::SchemaAhead(place)) => place < applied@.len() && !texts(
                embedded@,
            ).contains(texts(applied@)[place as int]) && forall|j: int|
                0 <= j < place ==> texts(embedded@).contains(#[trigger] texts(applied@)[j]),
        },
{
    let mut i: usize = 0;
    while i < applied.len()
        invariant
            i <= applied.len(),
            forall|j: int| 0 <= j < i ==> texts(embedded@).contains(#[trigger] texts(applied@)[j]),
        decreases applied.len() - i,
    {
        if !contains(embedded, applied[i].as_str()) {
            return Err(MigrationError::SchemaAhead(i));
        }
        i = i + 1;
    }
    let mut to_run: Vec<String> = Vec::new();
    let mut k: usize = 0;
    let ghost keep = |version: Seq<char>| !texts(applied@).contains(version);
    proof {
        assert(texts(embedded@).take(0) =~= Seq::<Seq<char>>::empty());
        assert(texts(to_run@) =~= texts(embedded@).take(0).filter(keep));
    }
    while k < embedded.len()
        invariant
            k <= embedded.len(),
            keep == |version: Seq<char>| !texts(applied@).contains(version),
            texts(to_run@) == texts(embedded@).take(k as int).filter(keep),
        decreases embedded.len() - k,
    {
        let ghost before = texts(to_run@);
        proof {
            let prefix = texts(embedded@).take(k as int);
            let next = texts(embedded@)[k as int];
            assert(texts(embedded@).take(k as int + 1) =~= prefix.push(next));
            prefix.lemma_filter_push(next, keep);
        }
        if !contains(applied, embedded[k].as_str()) {
            to_run.push(embedded[k].clone());
            proof {
                assert(texts(to_run@) =~= before.push(embedded@[k as int]@));
            }
        }
        k = k + 1;
    }
    proof {
        assert(texts(embedded@).take(k as int) =~= texts(embedded@));
    }
    Ok(to_run)
}

/// The versions that the database records once the pending migrations have
/// run.
pub open spec fn after_setup(embedded: Seq<Seq<char>>, applied: Seq<Seq<char>>) -> Seq<Seq<char>> {
    applied + pending(embedded, applied)
}

/// Setting up twice is setting up once: after the pending migrations have
/// run, none is pending, and the record stays as it is.
pub proof fn lemma_setup_idempotent(embedded: Seq<Seq<char>>, applied: Seq<Seq<char>>)
    ensures
        pending(embedded, after_setup(embedded, applied)).len() == 0,
        after_setup(embedded, after_setup(embedded, applied)) == after_setup(embedded, applied),
        known(embedded, applied) ==> known(embedded, after_setup(embedded, applied)),
{
    let after = after_setup(embedded, applied);
    let keep = |version: Seq<char>| !applied.contains(version);
    let keep_after = |version: Seq<char>| !after.contains(version);
    let left = embedded.filter(keep_after);
    if left.len() > 0 {
        let v = left[0];
        embedded.lemma_filter_pred(keep_after, 0);
        assert(!after.contains(v));
        assert(left.contains(v));
        embedded.lemma_filter_contains_rev(keep_after, v);
        let at = choose|at: int| 0 <= at < embedded.len() && embedded[at] == v;
        if !applied.contains(v) {
            embedded.lemma_filter_contains(keep, at);
            let j = choose|j: int|
                0 <= j < embedded.filter(keep).len() && embedded.filter(keep)[j] == v;
            assert(after[applied.len() + j] == v);
        } else {
            let j = choose|j: int| 0 <= j < applied.len() && applied[j] == v;
            assert(after[j] == v);
        }
        assert(false);
    }
    assert(after + pending(embedded, after) =~= after);
    if known(embedded, applied) {
        assert forall|i: int| 0 <= i < after.len() implies embedded.contains(#[trigger] after[i]) by {
            if i >= applied.len() {
                let v = after[i];
                assert(embedded.filter(keep)[i - applied.len()] == v);
                assert(embedded.filter(keep).contains(v));
                embedded.lemma_filter_contains_rev(keep, v);
            }
        }
    }
}

} // verus!
