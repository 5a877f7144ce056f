//! Which endpoint a job is given to.

use crate::util::text::{str_equal, texts};
use vstd::prelude::*;

verus! {

/// An endpoint as the dispatcher sees it.
#[derive(Debug)]
pub struct EndpointSlot {
    pub name: String,
    /// The images that the endpoint declares.
    pub images: Vec<String>,
    /// How many jobs the endpoint may run at once.
    pub max_jobs: usize,
    /// How many jobs it runs.
    pub in_flight: usize,
    /// Whether it answered the last ping.
    pub healthy: bool,
}

/// Whether an endpoint can take a job for the image: it is healthy, it
/// declares the image, and it runs fewer jobs than it may.
pub open spec fn qualifies(endpoint: EndpointSlot, image: Seq<char>) -> bool {
    endpoint.healthy && texts(endpoint.images@).contains(image) && endpoint.in_flight
        < endpoint.max_jobs
}

/// Whether the endpoint at `chosen` is the one to take a job for the image:
/// it can take it, no endpoint that can runs fewer jobs, and none before it
/// runs as few.
pub open spec fn is_choice(endpoints: Seq<EndpointSlot>, image: Seq<char>, chosen: int) -> bool {
    &&& 0 <= chosen < endpoints.len()
    &&& qualifies(endpoints[chosen], image)
    &&& forall|j: int|
        0 <= j < endpoints.len() && qualifies(#[trigger] endpoints[j], image)
            ==> endpoints[chosen].in_flight <= endpoints[j].in_flight
    &&& forall|j: int|
        0 <= j < chosen && qualifies(#[trigger] endpoints[j], image) ==> endpoints[chosen].in_flight
            < endpoints[j].in_flight
}

/// How many jobs the endpoints run together.
pub open spec fn total_in_flight(endpoints: Seq<EndpointSlot>) -> int
    decreases endpoints.len(),
{
    if endpoints.len() == 0 {
        0
    } else {
        total_in_flight(endpoints.drop_last()) + endpoints.last().in_flight
    }
}

fn declares(endpoint: &EndpointSlot, image: &str) -> (r: bool)
    ensures
        r == texts(endpoint.images@).contains(image@),
{
    let mut i: usize = 0;
    while i < endpoint.images.len()
        invariant
            i <= endpoint.images.len(),
            forall|j: int| 0 <= j < i ==> texts(endpoint.images@)[j] != image@,
        decreases endpoint.images.len() - i,
    {
        if str_equal(endpoint.images[i].as_str(), image) {
            assert(texts(endpoint.images@)[i as int] == image@);
            return true;
        }
        i = i + 1;
    }
    false
}

/// Tells whether the endpoints run fewer jobs together than `bound`.
pub fn below_bound(endpoints: &Vec<EndpointSlot>, bound: usize) -> (r: bool)
    ensures
        r == (total_in_flight(endpoints@) < bound),
{
    let mut total: usize = 0;
    let mut i: usize = 0;
    proof {
        assert(endpoints@.take(0) =~= Seq::<EndpointSlot>::empty());
        lemma_total_prefix(endpoints@, 0);
    }
    if bound == 0 {
        return false;
    }
    while i < endpoints.len()
        invariant
            i <= endpoints.len(),
            total == total_in_flight(endpoints@.take(i as int)),
            total < bound,
        decreases endpoints.len() - i,
    {
        proof {
            assert(endpoints@.take(i as int + 1).drop_last() =~= endpoints@.take(i as int));
            lemma_total_prefix(endpoints@, i as int + 1);
        }
        let running = endpoints[i].in_flight;
        if running >= bound - total {
            return false;
        }
        total = total + running;
        i = i + 1;
    }
    proof {
        assert(endpoints@.take(i as int) =~= endpoints@);
    }
    total < bound
}

/// The first endpoints run no more jobs than all of them.
pub proof fn lemma_total_prefix(endpoints: Seq<EndpointSlot>, n: int)
    requires
        0 <= n <= endpoints.len(),
    ensures
        total_in_flight(endpoints.take(n)) <= total_in_flight(endpoints),
    decreases endpoints.len(),
{
    if n == endpoints.len() {
        assert(endpoints.take(n) =~= endpoints);
    } else {
        assert(endpoints.drop_last().take(n) =~= endpoints.take(n));
        lemma_total_prefix(endpoints.drop_last(), n);
    }
}

/// Chooses the endpoint for a job that is to run in `image`: of those that
/// can take it the one that runs the fewest jobs, the first of them in the
/// declared order. No endpoint is chosen while the endpoints together run
/// `bound` jobs or more.
pub fn choose_endpoint(endpoints: &Vec<EndpointSlot>, image: &str, bound: usize) -> (r: Option<usize>)
    ensures
        match r {
            Some(chosen) => total_in_flight(endpoints@) < bound && is_choice(
                endpoints@,
                image@,
                chosen as int,
            ),
            None => total_in_flight(endpoints@) >= bound || forall|j: int|
                0 <= j < endpoints@.len() ==> !qualifies(#[trigger] endpoints@[j], image@),
        },
{
    if !below_bound(endpoints, bound) {
        return None;
    }
    let mut best: Option<usize> = None;
    let mut i: usize = 0;
    while i < endpoints.len()
        invariant
            i <= endpoints.len(),
            match best {
                Some(chosen) => chosen < i && is_choice(endpoints@.take(i as int), image@, chosen as int),
                None => forall|j: int| 0 <= j < i ==> !qualifies(#[trigger] endpoints@[j], image@),
            },
        decreases endpoints.len() - i,
    {
        let endpoint = &endpoints[i];
        let able = endpoint.healthy && endpoint.in_flight < endpoint.max_jobs && declares(
            endpoint,
            image,
        );
        let ghost before = endpoints@.take(i as int);
        let ghost after = endpoints@.take(i as int + 1);
        proof {
            assert(forall|j: int| 0 <= j < i ==> after[j] == before[j]);
            assert(after[i as int] == endpoints@[i as int]);
        }
        if able {
            match best {
                Some(chosen) => {
                    if endpoint.in_flight < endpoints[chosen].in_flight {
                        proof {
                            assert forall|j: int|
                                0 <= j < after.len() && qualifies(
                                    #[trigger] after[j],
                                    image@,
                                ) implies after[i as int].in_flight <= after[j].in_flight by {
                                if j < i {
                                    assert(qualifies(before[j], image@));
                                }
                            }
                            assert forall|j: int|
                                0 <= j < i && qualifies(
                                    #[trigger] after[j],
                                    image@,
                                ) implies after[i as int].in_flight < after[j].in_flight by {
                                assert(qualifies(before[j], image@));
                            }
                        }
                        best = Some(i);
                    } else {
                        proof {
                            assert forall|j: int|
                                0 <= j < after.len() && qualifies(
                                    #[trigger] after[j],
                                    image@,
                                ) implies after[chosen as int].in_flight <= after[j].in_flight by {
                                if j < i {
                                    assert(qualifies(before[j], image@));
                                }
                            }
                            assert forall|j: int|
                                0 <= j < chosen && qualifies(
                                    #[trigger] after[j],
                                    image@,
                                ) implies after[chosen as int].in_flight < after[j].in_flight by {
                                assert(qualifies(before[j], image@));
                            }
                        }
                    }
                },
                None => {
                    proof {
                        assert forall|j: int|
                            0 <= j < after.len() && qualifies(
                                #[trigger] after[j],
                                image@,
                            ) implies after[i as int].in_flight <= after[j].in_flight by {
                            if j < i {
                                assert(!qualifies(endpoints@[j], image@));
                            }
                        }
                        assert forall|j: int|
                            0 <= j < i && qualifies(
                                #[trigger] after[j],
                                image@,
                            ) implies after[i as int].in_flight < after[j].in_flight by {
                            assert(!qualifies(endpoints@[j], image@));
                        }
                    }
                    best = Some(i);
                },
            }
        } else {
            proof {
                match best {
                    Some(chosen) => {
                        assert forall|j: int|
                            0 <= j < after.len() && qualifies(
                                #[trigger] after[j],
                                image@,
                            ) implies after[chosen as int].in_flight <= after[j].in_flight by {
                            if j < i {
                                assert(qualifies(before[j], image@));
                            }
                        }
                        assert forall|j: int|
                            0 <= j < chosen && qualifies(
                                #[trigger] after[j],
                                image@,
                            ) implies after[chosen as int].in_flight < after[j].in_flight by {
                            assert(qualifies(before[j], image@));
                        }
                    },
                    None => {},
                }
            }
        }
        i = i + 1;
    }
    proof {
        assert(endpoints@.take(i as int) =~= endpoints@);
    }
    best
}

/// Notes the outcome of a ping: an endpoint is healthy exactly while it
/// answers.
pub fn record_ping(endpoint: &mut EndpointSlot, answered: bool)
    ensures
        final(endpoint).healthy == answered,
        final(endpoint).name == old(endpoint).name,
        final(endpoint).images == old(endpoint).images,
        final(endpoint).max_jobs == old(endpoint).max_jobs,
        final(endpoint).in_flight == old(endpoint).in_flight,
{
    endpoint.healthy = answered;
}

} // verus!
