use butido::dispatch::assignment::{below_bound, choose_endpoint, record_ping, EndpointSlot};
use butido::dispatch::plan::plan;
use butido::dispatch::state::{retry_delay, transition, JobEvent, JobState};
use butido::dispatch::submit::{
    aggregate, apply, cancel, next_ready, schedule, skip_blocked, EventError, ScheduledJob,
    SubmitVerdict,
};
use butido::filestore::staging::{StagingStore, Unpacked};
use butido::log::parsed::{JobResult, ParsedLog};
use butido::package::dependency::{Dependencies, Dependency};
use butido::package::name::{PackageName, PackageVersion};
use butido::package::package::Package;
use butido::package::tree::Tree;
use butido::repository::Repository;

fn pkg(name: &str, version: &str, runtime: &[&str]) -> Package {
    let mut p = Package::new(
        PackageName::from(String::from(name)),
        PackageVersion::from(String::from(version)),
        String::from("u"),
        String::from("h"),
    );
    p.set_dependencies(Dependencies::with_runtime_dependencies(
        runtime.iter().map(|d| Dependency::from(String::from(*d))).collect(),
    ));
    p
}

fn chain() -> Tree {
    let a = pkg("a", "1", &["b =2"]);
    let b = pkg("b", "2", &["c =3"]);
    let c = pkg("c", "3", &[]);
    let repo = Repository::new(vec![a.clone(), b, c]);
    let mut tree = Tree::new();
    tree.add_package(a, &repo).unwrap();
    tree
}

const STATES: [JobState; 9] = [
    JobState::Pending,
    JobState::Ready,
    JobState::Dispatched,
    JobState::Running,
    JobState::Succeeded,
    JobState::Errored,
    JobState::Unknown,
    JobState::Skipped,
    JobState::Cancelled,
];

const EVENTS: [JobEvent; 9] = [
    JobEvent::DependenciesMet,
    JobEvent::Assigned,
    JobEvent::Started,
    JobEvent::Finished(JobResult::Success),
    JobEvent::Finished(JobResult::Errored),
    JobEvent::Finished(JobResult::Unknown),
    JobEvent::DependencyFailed,
    JobEvent::Failed,
    JobEvent::Cancelled,
];

fn rank(state: JobState) -> u8 {
    match state {
        JobState::Pending => 0,
        JobState::Ready => 1,
        JobState::Dispatched => 2,
        JobState::Running => 3,
        _ => 4,
    }
}

#[test]
fn a_job_runs_through_its_states() {
    let mut state = JobState::Pending;
    for event in [
        JobEvent::DependenciesMet,
        JobEvent::Assigned,
        JobEvent::Started,
        JobEvent::Finished(JobResult::Success),
    ] {
        state = transition(state, event).unwrap();
    }
    assert_eq!(state, JobState::Succeeded);
    assert_eq!(
        transition(JobState::Running, JobEvent::Finished(JobResult::Errored)),
        Some(JobState::Errored)
    );
    assert_eq!(
        transition(JobState::Running, JobEvent::Finished(JobResult::Unknown)),
        Some(JobState::Unknown)
    );
    assert_eq!(transition(JobState::Pending, JobEvent::DependencyFailed), Some(JobState::Skipped));
    assert_eq!(transition(JobState::Dispatched, JobEvent::Failed), Some(JobState::Errored));
    assert_eq!(transition(JobState::Running, JobEvent::Cancelled), Some(JobState::Cancelled));
    assert_eq!(transition(JobState::Ready, JobEvent::Cancelled), Some(JobState::Skipped));
    assert_eq!(transition(JobState::Pending, JobEvent::Started), None);
}

#[test]
fn no_event_moves_a_job_back() {
    for state in STATES {
        for event in EVENTS {
            match transition(state, event) {
                Some(next) => {
                    assert!(rank(state) < rank(next), "{:?} {:?} {:?}", state, event, next);
                    assert!(!state.is_final());
                }
                None => {}
            }
            if state.is_final() {
                assert_eq!(transition(state, event), None);
            }
        }
        assert_eq!(state.is_final(), rank(state) == 4);
        assert_eq!(
            state.in_flight(),
            state == JobState::Dispatched || state == JobState::Running
        );
    }
}

#[test]
fn retries_wait_twice_as_long_each_time() {
    assert_eq!(retry_delay(0, 3, 5), Some(5));
    assert_eq!(retry_delay(1, 3, 5), Some(10));
    assert_eq!(retry_delay(2, 3, 5), Some(20));
    assert_eq!(retry_delay(3, 3, 5), None);
    assert_eq!(retry_delay(0, 0, 5), None);
    assert_eq!(retry_delay(70, 100, 1), Some(u64::MAX));
    assert_eq!(retry_delay(63, 100, 1), Some(1 << 63));
    assert_eq!(retry_delay(64, 100, 1), Some(u64::MAX));
}

fn slot(name: &str, images: &[&str], max_jobs: usize, in_flight: usize, healthy: bool) -> EndpointSlot {
    EndpointSlot {
        name: String::from(name),
        images: images.iter().map(|i| String::from(*i)).collect(),
        max_jobs,
        in_flight,
        healthy,
    }
}

#[test]
fn the_endpoint_with_the_fewest_jobs_is_chosen() {
    let endpoints = vec![
        slot("e1", &["deb", "fed"], 4, 2, true),
        slot("e2", &["deb"], 4, 1, true),
        slot("e3", &["deb"], 4, 1, true),
        slot("e4", &["fed"], 4, 0, true),
        slot("e5", &["deb"], 1, 0, false),
        slot("e6", &["deb"], 0, 0, true),
    ];
    assert_eq!(choose_endpoint(&endpoints, "deb", 100), Some(1));
    assert_eq!(choose_endpoint(&endpoints, "fed", 100), Some(3));
    assert_eq!(choose_endpoint(&endpoints, "arch", 100), None);
    // the endpoints run four jobs together
    assert_eq!(choose_endpoint(&endpoints, "deb", 5), Some(1));
    assert_eq!(choose_endpoint(&endpoints, "deb", 4), None);
    assert_eq!(choose_endpoint(&endpoints, "deb", 0), None);
    assert!(below_bound(&endpoints, 5));
    assert!(!below_bound(&endpoints, 4));
    assert_eq!(choose_endpoint(&Vec::new(), "deb", 1), None);
    let full = vec![slot("e1", &["deb"], 2, 2, true)];
    assert_eq!(choose_endpoint(&full, "deb", 100), None);
}

#[test]
fn an_endpoint_that_flaps_gets_no_jobs_while_it_is_down() {
    let mut endpoints = vec![slot("e1", &["deb"], 4, 0, true), slot("e2", &["deb"], 4, 0, true)];
    assert_eq!(choose_endpoint(&endpoints, "deb", 10), Some(0));
    let mut placed = Vec::new();
    for _ in 0..3 {
        record_ping(&mut endpoints[0], false);
        let chosen = choose_endpoint(&endpoints, "deb", 10).unwrap();
        endpoints[chosen].in_flight += 1;
        placed.push(chosen);
    }
    assert_eq!(placed, vec![1, 1, 1]);
    record_ping(&mut endpoints[0], true);
    assert_eq!(choose_endpoint(&endpoints, "deb", 10), Some(0));
    assert_eq!(endpoints[1].in_flight, 3);
    assert_eq!(endpoints[0].name, "e1");
}

fn names(jobs: &Vec<butido::dispatch::plan::PlannedJob>) -> Vec<&str> {
    jobs.iter().map(|j| j.package.name().as_str()).collect()
}

#[test]
fn a_chain_is_planned_from_its_end() {
    let jobs = plan(&chain());
    assert_eq!(names(&jobs), vec!["c", "b", "a"]);
    assert_eq!(jobs[0].depends_on, Vec::<usize>::new());
    assert_eq!(jobs[1].depends_on, vec![0]);
    assert_eq!(jobs[2].depends_on, vec![1]);
}

#[test]
fn a_plan_has_a_job_for_every_package() {
    let p1 = pkg("p1", "1", &["p2 =2", "p4 =4"]);
    let repo = Repository::new(vec![
        p1.clone(),
        pkg("p2", "2", &["p3 =3"]),
        pkg("p3", "3", &[]),
        pkg("p4", "4", &["p5 =5", "p6 =6"]),
        pkg("p5", "5", &[]),
        pkg("p6", "6", &[]),
        pkg("p7", "7", &[]),
    ]);
    let mut tree = Tree::new();
    tree.add_package(p1, &repo).unwrap();
    tree.add_package(pkg("p7", "7", &[]), &repo).unwrap();
    let jobs = plan(&tree);
    assert_eq!(jobs.len(), 7);
    assert_eq!(names(&jobs), vec!["p7", "p6", "p5", "p4", "p3", "p2", "p1"]);
    for (i, job) in jobs.iter().enumerate() {
        for d in &job.depends_on {
            assert!(*d < i);
        }
    }
    assert_eq!(jobs[3].depends_on, vec![2, 1]);
    assert_eq!(jobs[6].depends_on, vec![5, 3]);
    assert_eq!(jobs[5].depends_on, vec![4]);
    assert!(plan(&Tree::new()).is_empty());
}

fn states(jobs: &Vec<ScheduledJob>) -> Vec<JobState> {
    jobs.iter().map(|j| j.state).collect()
}

fn run(jobs: &mut Vec<ScheduledJob>, i: usize, verdict: JobResult) {
    assert_eq!(next_ready(jobs), Some(i));
    for event in [
        JobEvent::DependenciesMet,
        JobEvent::Assigned,
        JobEvent::Started,
        JobEvent::Finished(verdict),
    ] {
        assert_eq!(apply(jobs, i, event), Ok(()));
    }
}

#[test]
fn a_single_package_is_built() {
    let a = pkg("a", "1", &[]);
    let repo = Repository::new(vec![a.clone()]);
    let mut tree = Tree::new();
    tree.add_package(a, &repo).unwrap();
    let mut jobs = schedule(&plan(&tree));
    assert_eq!(jobs.len(), 1);
    let verdict = ParsedLog::parse(b"building a\n#BUTIDO:STATE:OK\n").is_successfull();
    run(&mut jobs, 0, verdict);
    assert_eq!(states(&jobs), vec![JobState::Succeeded]);
    assert_eq!(aggregate(&jobs), SubmitVerdict::Success);
    assert_eq!(next_ready(&jobs), None);

    let mut staging = StagingStore::load("/staging/submit", true, &Vec::new()).unwrap();
    let written = staging
        .write_files_from_tar_stream(&vec![Unpacked { path: String::from("a-1.tar.gz"), is_dir: false }])
        .unwrap();
    assert_eq!(written, vec!["a-1.tar.gz"]);
    assert!(staging.path_exists_in_store_root("a-1.tar.gz"));
}

#[test]
fn jobs_start_when_what_they_depend_on_has_succeeded() {
    let mut jobs = schedule(&plan(&chain()));
    assert_eq!(states(&jobs), vec![JobState::Pending; 3]);
    assert_eq!(next_ready(&jobs), Some(0));
    assert_eq!(apply(&mut jobs, 0, JobEvent::DependenciesMet), Ok(()));
    // c is on its way, and b waits for it
    assert_eq!(next_ready(&jobs), None);
    for event in [JobEvent::Assigned, JobEvent::Started, JobEvent::Finished(JobResult::Success)] {
        assert_eq!(apply(&mut jobs, 0, event), Ok(()));
    }
    run(&mut jobs, 1, JobResult::Success);
    run(&mut jobs, 2, JobResult::Success);
    assert_eq!(aggregate(&jobs), SubmitVerdict::Success);
}

#[test]
fn a_failure_skips_the_jobs_above_it() {
    let mut jobs = schedule(&plan(&chain()));
    run(&mut jobs, 0, JobResult::Success);
    run(&mut jobs, 1, JobResult::Errored);
    assert_eq!(next_ready(&jobs), None);
    skip_blocked(&mut jobs);
    assert_eq!(
        states(&jobs),
        vec![JobState::Succeeded, JobState::Errored, JobState::Skipped]
    );
    assert_eq!(jobs[2].cause, Some(1));
    assert_eq!(aggregate(&jobs), SubmitVerdict::Errored);
}

#[test]
fn the_cause_of_a_skip_is_the_first_failure_below() {
    let mut jobs = schedule(&plan(&chain()));
    run(&mut jobs, 0, JobResult::Unknown);
    skip_blocked(&mut jobs);
    assert_eq!(
        states(&jobs),
        vec![JobState::Unknown, JobState::Skipped, JobState::Skipped]
    );
    assert_eq!(jobs[1].cause, Some(0));
    assert_eq!(jobs[2].cause, Some(0));
    assert_eq!(aggregate(&jobs), SubmitVerdict::Incomplete);
}

#[test]
fn cancelling_stops_what_runs_and_skips_what_waits() {
    // a needs b
    let a = pkg("a", "1", &["b =2"]);
    let b = pkg("b", "2", &[]);
    let repo = Repository::new(vec![a.clone(), b]);
    let mut tree = Tree::new();
    tree.add_package(a, &repo).unwrap();
    let mut jobs = schedule(&plan(&tree));
    for event in [JobEvent::DependenciesMet, JobEvent::Assigned, JobEvent::Started] {
        assert_eq!(apply(&mut jobs, 0, event), Ok(()));
    }
    cancel(&mut jobs);
    assert_eq!(states(&jobs), vec![JobState::Cancelled, JobState::Skipped]);
    assert_eq!(next_ready(&jobs), None);
    assert_eq!(aggregate(&jobs), SubmitVerdict::Incomplete);
    // what had come to its end stays as it was
    cancel(&mut jobs);
    assert_eq!(states(&jobs), vec![JobState::Cancelled, JobState::Skipped]);
}

#[test]
fn events_are_taken_only_where_they_can_happen() {
    let mut jobs = schedule(&plan(&chain()));
    assert_eq!(apply(&mut jobs, 3, JobEvent::DependenciesMet), Err(EventError::NoSuchJob));
    assert_eq!(apply(&mut jobs, 0, JobEvent::Started), Err(EventError::NotExpected));
    assert_eq!(states(&jobs), vec![JobState::Pending; 3]);
    assert_eq!(aggregate(&Vec::new()), SubmitVerdict::Success);
}
