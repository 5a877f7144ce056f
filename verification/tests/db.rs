use butido::commands::db::cli::{cli, cli_candidates, Candidate, CliError, DbConnectionConfig, PgCliProgram};
use butido::commands::db::job::{job, JobFlags, JobOutput, JobRecord, ScriptSection};
use butido::commands::db::jobs::{jobs, jobs_query, JobFilter, JobsOptions, JobsRecord, QueryError};
use butido::commands::db::listings::{artifacts, artifacts_query, envvars, images, log_of};
use butido::commands::db::releases::{release_path, releases, releases_query, ReleaseRecord, ReleasesOptions};
use butido::commands::db::setup::{setup, MigrationError};
use butido::commands::db::submit::{submit, Color, SubmitError, SubmitJob};
use butido::commands::db::submits::{submits, submits_query, SubmitSelection, SubmitsOptions};
use butido::commands::db::{db, get_limit, CommandError, DbCommand, LimitError};
use butido::commands::util::{Listing, ReportError, Table};
use butido::db::models;
use butido::log::parsed::JobResult;
use butido::util::docker::{ContainerImage, ImageNameLookup};
use butido::util::time::{DateError, Timestamp};

const JOB_UUID: u128 = 0xa1a2a3a4_b1b2_c1c2_d1d2_d3d4d5d6d7d8;
const SUBMIT_UUID: u128 = 0x00000000_0000_0000_0000_00000000000f;

fn lookup() -> ImageNameLookup {
    ImageNameLookup::create(vec![ContainerImage {
        name: String::from("registry/debian:bullseye"),
        short_name: String::from("deb11"),
    }])
}

fn a_job(log: &str) -> models::Job {
    models::Job {
        id: 3,
        submit_id: 1,
        endpoint_id: 1,
        package_id: 1,
        image_id: 1,
        container_hash: String::from("c0ffee"),
        script_text: String::from("#!/bin/sh\necho hi\n"),
        log_text: String::from(log),
        uuid: JOB_UUID,
    }
}

fn a_submit() -> models::Submit {
    models::Submit {
        id: 1,
        uuid: SUBMIT_UUID,
        submit_time: Timestamp { secs: 1479195564, nanos: 0 },
        requested_image_id: 1,
        requested_package_id: 1,
        repo_hash_id: 1,
    }
}

fn a_package() -> models::Package {
    models::Package { id: 1, name: String::from("vim"), version: String::from("8.2") }
}

fn an_endpoint() -> models::Endpoint {
    models::Endpoint { id: 1, name: String::from("builder1") }
}

fn an_image() -> models::Image {
    models::Image { id: 1, name: String::from("registry/debian:bullseye") }
}

fn rows_of(listing: Listing) -> Vec<Vec<String>> {
    match listing {
        Listing::Rows(table) => table.rows,
        Listing::Nothing => Vec::new(),
    }
}

#[test]
fn limit_zero_is_unbounded() {
    assert_eq!(get_limit(Some(0), 10), Ok(i64::MAX));
    assert_eq!(get_limit(None, 0), Ok(i64::MAX));
    assert_eq!(get_limit(None, 10), Ok(10));
    assert_eq!(get_limit(Some(5), 10), Ok(5));
    assert_eq!(get_limit(Some(i64::MAX as usize), 10), Ok(i64::MAX));
    assert_eq!(
        get_limit(Some(i64::MAX as usize + 1), 10),
        Err(LimitError::OutOfRange)
    );
}

#[test]
fn db_subcommands_are_selected_by_name() {
    for (name, command) in [
        ("cli", DbCommand::Cli),
        ("setup", DbCommand::Setup),
        ("artifacts", DbCommand::Artifacts),
        ("envvars", DbCommand::EnvVars),
        ("images", DbCommand::Images),
        ("submit", DbCommand::Submit),
        ("submits", DbCommand::Submits),
        ("jobs", DbCommand::Jobs),
        ("job", DbCommand::Job),
        ("log-of", DbCommand::LogOf),
        ("releases", DbCommand::Releases),
    ] {
        assert_eq!(db(Some(name)).unwrap(), command);
    }
    match db(Some("frobnicate")) {
        Err(CommandError::UnknownSubcommand(other)) => assert_eq!(other, "frobnicate"),
        other => panic!("{:?}", other),
    }
    assert!(matches!(db(None), Err(CommandError::NoSubcommand)));
}

fn connection() -> DbConnectionConfig {
    DbConnectionConfig {
        database_host: String::from("localhost"),
        database_port: 5432,
        database_user: String::from("pgdev"),
        database_name: String::from("butido"),
    }
}

#[test]
fn the_first_database_shell_that_is_found_is_started() {
    assert_eq!(cli_candidates(None), vec!["psql", "pgcli"]);
    assert_eq!(cli_candidates(Some("pgcli")), vec!["pgcli"]);

    let candidates = vec![
        Candidate { name: String::from("psql"), path: None },
        Candidate { name: String::from("pgcli"), path: Some(String::from("/usr/bin/pgcli")) },
    ];
    let command = cli(&candidates, &connection()).unwrap();
    assert_eq!(command.program, PgCliProgram::PgCli);
    assert_eq!(command.path, "/usr/bin/pgcli");
    assert_eq!(
        command.arguments,
        vec!["--host", "localhost", "--port", "5432", "--username", "pgdev", "butido"]
    );

    let candidates = vec![Candidate {
        name: String::from("psql"),
        path: Some(String::from("/usr/bin/psql")),
    }];
    let command = cli(&candidates, &connection()).unwrap();
    assert_eq!(command.program, PgCliProgram::Psql);
    assert_eq!(
        command.arguments,
        vec!["--dbname=butido", "--host=localhost", "--port=5432", "--username=pgdev"]
    );
}

#[test]
fn a_database_shell_must_be_found_and_known() {
    let none = vec![
        Candidate { name: String::from("psql"), path: None },
        Candidate { name: String::from("pgcli"), path: None },
    ];
    assert_eq!(cli(&none, &connection()).unwrap_err(), CliError::NoProgramFound);
    assert_eq!(cli(&Vec::new(), &connection()).unwrap_err(), CliError::NoProgramFound);
    let unknown = vec![
        Candidate { name: String::from("psql"), path: None },
        Candidate { name: String::from("mysql"), path: Some(String::from("/usr/bin/mysql")) },
        Candidate { name: String::from("pgcli"), path: Some(String::from("/usr/bin/pgcli")) },
    ];
    assert_eq!(
        cli(&unknown, &connection()).unwrap_err(),
        CliError::UnsupportedProgram(1)
    );
}

fn versions(names: &[&str]) -> Vec<String> {
    names.iter().map(|n| String::from(*n)).collect()
}

#[test]
fn setup_runs_what_is_pending() {
    let embedded = versions(&["2020-10-29-141158", "2020-11-05-085809", "2021-01-13-100135"]);
    assert_eq!(setup(&embedded, &versions(&[])).unwrap(), embedded);
    assert_eq!(
        setup(&embedded, &versions(&["2020-10-29-141158"])).unwrap(),
        versions(&["2020-11-05-085809", "2021-01-13-100135"])
    );
}

#[test]
fn setting_up_twice_runs_nothing_the_second_time() {
    let embedded = versions(&["1", "2", "3"]);
    let mut applied = versions(&["1"]);
    let first = setup(&embedded, &applied).unwrap();
    applied.extend(first);
    assert_eq!(setup(&embedded, &applied).unwrap(), Vec::<String>::new());
    assert_eq!(applied, versions(&["1", "2", "3"]));
}

#[test]
fn a_schema_that_is_ahead_is_refused() {
    let embedded = versions(&["1", "2"]);
    assert_eq!(
        setup(&embedded, &versions(&["1", "2", "3"])),
        Err(MigrationError::SchemaAhead(2))
    );
}

fn record(log: &str) -> JobRecord {
    JobRecord {
        job: a_job(log),
        submit: a_submit(),
        endpoint: an_endpoint(),
        package: a_package(),
        image: an_image(),
    }
}

fn flags() -> JobFlags {
    JobFlags {
        csv: false,
        show_env: false,
        show_script: false,
        show_log: false,
        no_script_highlight: false,
        no_script_line_numbers: false,
    }
}

#[test]
fn job_as_csv_is_one_row() {
    let out = job(
        &record("#BUTIDO:STATE:OK\n"),
        JobFlags { csv: true, ..flags() },
        &None,
        &Vec::new(),
    );
    match out {
        JobOutput::Csv(Table { header, rows, csv }) => {
            assert!(csv);
            assert_eq!(
                header,
                vec![
                    "UUID",
                    "Success",
                    "Package Name",
                    "Package Version",
                    "Ran on",
                    "Image Name",
                    "Container"
                ]
            );
            assert_eq!(
                rows,
                vec![vec![
                    "a1a2a3a4-b1b2-c1c2-d1d2-d3d4d5d6d7d8",
                    "yes",
                    "vim",
                    "8.2",
                    "builder1",
                    "registry/debian:bullseye",
                    "c0ffee"
                ]]
            );
        }
        other => panic!("{:?}", other),
    }
}

#[test]
fn job_report_has_its_sections() {
    let envs = vec![
        models::EnvVar { id: 1, name: String::from("CC"), value: String::from("gcc") },
        models::EnvVar { id: 2, name: String::from("J"), value: String::from("4") },
    ];
    let out = job(
        &record("compiling\n#BUTIDO:STATE:ERR:failed\n"),
        JobFlags { show_env: true, show_script: true, show_log: true, no_script_line_numbers: true, ..flags() },
        &Some(String::from("Solarized")),
        &envs,
    );
    let report = match out {
        JobOutput::Report(report) => report,
        other => panic!("{:?}", other),
    };
    assert_eq!(report.verdict, JobResult::Errored);
    assert_eq!(report.job_uuid, "a1a2a3a4-b1b2-c1c2-d1d2-d3d4d5d6d7d8");
    assert_eq!(report.submit_uuid, "00000000-0000-0000-0000-00000000000f");
    assert_eq!(report.succeeded, "no");
    assert_eq!(report.package_name, "vim");
    assert_eq!(report.package_version, "8.2");
    assert_eq!(report.endpoint_name, "builder1");
    assert_eq!(report.image_name, "registry/debian:bullseye");
    assert_eq!(report.container_hash, "c0ffee");
    assert_eq!(report.script_lines, 2);
    assert_eq!(report.log_lines, 2);
    assert_eq!(report.env.unwrap(), "\t  0. CC=gcc\n\t  1. J=4");
    match report.script {
        ScriptSection::Shown { text, highlight, line_numbers, theme } => {
            assert_eq!(text, "#!/bin/sh\necho hi\n");
            assert!(highlight);
            assert!(!line_numbers);
            assert_eq!(theme, "Solarized");
        }
        other => panic!("{:?}", other),
    }
    assert_eq!(report.log.unwrap(), "compiling\n#BUTIDO:STATE:ERR:failed");
}

#[test]
fn job_report_without_a_theme_cannot_show_the_script() {
    let out = job(
        &record(""),
        JobFlags { show_script: true, ..flags() },
        &None,
        &Vec::new(),
    );
    match out {
        JobOutput::Report(report) => {
            assert_eq!(report.succeeded, "unknown");
            assert!(report.env.is_none());
            assert!(report.log.is_none());
            assert!(matches!(report.script, ScriptSection::MissingTheme));
        }
        other => panic!("{:?}", other),
    }
    match job(&record(""), flags(), &None, &Vec::new()) {
        JobOutput::Report(report) => assert!(matches!(report.script, ScriptSection::Hidden)),
        other => panic!("{:?}", other),
    }
}

fn jobs_options() -> JobsOptions {
    JobsOptions {
        csv: false,
        submit_uuid: None,
        image: None,
        env_filter: None,
        older_than: None,
        newer_than: None,
        endpoint: None,
        package: None,
        limit: None,
    }
}

#[test]
fn jobs_filters_come_in_their_order() {
    let opts = JobsOptions {
        submit_uuid: Some(SUBMIT_UUID),
        image: Some(String::from("deb11")),
        env_filter: Some(String::from("CC=gcc")),
        older_than: Some(String::from("2021-01-01T00:00:00Z")),
        newer_than: Some(String::from("2020-01-01T00:00:00Z")),
        endpoint: Some(String::from("builder1")),
        package: Some(String::from("vim")),
        limit: Some(0),
        ..jobs_options()
    };
    let query = jobs_query(&opts, &lookup(), 10).unwrap();
    assert_eq!(query.limit, i64::MAX);
    assert_eq!(query.filters.len(), 7);
    assert!(matches!(query.filters[0], JobFilter::SubmitUuid(SUBMIT_UUID)));
    match &query.filters[1] {
        JobFilter::Image(name) => assert_eq!(name, "registry/debian:bullseye"),
        other => panic!("{:?}", other),
    }
    match &query.filters[2] {
        JobFilter::Env { name, value } => {
            assert_eq!(name, "CC");
            assert_eq!(value, "gcc");
        }
        other => panic!("{:?}", other),
    }
    assert!(matches!(
        query.filters[3],
        JobFilter::OlderThan(Timestamp { secs: 1609459200, nanos: 0 })
    ));
    assert!(matches!(
        query.filters[4],
        JobFilter::NewerThan(Timestamp { secs: 1577836800, nanos: 0 })
    ));
    match &query.filters[5] {
        JobFilter::Endpoint(name) => assert_eq!(name, "builder1"),
        other => panic!("{:?}", other),
    }
    match &query.filters[6] {
        JobFilter::Package(name) => assert_eq!(name, "vim"),
        other => panic!("{:?}", other),
    }

    let query = jobs_query(&jobs_options(), &lookup(), 10).unwrap();
    assert!(query.filters.is_empty());
    assert_eq!(query.limit, 10);
}

#[test]
fn jobs_options_are_checked_in_their_order() {
    let all_wrong = JobsOptions {
        image: Some(String::from("nope")),
        env_filter: Some(String::from("novalue")),
        older_than: Some(String::from("then")),
        newer_than: Some(String::from("2020-13-01T00:00:00Z")),
        limit: Some(usize::MAX),
        ..jobs_options()
    };
    assert_eq!(
        jobs_query(&all_wrong, &lookup(), 10).unwrap_err(),
        QueryError::OlderThan(DateError::InvalidFormat)
    );
    let opts = JobsOptions { older_than: None, ..all_wrong };
    assert_eq!(
        jobs_query(&opts, &lookup(), 10).unwrap_err(),
        QueryError::NewerThan(DateError::OutOfRange)
    );
    let opts = JobsOptions { newer_than: None, ..opts };
    assert_eq!(jobs_query(&opts, &lookup(), 10).unwrap_err(), QueryError::UnknownImage);
    let opts = JobsOptions { image: None, ..opts };
    assert_eq!(jobs_query(&opts, &lookup(), 10).unwrap_err(), QueryError::MalformedEnvFilter);
    let opts = JobsOptions { env_filter: None, ..opts };
    assert_eq!(jobs_query(&opts, &lookup(), 10).unwrap_err(), QueryError::LimitOutOfRange);
}

fn jobs_record(log: &str, artifact: Option<&str>, job_uuid: u128) -> JobsRecord {
    JobsRecord {
        job: models::Job { uuid: job_uuid, ..a_job(log) },
        submit: a_submit(),
        endpoint: an_endpoint(),
        package: a_package(),
        image: an_image(),
        artifact: artifact.map(|path| models::Artifact { id: 1, path: String::from(path), job_id: 3 }),
    }
}

#[test]
fn jobs_are_listed_oldest_first() {
    let data = vec![
        jobs_record("#BUTIDO:STATE:OK", Some("vim-8.2.tar.gz"), 2),
        jobs_record("#BUTIDO:STATE:ERR:x", None, 1),
        jobs_record("", Some("README"), 0),
    ];
    let listing = jobs(&data, &lookup(), true).unwrap();
    let table = match listing {
        Listing::Rows(table) => table,
        Listing::Nothing => panic!("no rows"),
    };
    assert!(table.csv);
    assert_eq!(
        table.header,
        vec!["Submit", "Job", "Time", "Host", "Ok?", "Package", "Version", "Distro", "Type"]
    );
    assert_eq!(
        table.rows,
        vec![
            vec![
                "00000000-0000-0000-0000-00000000000f",
                "00000000-0000-0000-0000-000000000000",
                "2016-11-15 07:39:24",
                "builder1",
                "?",
                "vim",
                "8.2",
                "deb11",
                "README"
            ],
            vec![
                "00000000-0000-0000-0000-00000000000f",
                "00000000-0000-0000-0000-000000000001",
                "2016-11-15 07:39:24",
                "builder1",
                "no",
                "vim",
                "8.2",
                "deb11",
                "-"
            ],
            vec![
                "00000000-0000-0000-0000-00000000000f",
                "00000000-0000-0000-0000-000000000002",
                "2016-11-15 07:39:24",
                "builder1",
                "yes",
                "vim",
                "8.2",
                "deb11",
                "GZ"
            ],
        ]
    );
}

#[test]
fn no_jobs_give_no_table() {
    assert!(matches!(jobs(&Vec::new(), &lookup(), false), Ok(Listing::Nothing)));
}

#[test]
fn a_time_that_cannot_be_shown_stops_the_listing() {
    let mut bad = jobs_record("", None, 1);
    bad.submit.submit_time = Timestamp { secs: i64::MAX, nanos: 0 };
    let data = vec![jobs_record("", None, 2), bad];
    assert_eq!(
        jobs(&data, &lookup(), false).unwrap_err(),
        ReportError::TimestampOutOfRange
    );
}

fn submits_options() -> SubmitsOptions {
    SubmitsOptions {
        csv: false,
        limit: None,
        for_commit: None,
        image: None,
        with_pkg: None,
        for_pkg: None,
    }
}

#[test]
fn submits_are_selected_by_package() {
    let query = submits_query(&submits_options(), &lookup(), 7).unwrap();
    assert!(matches!(query.selection, SubmitSelection::All));
    assert_eq!(query.limit, 7);
    assert!(query.commit.is_none());
    assert!(query.image.is_none());

    let both = SubmitsOptions {
        with_pkg: Some(String::from("vim")),
        for_pkg: Some(String::from("emacs")),
        for_commit: Some(String::from("abc123")),
        image: Some(String::from("deb11")),
        ..submits_options()
    };
    let query = submits_query(&both, &lookup(), 7).unwrap();
    match query.selection {
        SubmitSelection::WithPackage(name) => assert_eq!(name, "vim"),
        other => panic!("{:?}", other),
    }
    assert_eq!(query.commit.unwrap(), "abc123");
    assert_eq!(query.image.unwrap(), "registry/debian:bullseye");

    let for_pkg = SubmitsOptions { for_pkg: Some(String::from("emacs")), ..submits_options() };
    match submits_query(&for_pkg, &lookup(), 7).unwrap().selection {
        SubmitSelection::ForPackage(name) => assert_eq!(name, "emacs"),
        other => panic!("{:?}", other),
    }
}

#[test]
fn submits_limit_is_read_before_the_image() {
    let opts = SubmitsOptions {
        limit: Some(usize::MAX),
        image: Some(String::from("nope")),
        ..submits_options()
    };
    assert_eq!(
        submits_query(&opts, &lookup(), 7).unwrap_err(),
        QueryError::LimitOutOfRange
    );
    let opts = SubmitsOptions { limit: None, ..opts };
    assert_eq!(submits_query(&opts, &lookup(), 7).unwrap_err(), QueryError::UnknownImage);
}

#[test]
fn submits_are_listed_oldest_first() {
    let newer = models::Submit {
        uuid: 2,
        submit_time: Timestamp { secs: 1479195565, nanos: 250_000_000 },
        ..a_submit()
    };
    let older = models::Submit { uuid: 1, ..a_submit() };
    let data = vec![(newer, a_package()), (older, a_package())];
    assert_eq!(
        rows_of(submits(&data, false).unwrap()),
        vec![
            vec!["2016-11-15 07:39:24", "00000000-0000-0000-0000-000000000001", "vim", "8.2"],
            vec!["2016-11-15 07:39:25.250", "00000000-0000-0000-0000-000000000002", "vim", "8.2"],
        ]
    );
}

fn submit_job(log: &str) -> SubmitJob {
    SubmitJob {
        job: a_job(log),
        image: Some(an_image()),
        package: Some(a_package()),
        endpoint: Some(an_endpoint()),
    }
}

#[test]
fn submit_counts_its_jobs_by_verdict() {
    let jobs = vec![
        submit_job("#BUTIDO:STATE:OK"),
        submit_job("#BUTIDO:STATE:ERR:x"),
        submit_job("#BUTIDO:STATE:OK"),
        submit_job("?"),
    ];
    let githash = models::GitHash { id: 1, hash: String::from("abc123") };
    let report = submit(&a_submit(), &githash, &jobs, &lookup()).unwrap();
    assert_eq!(report.submit_id, "00000000-0000-0000-0000-00000000000f");
    assert_eq!(report.date, "2016-11-15 07:39:24");
    assert_eq!(report.commit, "abc123");
    assert_eq!(report.jobs, 4);
    assert_eq!(report.success, 2);
    assert_eq!(report.errored, 1);
    assert_eq!(report.unknown, 1);
    assert_eq!(
        report.header,
        vec!["Job", "Success", "Package", "Version", "Container", "Endpoint", "Image"]
    );
    let rows = report.rows.unwrap();
    assert_eq!(rows.len(), 4);
    let cells: Vec<(&str, Color)> = rows[1].iter().map(|c| (c.text.as_str(), c.color)).collect();
    assert_eq!(
        cells,
        vec![
            ("a1a2a3a4-b1b2-c1c2-d1d2-d3d4d5d6d7d8", Color::Cyan),
            ("Error", Color::Red),
            ("vim", Color::Cyan),
            ("8.2", Color::Cyan),
            ("c0ffee", Color::Normal),
            ("builder1", Color::Normal),
            ("deb11", Color::Normal),
        ]
    );
    assert_eq!((rows[0][1].text.as_str(), rows[0][1].color), ("Success", Color::Green));
    assert_eq!((rows[3][1].text.as_str(), rows[3][1].color), ("Unknown", Color::Yellow));
}

#[test]
fn submit_names_what_the_database_lacks() {
    let githash = models::GitHash { id: 1, hash: String::from("abc123") };
    let mut no_package = submit_job("");
    no_package.package = None;
    no_package.endpoint = None;
    let mut no_image = submit_job("");
    no_image.image = None;
    let jobs = vec![submit_job(""), no_package, no_image];
    let report = submit(&a_submit(), &githash, &jobs, &lookup()).unwrap();
    assert_eq!(report.jobs, 3);
    assert_eq!(report.rows.unwrap_err(), SubmitError::PackageNotFound(1));

    let mut no_endpoint = submit_job("");
    no_endpoint.endpoint = None;
    let report = submit(&a_submit(), &githash, &vec![no_endpoint], &lookup()).unwrap();
    assert_eq!(report.rows.unwrap_err(), SubmitError::EndpointNotFound(0));

    let mut no_image = submit_job("");
    no_image.image = None;
    no_image.package = None;
    let report = submit(&a_submit(), &githash, &vec![no_image], &lookup()).unwrap();
    assert_eq!(report.rows.unwrap_err(), SubmitError::ImageNotFound(0));
}

fn releases_options() -> ReleasesOptions {
    ReleasesOptions {
        csv: false,
        limit: None,
        older_than: None,
        newer_than: None,
        store: None,
        package: None,
    }
}

#[test]
fn releases_options_give_the_query() {
    let opts = ReleasesOptions {
        older_than: Some(String::from("2021-01-01T00:00:00Z")),
        store: Some(String::from("main")),
        package: Some(String::from("vim")),
        limit: Some(3),
        ..releases_options()
    };
    let query = releases_query(&opts, 10).unwrap();
    assert_eq!(query.limit, 3);
    assert_eq!(query.older_than, Some(Timestamp { secs: 1609459200, nanos: 0 }));
    assert_eq!(query.newer_than, None);
    assert_eq!(query.store.unwrap(), "main");
    assert_eq!(query.package.unwrap(), "vim");

    let wrong = ReleasesOptions {
        limit: Some(usize::MAX),
        older_than: Some(String::from("x")),
        newer_than: Some(String::from("y")),
        ..releases_options()
    };
    assert_eq!(releases_query(&wrong, 10).unwrap_err(), QueryError::LimitOutOfRange);
    let wrong = ReleasesOptions { limit: None, ..wrong };
    assert_eq!(
        releases_query(&wrong, 10).unwrap_err(),
        QueryError::OlderThan(DateError::InvalidFormat)
    );
    let wrong = ReleasesOptions { older_than: None, ..wrong };
    assert_eq!(
        releases_query(&wrong, 10).unwrap_err(),
        QueryError::NewerThan(DateError::InvalidFormat)
    );
}

fn release_record(path: &str, available: bool) -> ReleaseRecord {
    ReleaseRecord {
        artifact: models::Artifact { id: 1, path: String::from(path), job_id: 3 },
        package: a_package(),
        release: models::Release {
            id: 1,
            artifact_id: 1,
            release_date: Timestamp { secs: 1479195564, nanos: 0 },
            release_store_id: 1,
        },
        store: models::ReleaseStore { id: 1, store_name: String::from("main") },
        available,
    }
}

#[test]
fn releases_are_listed_oldest_first() {
    let data = vec![
        release_record("vim-8.1.tar.gz", false),
        release_record("vim-8.2.tar.gz", true),
    ];
    let table = releases(&data, "/srv/releases", true).unwrap();
    assert!(table.csv);
    assert_eq!(table.header, vec!["Package", "Version", "Date", "Path"]);
    assert_eq!(
        table.rows,
        vec![
            vec!["vim", "8.2", "2016-11-15 07:39:24", "/srv/releases/main/vim-8.2.tar.gz"],
            vec![
                "vim",
                "8.2",
                "2016-11-15 07:39:24",
                "main/vim-8.1.tar.gz is not available locally"
            ],
        ]
    );
    assert_eq!(
        release_path("/srv/releases", &data[1].store, &data[1].artifact),
        "/srv/releases/main/vim-8.2.tar.gz"
    );
    let empty = releases(&Vec::new(), "/srv/releases", false).unwrap();
    assert!(empty.rows.is_empty());
    assert_eq!(empty.header.len(), 4);
}

#[test]
fn artifacts_are_listed_oldest_first() {
    let released = models::Release {
        id: 1,
        artifact_id: 2,
        release_date: Timestamp { secs: 1479195564, nanos: 0 },
        release_store_id: 1,
    };
    let data = vec![
        (models::Artifact { id: 2, path: String::from("b-2.tar.gz"), job_id: 3 }, a_job(""), Some(released)),
        (models::Artifact { id: 1, path: String::from("a-1.tar.gz"), job_id: 3 }, a_job(""), None),
    ];
    assert_eq!(
        rows_of(artifacts(&data, false).unwrap()),
        vec![
            vec!["a-1.tar.gz", "no", "a1a2a3a4-b1b2-c1c2-d1d2-d3d4d5d6d7d8"],
            vec!["b-2.tar.gz", "2016-11-15 07:39:24", "a1a2a3a4-b1b2-c1c2-d1d2-d3d4d5d6d7d8"],
        ]
    );
    let query = artifacts_query(Some(JOB_UUID), None, 0).unwrap();
    assert_eq!(query.job_uuid, Some(JOB_UUID));
    assert_eq!(query.limit, i64::MAX);
    assert_eq!(
        artifacts_query(None, Some(usize::MAX), 0).unwrap_err(),
        QueryError::LimitOutOfRange
    );
}

#[test]
fn variables_and_images_are_listed_in_order() {
    let vars = vec![
        models::EnvVar { id: 1, name: String::from("B"), value: String::from("2") },
        models::EnvVar { id: 2, name: String::from("A"), value: String::from("1") },
    ];
    match envvars(&vars, true) {
        Listing::Rows(table) => {
            assert_eq!(table.header, vec!["Name", "Value"]);
            assert_eq!(table.rows, vec![vec!["B", "2"], vec!["A", "1"]]);
            assert!(table.csv);
        }
        Listing::Nothing => panic!("no rows"),
    }
    assert!(matches!(envvars(&Vec::new(), false), Listing::Nothing));
    match images(&vec![an_image()], false) {
        Listing::Rows(table) => {
            assert_eq!(table.header, vec!["Name"]);
            assert_eq!(table.rows, vec![vec!["registry/debian:bullseye"]]);
        }
        Listing::Nothing => panic!("no rows"),
    }
    assert!(matches!(images(&Vec::new(), false), Listing::Nothing));
}

#[test]
fn log_of_shows_the_log_line_by_line() {
    assert_eq!(
        log_of("make\n#BUTIDO:PROGRESS:10\n#BUTIDO:STATE:OK\n"),
        vec!["make", "#BUTIDO:PROGRESS:10", "#BUTIDO:STATE:OK"]
    );
}

#[test]
fn csv_and_table_hold_the_same_rows() {
    let data = vec![jobs_record("#BUTIDO:STATE:OK", Some("vim-8.2.tar.gz"), 2)];
    let as_csv = match jobs(&data, &lookup(), true).unwrap() {
        Listing::Rows(table) => table,
        Listing::Nothing => panic!("no rows"),
    };
    let as_table = match jobs(&data, &lookup(), false).unwrap() {
        Listing::Rows(table) => table,
        Listing::Nothing => panic!("no rows"),
    };
    assert_eq!(as_csv.header, as_table.header);
    assert_eq!(as_csv.rows, as_table.rows);
    assert!(as_csv.csv && !as_table.csv);
}
