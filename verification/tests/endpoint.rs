use butido::commands::db::CommandError;
use butido::commands::endpoint::{
    connect_to_endpoints, containers, containers_list, containers_prune, endpoint,
    get_date_filters, ping, ping_message, ping_options, stats, ContainerFilter, ContainerStat,
    ContainersAction, DockerConfig, EndpointAction, EndpointContainers, EndpointSettings,
    EndpointStats, EndpointType, NamedEndpoint, PingAction, PingError, PingEvent, PingOptions,
};
use butido::endpoint::requirements::{
    check_requirements, setup_endpoints, EndpointReport, RequirementError,
};
use butido::util::docker::ContainerImage;
use butido::util::time::{DateError, Timestamp};

fn names(list: &[&str]) -> Vec<String> {
    list.iter().map(|n| String::from(*n)).collect()
}

#[test]
fn endpoint_names_come_from_the_command_line_or_the_configuration() {
    let configured = names(&["e1", "e2"]);
    let command = endpoint(None, &configured, Some("ping")).unwrap();
    assert_eq!(command.endpoint_names, configured);
    assert_eq!(command.action, EndpointAction::Ping);
    let command = endpoint(Some("e9"), &configured, Some("stats")).unwrap();
    assert_eq!(command.endpoint_names, names(&["e9"]));
    assert_eq!(command.action, EndpointAction::Stats);
    assert_eq!(
        endpoint(None, &configured, Some("container")).unwrap().action,
        EndpointAction::Container
    );
    assert_eq!(
        endpoint(None, &configured, Some("containers")).unwrap().action,
        EndpointAction::Containers
    );
    match endpoint(None, &configured, Some("reboot")) {
        Err(CommandError::UnknownSubcommand(other)) => assert_eq!(other, "reboot"),
        other => panic!("{:?}", other),
    }
    assert!(matches!(
        endpoint(Some("e1"), &configured, None),
        Err(CommandError::NoSubcommand)
    ));
}

#[test]
fn containers_subcommands_are_selected_by_name() {
    assert_eq!(containers(Some("list")).unwrap(), ContainersAction::List);
    assert_eq!(containers(Some("prune")).unwrap(), ContainersAction::Prune);
    assert!(matches!(containers(None), Err(CommandError::NoSubcommand)));
    match containers(Some("stop")) {
        Err(CommandError::UnknownSubcommand(other)) => assert_eq!(other, "stop"),
        other => panic!("{:?}", other),
    }
}

#[test]
fn ping_options_are_numbers() {
    assert_eq!(ping_options("10", "1"), Ok(PingOptions { n_pings: 10, sleep: 1 }));
    assert_eq!(ping_options("ten", "x"), Err(PingError::InvalidCount));
    assert_eq!(ping_options("10", "x"), Err(PingError::InvalidSleep));
}

#[test]
fn an_endpoint_is_pinged_until_it_has_answered_often_enough() {
    let options = PingOptions { n_pings: 2, sleep: 3 };
    let mut done = 0;
    let mut log = Vec::new();
    let (next, mut action) = ping(options, done, PingEvent::Started);
    done = next;
    loop {
        log.push(action);
        let event = match action {
            PingAction::Ping => PingEvent::Pinged(true),
            PingAction::Sleep(_) => PingEvent::Slept,
            PingAction::Fail | PingAction::Succeed => break,
        };
        let (next, following) = ping(options, done, event);
        done = next;
        action = following;
    }
    assert_eq!(
        log,
        vec![
            PingAction::Ping,
            PingAction::Sleep(3),
            PingAction::Ping,
            PingAction::Sleep(3),
            PingAction::Succeed
        ]
    );
    assert_eq!(done, 2);
}

#[test]
fn a_failed_ping_ends_the_pinging() {
    let options = PingOptions { n_pings: 5, sleep: 1 };
    assert_eq!(ping(options, 1, PingEvent::Pinged(false)), (1, PingAction::Fail));
    assert_eq!(
        ping(PingOptions { n_pings: 0, sleep: 1 }, 0, PingEvent::Started),
        (0, PingAction::Succeed)
    );
    assert_eq!(ping_message("e1", PingAction::Ping), "Pinging e1");
    assert_eq!(ping_message("e1", PingAction::Sleep(1)), "Pinging e1");
    assert_eq!(ping_message("e1", PingAction::Fail), "Pinging e1 failed");
    assert_eq!(ping_message("e1", PingAction::Succeed), "Pinging e1 successful");
}

#[test]
fn stats_are_listed_by_endpoint() {
    let data = vec![
        EndpointStats {
            name: String::from("e1"),
            containers: 3,
            images: 12,
            id: String::from("ID"),
            kernel_version: String::from("5.10.0"),
            mem_total: 16_000_000_000,
            memory_limit: true,
            n_cpu: 8,
            operating_system: String::from("Debian"),
            system_time: Some(String::from("2021-01-01T00:00:00Z")),
        },
        EndpointStats {
            name: String::from("e2"),
            containers: 0,
            images: 0,
            id: String::from("ID2"),
            kernel_version: String::from("4.19"),
            mem_total: 512,
            memory_limit: false,
            n_cpu: 1,
            operating_system: String::from("Alpine"),
            system_time: None,
        },
    ];
    let table = stats(&data, false);
    assert!(!table.csv);
    assert_eq!(
        table.header,
        vec![
            "Name",
            "Containers",
            "Images",
            "Kernel",
            "Memory",
            "Memory limit",
            "Cores",
            "OS",
            "System Time"
        ]
    );
    assert_eq!(
        table.rows,
        vec![
            vec![
                String::from("e1"),
                String::from("3"),
                String::from("12"),
                String::from("5.10.0"),
                bytesize::ByteSize::b(16_000_000_000).to_string(),
                String::from("true"),
                String::from("8"),
                String::from("Debian"),
                String::from("2021-01-01T00:00:00Z"),
            ],
            vec![
                String::from("e2"),
                String::from("0"),
                String::from("0"),
                String::from("4.19"),
                bytesize::ByteSize::b(512).to_string(),
                String::from("false"),
                String::from("1"),
                String::from("Alpine"),
                String::from("unknown"),
            ],
        ]
    );
    assert_ne!(table.rows[0][4], "16000000000");
}

fn stat(id: &str, image: &str, state: &str, created: i64) -> ContainerStat {
    ContainerStat {
        created: Timestamp { secs: created, nanos: 0 },
        created_text: format!("t{}", created),
        id: String::from(id),
        image: String::from(image),
        state: String::from(state),
        status: format!("{} for a while", state),
    }
}

fn two_endpoints() -> Vec<EndpointContainers> {
    vec![
        EndpointContainers {
            endpoint_name: String::from("e1"),
            containers: vec![
                stat("c1", "deb", "running", 100),
                stat("c2", "deb", "exited", 200),
                stat("c3", "fed", "running", 300),
            ],
        },
        EndpointContainers {
            endpoint_name: String::from("e2"),
            containers: vec![stat("c4", "deb", "exited", 400), stat("c5", "fed", "exited", 50)],
        },
    ]
}

fn no_filter() -> ContainerFilter {
    ContainerFilter { list_stopped: false, filter_image: None, older_than: None, newer_than: None }
}

fn ids(rows: &Vec<Vec<String>>) -> Vec<&str> {
    rows.iter().map(|r| r[1].as_str()).collect()
}

#[test]
fn containers_are_listed_through_the_filter() {
    let data = two_endpoints();
    let table = containers_list(&data, &no_filter(), false);
    assert_eq!(
        table.header,
        vec!["Endpoint", "Container id", "Image", "Created", "Status"]
    );
    assert_eq!(
        table.rows,
        vec![
            vec!["e1", "c1", "deb", "t100", "running for a while"],
            vec!["e1", "c3", "fed", "t300", "running for a while"],
        ]
    );
    let stopped = ContainerFilter { list_stopped: true, ..no_filter() };
    assert_eq!(ids(&containers_list(&data, &stopped, false).rows), vec!["c1", "c2", "c3", "c4", "c5"]);
    let image = ContainerFilter { filter_image: Some(String::from("deb")), ..stopped };
    assert_eq!(ids(&containers_list(&data, &image, false).rows), vec!["c1", "c2", "c4"]);
    let older = ContainerFilter {
        list_stopped: true,
        filter_image: None,
        older_than: Some(Timestamp { secs: 200, nanos: 0 }),
        newer_than: None,
    };
    assert_eq!(ids(&containers_list(&data, &older, false).rows), vec!["c1", "c5"]);
    let between = ContainerFilter {
        newer_than: Some(Timestamp { secs: 100, nanos: 0 }),
        older_than: Some(Timestamp { secs: 400, nanos: 0 }),
        ..older
    };
    assert_eq!(ids(&containers_list(&data, &between, true).rows), vec!["c2", "c3"]);
}

#[test]
fn exited_containers_are_pruned_once_asked() {
    let data = two_endpoints();
    let plan = containers_prune(&data, &None, &None);
    assert_eq!(plan.prompt, "Really delete 3 Containers?");
    let targets: Vec<(&str, &str)> = plan
        .targets
        .iter()
        .map(|t| (t.endpoint_name.as_str(), t.container_id.as_str()))
        .collect();
    assert_eq!(targets, vec![("e1", "c2"), ("e2", "c4"), ("e2", "c5")]);

    let plan = containers_prune(&data, &Some(Timestamp { secs: 100, nanos: 0 }), &None);
    assert_eq!(plan.prompt, "Really delete 1 Containers?");
    assert_eq!(plan.targets[0].container_id, "c5");
    let plan = containers_prune(&Vec::new(), &None, &None);
    assert_eq!(plan.prompt, "Really delete 0 Containers?");
    assert!(plan.targets.is_empty());
}

#[test]
fn date_filters_are_read_older_first() {
    assert_eq!(get_date_filters(&None, &None), Ok((None, None)));
    assert_eq!(
        get_date_filters(&Some(String::from("2018-02-14T00:28:07Z")), &None),
        Ok((Some(Timestamp { secs: 1518568087, nanos: 0 }), None))
    );
    assert_eq!(
        get_date_filters(&Some(String::from("x")), &Some(String::from("2018-13-14T00:28:07Z"))),
        Err(DateError::InvalidFormat)
    );
    assert_eq!(
        get_date_filters(&None, &Some(String::from("2018-13-14T00:28:07Z"))),
        Err(DateError::OutOfRange)
    );
}

#[test]
fn endpoints_are_configured_by_name() {
    let config = DockerConfig {
        endpoints: vec![
            NamedEndpoint {
                name: String::from("e1"),
                endpoint: EndpointSettings {
                    uri: String::from("unix:///var/run/docker.sock"),
                    endpoint_type: EndpointType::Socket,
                    maxjobs: 2,
                },
            },
            NamedEndpoint {
                name: String::from("e2"),
                endpoint: EndpointSettings {
                    uri: String::from("http://e2:2375"),
                    endpoint_type: EndpointType::Http,
                    maxjobs: 8,
                },
            },
            NamedEndpoint {
                name: String::from("e3"),
                endpoint: EndpointSettings {
                    uri: String::from("http://e3:2375"),
                    endpoint_type: EndpointType::Http,
                    maxjobs: 1,
                },
            },
        ],
        images: vec![ContainerImage { name: String::from("deb"), short_name: String::from("d") }],
        docker_versions: Some(names(&["20.10"])),
        docker_api_versions: None,
    };
    let found = connect_to_endpoints(&config, &names(&["e3", "e1", "nope"]));
    assert_eq!(found.len(), 2);
    assert_eq!(found[0].endpoint_name, "e1");
    assert_eq!(found[0].endpoint.uri, "unix:///var/run/docker.sock");
    assert_eq!(found[0].endpoint.endpoint_type, EndpointType::Socket);
    assert_eq!(found[0].endpoint.maxjobs, 2);
    assert_eq!(found[1].endpoint_name, "e3");
    assert_eq!(found[1].required_images.len(), 1);
    assert_eq!(found[1].required_images[0].name, "deb");
    assert_eq!(found[1].required_images[0].short_name, "d");
    assert_eq!(found[1].required_docker_versions, Some(names(&["20.10"])));
    assert_eq!(found[1].required_docker_api_versions, None);
    assert!(connect_to_endpoints(&config, &Vec::new()).is_empty());
}

#[test]
fn an_endpoint_must_meet_what_is_required_of_it() {
    let config = DockerConfig {
        endpoints: vec![NamedEndpoint {
            name: String::from("e1"),
            endpoint: EndpointSettings {
                uri: String::from("unix:///var/run/docker.sock"),
                endpoint_type: EndpointType::Socket,
                maxjobs: 2,
            },
        }],
        images: vec![
            ContainerImage { name: String::from("deb"), short_name: String::from("d") },
            ContainerImage { name: String::from("fed"), short_name: String::from("f") },
        ],
        docker_versions: Some(names(&["20.10", "24.0"])),
        docker_api_versions: Some(names(&["1.41"])),
    };
    let configuration = connect_to_endpoints(&config, &names(&["e1"])).remove(0);
    let report = |version: &str, api: &str, images: &[&str]| EndpointReport {
        version: String::from(version),
        api_version: String::from(api),
        images: names(images),
    };
    assert_eq!(
        check_requirements(&configuration, &report("24.0", "1.41", &["x", "fed", "deb"])),
        Ok(())
    );
    assert_eq!(
        check_requirements(&configuration, &report("19.03", "1.0", &[])),
        Err(RequirementError::VersionMismatch)
    );
    assert_eq!(
        check_requirements(&configuration, &report("20.10", "1.0", &[])),
        Err(RequirementError::ApiVersionMismatch)
    );
    assert_eq!(
        check_requirements(&configuration, &report("20.10", "1.41", &["deb"])),
        Err(RequirementError::ImageMissing(1))
    );
}

#[test]
fn one_endpoint_that_fails_fails_the_pool() {
    assert_eq!(setup_endpoints::<u8, &str>(vec![Ok(1), Ok(2), Ok(3)]), Ok(vec![1, 2, 3]));
    assert_eq!(
        setup_endpoints::<u8, &str>(vec![Ok(1), Err("down"), Ok(3), Err("late")]),
        Err("down")
    );
    assert_eq!(setup_endpoints::<u8, &str>(Vec::new()), Ok(Vec::new()));
}
