//! The `endpoint` subcommand family: which endpoints are meant, what is
//! listed of them and of their containers, and what is pruned.

use crate::commands::db::jobs::get_date_filter;
use crate::commands::db::CommandError;
use crate::commands::util::{display_data, mk_header, rows_texts, spec_table, titles, Table};
use crate::util::decimal::{decimal_string, decimal_text};
use crate::util::docker::ContainerImage;
use crate::util::size::{bytesize_text, format_bytesize};
use crate::util::text::{str_equal, texts};
use crate::util::time::{spec_date_filter, DateError, Timestamp};
use vstd::prelude::*;
use vstd::string::StringExecFns;

verus! {

/// The subcommands of `endpoint`.
#[derive(Debug, Clone, Copy, PartialEq, Eq, Structural)]
pub enum EndpointAction {
    Ping,
    Stats,
    Container,
    Containers,
}

/// The subcommand of `endpoint` that a name stands for.
pub open spec fn spec_endpoint_action(name: Seq<char>) -> Option<EndpointAction> {
    if name == "ping"@ {
        Some(EndpointAction::Ping)
    } else if name == "stats"@ {
        Some(EndpointAction::Stats)
    } else if name == "container"@ {
        Some(EndpointAction::Container)
    } else if name == "containers"@ {
        Some(EndpointAction::Containers)
    } else {
        None
    }
}

/// The endpoints that a command is about: the one that the command line
/// names, or all that are configured.
pub open spec fn spec_endpoint_names(endpoint_name: Option<Seq<char>>, configured: Seq<Seq<char>>) -> Seq<
    Seq<char>,
> {
    match endpoint_name {
        Some(name) => seq![name],
        None => configured,
    }
}

/// What `endpoint` is to do, and for which endpoints.
#[derive(Debug, Clone)]
pub struct EndpointCommand {
    pub endpoint_names: Vec<String>,
    pub action: EndpointAction,
}

/// The text of an optional string slice.
pub open spec fn str_text(value: Option<&str>) -> Option<Seq<char>> {
    match value {
        Some(text) => Some(text@),
        None => None,
    }
}

fn copy_names(names: &Vec<String>) -> (r: Vec<String>)
    ensures
        texts(r@) == texts(names@),
{
    let mut r: Vec<String> = Vec::new();
    let mut i: usize = 0;
    while i < names.len()
        invariant
            i <= names.len(),
            r@.len() == i,
            forall|j: int| 0 <= j < i ==> (#[trigger] r@[j])@ == names@[j]@,
        decreases names.len() - i,
    {
        r.push(names[i].clone());
        i = i + 1;
    }
    proof {
        assert(texts(r@) =~= texts(names@));
    }
    r
}

/// Selects the subcommand of `endpoint` that the command line names, and
/// the endpoints it is about.
pub fn endpoint(endpoint_name: Option<&str>, configured: &Vec<String>, subcommand: Option<&str>) -> (r:
    Result<EndpointCommand, CommandError>)
    ensures
        match r {
            Ok(command) => subcommand matches Some(name) && spec_endpoint_action(name@) == Some(
                command.action,
            ) && texts(command.endpoint_names@) == spec_endpoint_names(
                str_text(endpoint_name),
                texts(configured@),
            ),
            Err(CommandError::NoSubcommand) => subcommand.is_none(),
            Err(CommandError::UnknownSubcommand(other)) => subcommand matches Some(name)
                && spec_endpoint_action(name@).is_none() && other@ == name@,
        },
{
    let endpoint_names = match endpoint_name {
        Some(name) => {
            let names = vec![String::from_str(name)];
            proof {
                assert(texts(names@) =~= seq![name@]);
            }
            names
        },
        None => copy_names(configured),
    };
    match subcommand {
        None => Err(CommandError::NoSubcommand),
        Some(name) => {
            let action = if str_equal(name, "ping") {
                EndpointAction::Ping
            } else if str_equal(name, "stats") {
                EndpointAction::Stats
            } else if str_equal(name, "container") {
                EndpointAction::Container
            } else if str_equal(name, "containers") {
                EndpointAction::Containers
            } else {
                return Err(CommandError::UnknownSubcommand(name.to_owned()));
            };
            Ok(EndpointCommand { endpoint_names, action })
        },
    }
}

/// The subcommands of `endpoint containers`.
#[derive(Debug, Clone, Copy, PartialEq, Eq, Structural)]
pub enum ContainersAction {
    List,
    Prune,
}

/// The subcommand of `endpoint containers` that a name stands for.
pub open spec fn spec_containers_action(name: Seq<char>) -> Option<ContainersAction> {
    if name == "list"@ {
        Some(ContainersAction::List)
    } else if name == "prune"@ {
        Some(ContainersAction::Prune)
    } else {
        None
    }
}

/// Selects the subcommand of `endpoint containers` that the command line
/// names.
pub fn containers(subcommand: Option<&str>) -> (r: Result<ContainersAction, CommandError>)
    ensures
        match r {
            Ok(action) => subcommand matches Some(name) && spec_containers_action(name@) == Some(
                action,
            ),
            Err(CommandError::NoSubcommand) => subcommand.is_none(),
            Err(CommandError::UnknownSubcommand(other)) => subcommand matches Some(name)
                && spec_containers_action(name@).is_none() && other@ == name@,
        },
{
    match subcommand {
        None => Err(CommandError::NoSubcommand),
        Some(name) => {
            if str_equal(name, "list") {
                Ok(ContainersAction::List)
            } else if str_equal(name, "prune") {
                Ok(ContainersAction::Prune)
            } else {
                Err(CommandError::UnknownSubcommand(name.to_owned()))
            }
        },
    }
}

/// How often `endpoint ping` pings each endpoint, and how long it waits
/// after each ping, in seconds.
#[derive(Debug, Clone, Copy, PartialEq, Eq, Structural)]
pub struct PingOptions {
    pub n_pings: u64,
    pub sleep: u64,
}

/// Why the options of `endpoint ping` were refused.
#[derive(Debug, Clone, Copy, PartialEq, Eq, Structural)]
pub enum PingError {
    /// The number of pings is no number.
    InvalidCount,
    /// The time to wait is no number.
    InvalidSleep,
}

/// What the options of `endpoint ping` read as: the number of pings is
/// read first.
pub open spec fn spec_ping_options(ping_n: Seq<char>, ping_sleep: Seq<char>) -> Result<
    PingOptions,
    PingError,
> {
    match crate::util::decimal::spec_parse_u64(vstd::utf8::encode_utf8(ping_n)) {
        None => Err(PingError::InvalidCount),
        Some(n_pings) => match crate::util::decimal::spec_parse_u64(
            vstd::utf8::encode_utf8(ping_sleep),
        ) {
            None => Err(PingError::InvalidSleep),
            Some(sleep) => Ok(PingOptions { n_pings, sleep }),
        },
    }
}

/// Reads the options of `endpoint ping`.
pub fn ping_options(ping_n: &str, ping_sleep: &str) -> (r: Result<PingOptions, PingError>)
    ensures
        r == spec_ping_options(ping_n@, ping_sleep@),
{
    let n_pings = match crate::util::decimal::parse_u64(ping_n) {
        Some(n) => n,
        None => {
            return Err(PingError::InvalidCount);
        },
    };
    match crate::util::decimal::parse_u64(ping_sleep) {
        Some(sleep) => Ok(PingOptions { n_pings, sleep }),
        None => Err(PingError::InvalidSleep),
    }
}

/// What has just happened to the pinging of one endpoint.
#[derive(Debug, Clone, Copy, PartialEq, Eq, Structural)]
pub enum PingEvent {
    /// The pinging begins.
    Started,
    /// The endpoint answered the ping, or failed to.
    Pinged(bool),
    /// The wait after a ping is over.
    Slept,
}

/// What to do next with one endpoint.
#[derive(Debug, Clone, Copy, PartialEq, Eq, Structural)]
pub enum PingAction {
    /// Ping the endpoint.
    Ping,
    /// Advance the progress bar by one and wait this many seconds.
    Sleep(u64),
    /// Advance the progress bar by one and close it: the ping failed, and
    /// its error is the command's.
    Fail,
    /// Close the progress bar: every ping was answered.
    Succeed,
}

/// The next step of pinging one endpoint, after `done` answered pings: an
/// answered ping is followed by the wait, a failed one ends the pinging;
/// at the start and after each wait comes the next ping, until the endpoint
/// has answered `n_pings` of them.
pub open spec fn spec_ping(options: PingOptions, done: u64, event: PingEvent) -> (u64, PingAction) {
    match event {
        PingEvent::Pinged(true) => (
            if done < u64::MAX {
                (done + 1) as u64
            } else {
                done
            },
            PingAction::Sleep(options.sleep),
        ),
        PingEvent::Pinged(false) => (done, PingAction::Fail),
        _ => if done < options.n_pings {
            (done, PingAction::Ping)
        } else {
            (done, PingAction::Succeed)
        },
    }
}

/// Decides the next step of pinging one endpoint: the number of answered
/// pings after the event, and what to do.
pub fn ping(options: PingOptions, done: u64, event: PingEvent) -> (r: (u64, PingAction))
    ensures
        r == spec_ping(options, done, event),
{
    match event {
        PingEvent::Pinged(true) => (
            if done < u64::MAX {
                done + 1
            } else {
                done
            },
            PingAction::Sleep(options.sleep),
        ),
        PingEvent::Pinged(false) => (done, PingAction::Fail),
        _ => if done < options.n_pings {
            (done, PingAction::Ping)
        } else {
            (done, PingAction::Succeed)
        },
    }
}

/// The message on the progress bar of an endpoint: while it is pinged, and
/// once the pinging has failed or succeeded.
pub open spec fn spec_ping_message(endpoint_name: Seq<char>, action: PingAction) -> Seq<char> {
    match action {
        PingAction::Fail => "Pinging "@ + endpoint_name + " failed"@,
        PingAction::Succeed => "Pinging "@ + endpoint_name + " successful"@,
        _ => "Pinging "@ + endpoint_name,
    }
}

/// The message to show on the progress bar of an endpoint.
pub fn ping_message(endpoint_name: &str, action: PingAction) -> (message: String)
    ensures
        message@ == spec_ping_message(endpoint_name@, action),
{
    let message = String::from_str("Pinging ").concat(endpoint_name);
    match action {
        PingAction::Fail => message.concat(" failed"),
        PingAction::Succeed => message.concat(" successful"),
        _ => message,
    }
}

/// How an endpoint is reached.
#[derive(Debug, Clone, Copy, PartialEq, Eq, Structural)]
pub enum EndpointType {
    Socket,
    Http,
}

/// An endpoint as it is configured.
#[derive(Debug, Clone)]
pub struct EndpointSettings {
    pub uri: String,
    pub endpoint_type: EndpointType,
    pub maxjobs: usize,
}

/// A configured endpoint with its name.
#[derive(Debug, Clone)]
pub struct NamedEndpoint {
    pub name: String,
    pub endpoint: EndpointSettings,
}

/// The container part of the configuration.
#[derive(Debug, Clone)]
pub struct DockerConfig {
    pub endpoints: Vec<NamedEndpoint>,
    pub images: Vec<ContainerImage>,
    pub docker_versions: Option<Vec<String>>,
    pub docker_api_versions: Option<Vec<String>>,
}

/// All that is needed to connect to one endpoint, and what is required of
/// it.
#[derive(Debug, Clone)]
pub struct EndpointConfiguration {
    pub endpoint_name: String,
    pub endpoint: EndpointSettings,
    pub required_images: Vec<ContainerImage>,
    pub required_docker_versions: Option<Vec<String>>,
    pub required_docker_api_versions: Option<Vec<String>>,
}

/// The texts of an optional list of strings.
pub open spec fn option_texts(list: Option<Vec<String>>) -> Option<Seq<Seq<char>>> {
    match list {
        Some(items) => Some(texts(items@)),
        None => None,
    }
}

/// The names of some images: full name and short name of each.
pub open spec fn image_names(images: Seq<ContainerImage>) -> Seq<(Seq<char>, Seq<char>)> {
    images.map_values(|image: ContainerImage| (image.name@, image.short_name@))
}

/// Whether `configuration` is that of the endpoint under the configuration.
pub open spec fn is_configuration(
    configuration: EndpointConfiguration,
    endpoint: NamedEndpoint,
    config: DockerConfig,
) -> bool {
    &&& configuration.endpoint_name@ == endpoint.name@
    &&& configuration.endpoint.uri@ == endpoint.endpoint.uri@
    &&& configuration.endpoint.endpoint_type == endpoint.endpoint.endpoint_type
    &&& configuration.endpoint.maxjobs == endpoint.endpoint.maxjobs
    &&& image_names(configuration.required_images@) == image_names(config.images@)
    &&& option_texts(configuration.required_docker_versions) == option_texts(
        config.docker_versions,
    )
    &&& option_texts(configuration.required_docker_api_versions) == option_texts(
        config.docker_api_versions,
    )
}

/// The configured endpoints whose name is among `names`, in the order of
/// the configuration.
pub open spec fn selected_endpoints(endpoints: Seq<NamedEndpoint>, names: Seq<Seq<char>>) -> Seq<
    NamedEndpoint,
> {
    endpoints.filter(|endpoint: NamedEndpoint| names.contains(endpoint.name@))
}

fn copy_option(list: &Option<Vec<String>>) -> (r: Option<Vec<String>>)
    ensures
        option_texts(r) == option_texts(*list),
{
    match list {
        Some(items) => Some(copy_names(items)),
        None => None,
    }
}

fn copy_images(images: &Vec<ContainerImage>) -> (r: Vec<ContainerImage>)
    ensures
        image_names(r@) == image_names(images@),
{
    let mut r: Vec<ContainerImage> = Vec::new();
    let mut i: usize = 0;
    while i < images.len()
        invariant
            i <= images.len(),
            r@.len() == i,
            forall|j: int|
                0 <= j < i ==> (#[trigger] r@[j]).name@ == images@[j].name@ && r@[j].short_name@
                    == images@[j].short_name@,
        decreases images.len() - i,
    {
        r.push(
            ContainerImage {
                name: images[i].name.clone(),
                short_name: images[i].short_name.clone(),
            },
        );
        i = i + 1;
    }
    proof {
        assert(image_names(r@) =~= image_names(images@));
    }
    r
}

fn name_listed(names: &Vec<String>, name: &str) -> (r: bool)
    ensures
        r == texts(names@).contains(name@),
{
    let mut i: usize = 0;
    while i < names.len()
        invariant
            i <= names.len(),
            forall|j: int| 0 <= j < i ==> texts(names@)[j] != name@,
        decreases names.len() - i,
    {
        if str_equal(names[i].as_str(), name) {
            assert(texts(names@)[i as int] == name@);
            return true;
        }
        i = i + 1;
    }
    false
}

/// Gives the configurations of the endpoints to connect to: those of the
/// configuration whose name is among `endpoint_names`, each with what the
/// configuration requires of every endpoint.
pub fn connect_to_endpoints(config: &DockerConfig, endpoint_names: &Vec<String>) -> (r: Vec<
    EndpointConfiguration,
>)
    ensures
        r@.len() == selected_endpoints(config.endpoints@, texts(endpoint_names@)).len(),
        forall|i: int|
            0 <= i < r@.len() ==> is_configuration(
                #[trigger] r@[i],
                selected_endpoints(config.endpoints@, texts(endpoint_names@))[i],
                *config,
            ),
{
    let mut r: Vec<EndpointConfiguration> = Vec::new();
    let mut i: usize = 0;
    let ghost selected = |endpoint: NamedEndpoint| texts(endpoint_names@).contains(endpoint.name@);
    proof {
        assert(config.endpoints@.take(0) =~= Seq::<NamedEndpoint>::empty());
    }
    while i < config.endpoints.len()
        invariant
            i <= config.endpoints.len(),
            selected == |endpoint: NamedEndpoint| texts(endpoint_names@).contains(endpoint.name@),
            r@.len() == config.endpoints@.take(i as int).filter(selected).len(),
            forall|k: int|
                0 <= k < r@.len() ==> is_configuration(
                    #[trigger] r@[k],
                    config.endpoints@.take(i as int).filter(selected)[k],
                    *config,
                ),
        decreases config.endpoints.len() - i,
    {
        let endpoint = &config.endpoints[i];
        proof {
            let prefix = config.endpoints@.take(i as int);
            assert(config.endpoints@.take(i as int + 1) =~= prefix.push(*endpoint));
            prefix.lemma_filter_push(*endpoint, selected);
        }
        if name_listed(endpoint_names, endpoint.name.as_str()) {
            r.push(
                EndpointConfiguration {
                    endpoint_name: endpoint.name.clone(),
                    endpoint: EndpointSettings {
                        uri: endpoint.endpoint.uri.clone(),
                        endpoint_type: endpoint.endpoint.endpoint_type,
                        maxjobs: endpoint.endpoint.maxjobs,
                    },
                    required_images: copy_images(&config.images),
                    required_docker_versions: copy_option(&config.docker_versions),
                    required_docker_api_versions: copy_option(&config.docker_api_versions),
                },
            );
        }
        i = i + 1;
    }
    proof {
        assert(config.endpoints@.take(i as int) =~= config.endpoints@);
    }
    r
}

/// What an endpoint reports of itself.
#[derive(Debug, Clone)]
pub struct EndpointStats {
    pub name: String,
    pub containers: u64,
    pub images: u64,
    pub id: String,
    pub kernel_version: String,
    pub mem_total: u64,
    pub memory_limit: bool,
    pub n_cpu: u64,
    pub operating_system: String,
    pub system_time: Option<String>,
}

/// The column titles of `endpoint stats`.
pub open spec fn stats_titles() -> Seq<Seq<char>> {
    seq![
        "Name"@,
        "Containers"@,
        "Images"@,
        "Kernel"@,
        "Memory"@,
        "Memory limit"@,
        "Cores"@,
        "OS"@,
        "System Time"@,
    ]
}

/// The word for a truth value.
pub open spec fn bool_text(b: bool) -> Seq<char> {
    if b {
        "true"@
    } else {
        "false"@
    }
}

/// The row of an endpoint's report.
pub open spec fn stats_row(stat: EndpointStats) -> Seq<Seq<char>> {
    seq![
        stat.name@,
        decimal_text(stat.containers as nat),
        decimal_text(stat.images as nat),
        stat.kernel_version@,
        bytesize_text(stat.mem_total),
        bool_text(stat.memory_limit),
        decimal_text(stat.n_cpu as nat),
        stat.operating_system@,
        match stat.system_time {
            Some(time) => time@,
            None => "unknown"@,
        },
    ]
}

/// The rows of `endpoint stats`: one for each report, in order.
pub open spec fn stats_rows(data: Seq<EndpointStats>) -> Seq<Seq<Seq<char>>> {
    Seq::new(data.len(), |i: int| stats_row(data[i]))
}

fn stats_row_of(stat: &EndpointStats) -> (cells: Vec<String>)
    ensures
        texts(cells@) == stats_row(*stat),
{
    let cells = vec![
        stat.name.clone(),
        decimal_string(stat.containers),
        decimal_string(stat.images),
        stat.kernel_version.clone(),
        format_bytesize(stat.mem_total),
        if stat.memory_limit {
            String::from_str("true")
        } else {
            String::from_str("false")
        },
        decimal_string(stat.n_cpu),
        stat.operating_system.clone(),
        match &stat.system_time {
            Some(time) => time.clone(),
            None => String::from_str("unknown"),
        },
    ];
    proof {
        assert(texts(cells@) =~= stats_row(*stat));
    }
    cells
}

/// Shapes what `endpoint stats` prints: a row for each endpoint's report,
/// in the order in which the reports came in.
pub fn stats(data: &Vec<EndpointStats>, csv: bool) -> (table: Table)
    ensures
        spec_table(stats_titles(), stats_rows(data@), csv, table),
{
    let names = vec![
        "Name",
        "Containers",
        "Images",
        "Kernel",
        "Memory",
        "Memory limit",
        "Cores",
        "OS",
        "System Time",
    ];
    let header = mk_header(names);
    proof {
        assert(titles(names@) =~= stats_titles());
    }
    let mut rows: Vec<Vec<String>> = Vec::new();
    let mut i: usize = 0;
    while i < data.len()
        invariant
            i <= data.len(),
            rows@.len() == i,
            forall|k: int| 0 <= k < i ==> texts((#[trigger] rows@[k])@) == stats_row(data@[k]),
        decreases data.len() - i,
    {
        rows.push(stats_row_of(&data[i]));
        i = i + 1;
    }
    proof {
        assert(rows_texts(rows@) =~= stats_rows(data@));
    }
    display_data(header, rows, csv)
}

/// What an endpoint reports of one container. `created_text` is the time
/// of creation as it is shown, in the time zone of the machine.
#[derive(Debug, Clone)]
pub struct ContainerStat {
    pub created: Timestamp,
    pub created_text: String,
    pub id: String,
    pub image: String,
    pub state: String,
    pub status: String,
}

/// The containers that one endpoint reports.
#[derive(Debug, Clone)]
pub struct EndpointContainers {
    pub endpoint_name: String,
    pub containers: Vec<ContainerStat>,
}

/// The conditions of `endpoint containers list` and `prune`.
#[derive(Debug, Clone)]
pub struct ContainerFilter {
    pub list_stopped: bool,
    pub filter_image: Option<String>,
    pub older_than: Option<Timestamp>,
    pub newer_than: Option<Timestamp>,
}

/// Whether a container was created between the dates, where they are given.
pub open spec fn in_period(stat: ContainerStat, older_than: Option<Timestamp>, newer_than: Option<Timestamp>) -> bool {
    &&& older_than matches Some(time) ==> stat.created.spec_is_before(time)
    &&& newer_than matches Some(time) ==> time.spec_is_before(stat.created)
}

/// Whether a container is listed: it has not exited, unless stopped
/// containers are asked for; it runs the image, where one is given; and it
/// was created between the dates.
pub open spec fn is_listed(stat: ContainerStat, filter: ContainerFilter) -> bool {
    &&& filter.list_stopped || stat.state@ != "exited"@
    &&& filter.filter_image matches Some(image) ==> image@ == stat.image@
    &&& in_period(stat, filter.older_than, filter.newer_than)
}

/// Whether a container is pruned: it has exited and was created between
/// the dates.
pub open spec fn is_pruned(stat: ContainerStat, older_than: Option<Timestamp>, newer_than: Option<Timestamp>) -> bool {
    stat.state@ == "exited"@ && in_period(stat, older_than, newer_than)
}

fn check_period(stat: &ContainerStat, older_than: &Option<Timestamp>, newer_than: &Option<Timestamp>) -> (r:
    bool)
    ensures
        r == in_period(*stat, *older_than, *newer_than),
{
    let old_enough = match older_than {
        Some(time) => stat.created.is_before(time),
        None => true,
    };
    let new_enough = match newer_than {
        Some(time) => time.is_before(&stat.created),
        None => true,
    };
    old_enough && new_enough
}

fn check_listed(stat: &ContainerStat, filter: &ContainerFilter) -> (r: bool)
    ensures
        r == is_listed(*stat, *filter),
{
    let running = filter.list_stopped || !str_equal(stat.state.as_str(), "exited");
    let image = match &filter.filter_image {
        Some(image) => str_equal(image.as_str(), stat.image.as_str()),
        None => true,
    };
    running && image && check_period(stat, &filter.older_than, &filter.newer_than)
}

/// The row of a container on an endpoint.
pub open spec fn container_row(endpoint_name: Seq<char>, stat: ContainerStat) -> Seq<Seq<char>> {
    seq![endpoint_name, stat.id@, stat.image@, stat.created_text@, stat.status@]
}

/// The rows of the listed containers of one endpoint, in order.
pub open spec fn endpoint_rows(endpoint: EndpointContainers, filter: ContainerFilter) -> Seq<
    Seq<Seq<char>>,
> {
    endpoint.containers@.filter(|stat: ContainerStat| is_listed(stat, filter)).map_values(
        |stat: ContainerStat| container_row(endpoint.endpoint_name@, stat),
    )
}

/// The rows of the listed containers of all endpoints, endpoint by
/// endpoint.
pub open spec fn containers_rows(data: Seq<EndpointContainers>, filter: ContainerFilter) -> Seq<
    Seq<Seq<char>>,
>
    decreases data.len(),
{
    if data.len() == 0 {
        Seq::empty()
    } else {
        containers_rows(data.drop_last(), filter) + endpoint_rows(data.last(), filter)
    }
}

/// The column titles of `endpoint containers list`.
pub open spec fn containers_titles() -> Seq<Seq<char>> {
    seq!["Endpoint"@, "Container id"@, "Image"@, "Created"@, "Status"@]
}

/// The dates of the command line, read: the older-than date first.
pub fn get_date_filters(older_than: &Option<String>, newer_than: &Option<String>) -> (r: Result<
    (Option<Timestamp>, Option<Timestamp>),
    DateError,
>)
    ensures
        r == match spec_date_filter(crate::commands::db::submits::option_text(*older_than)) {
            Err(e) => Err::<(Option<Timestamp>, Option<Timestamp>), DateError>(e),
            Ok(older) => match spec_date_filter(
                crate::commands::db::submits::option_text(*newer_than),
            ) {
                Err(e) => Err(e),
                Ok(newer) => Ok((older, newer)),
            },
        },
{
    let older = match get_date_filter(older_than) {
        Ok(t) => t,
        Err(e) => {
            return Err(e);
        },
    };
    let newer = match get_date_filter(newer_than) {
        Ok(t) => t,
        Err(e) => {
            return Err(e);
        },
    };
    Ok((older, newer))
}

/// Shapes what `endpoint containers list` prints: a row for each container
/// that the filter lets through, endpoint by endpoint.
pub fn containers_list(data: &Vec<EndpointContainers>, filter: &ContainerFilter, csv: bool) -> (table:
    Table)
    ensures
        spec_table(containers_titles(), containers_rows(data@, *filter), csv, table),
{
    let names = vec!["Endpoint", "Container id", "Image", "Created", "Status"];
    let header = mk_header(names);
    proof {
        assert(titles(names@) =~= containers_titles());
    }
    let mut rows: Vec<Vec<String>> = Vec::new();
    let mut e: usize = 0;
    proof {
        assert(data@.take(0) =~= Seq::<EndpointContainers>::empty());
        assert(rows_texts(rows@) =~= containers_rows(data@.take(0), *filter));
    }
    while e < data.len()
        invariant
            e <= data.len(),
            rows_texts(rows@) == containers_rows(data@.take(e as int), *filter),
        decreases data.len() - e,
    {
        let endpoint = &data[e];
        let ghost listed = |stat: ContainerStat| is_listed(stat, *filter);
        let ghost row = |stat: ContainerStat| container_row(endpoint.endpoint_name@, stat);
        let ghost before = rows_texts(rows@);
        let mut i: usize = 0;
        proof {
            assert(endpoint.containers@.take(0) =~= Seq::<ContainerStat>::empty());
            assert(before + endpoint.containers@.take(0).filter(listed).map_values(row) =~= before);
        }
        while i < endpoint.containers.len()
            invariant
                i <= endpoint.containers.len(),
                listed == |stat: ContainerStat| is_listed(stat, *filter),
                row == |stat: ContainerStat| container_row(endpoint.endpoint_name@, stat),
                rows_texts(rows@) == before + endpoint.containers@.take(i as int).filter(
                    listed,
                ).map_values(row),
            decreases endpoint.containers.len() - i,
        {
            let stat = &endpoint.containers[i];
            let ghost so_far = rows_texts(rows@);
            proof {
                let prefix = endpoint.containers@.take(i as int);
                assert(endpoint.containers@.take(i as int + 1) =~= prefix.push(*stat));
                prefix.lemma_filter_push(*stat, listed);
            }
            if check_listed(stat, filter) {
                let cells = vec![
                    endpoint.endpoint_name.clone(),
                    stat.id.clone(),
                    stat.image.clone(),
                    stat.created_text.clone(),
                    stat.status.clone(),
                ];
                proof {
                    assert(texts(cells@) =~= container_row(endpoint.endpoint_name@, *stat));
                }
                rows.push(cells);
                proof {
                    assert(rows_texts(rows@) =~= so_far.push(row(*stat)));
                    assert(endpoint.containers@.take(i as int).filter(listed).push(*stat).map_values(
                        row,
                    ) =~= endpoint.containers@.take(i as int).filter(listed).map_values(row).push(
                        row(*stat),
                    ));
                    assert(rows_texts(rows@) =~= before + endpoint.containers@.take(
                        i as int + 1,
                    ).filter(listed).map_values(row));
                }
            }
            i = i + 1;
        }
        proof {
            assert(endpoint.containers@.take(i as int) =~= endpoint.containers@);
            assert(data@.take(e as int + 1).drop_last() =~= data@.take(e as int));
        }
        e = e + 1;
    }
    proof {
        assert(data@.take(e as int) =~= data@);
    }
    display_data(header, rows, csv)
}

/// A container to delete: the endpoint it is on and its identifier.
#[derive(Debug, Clone)]
pub struct PruneTarget {
    pub endpoint_name: String,
    pub container_id: String,
}

impl View for PruneTarget {
    type V = (Seq<char>, Seq<char>);

    open spec fn view(&self) -> (Seq<char>, Seq<char>) {
        (self.endpoint_name@, self.container_id@)
    }
}

/// What `endpoint containers prune` is about to do: the question to ask,
/// and the containers to delete if the answer is yes.
#[derive(Debug, Clone)]
pub struct PrunePlan {
    pub prompt: String,
    pub targets: Vec<PruneTarget>,
}

/// The containers of one endpoint that are pruned, in order.
pub open spec fn endpoint_targets(
    endpoint: EndpointContainers,
    older_than: Option<Timestamp>,
    newer_than: Option<Timestamp>,
) -> Seq<(Seq<char>, Seq<char>)> {
    endpoint.containers@.filter(
        |stat: ContainerStat| is_pruned(stat, older_than, newer_than),
    ).map_values(|stat: ContainerStat| (endpoint.endpoint_name@, stat.id@))
}

/// The containers of all endpoints that are pruned, endpoint by endpoint.
pub open spec fn prune_targets(
    data: Seq<EndpointContainers>,
    older_than: Option<Timestamp>,
    newer_than: Option<Timestamp>,
) -> Seq<(Seq<char>, Seq<char>)>
    decreases data.len(),
{
    if data.len() == 0 {
        Seq::empty()
    } else {
        prune_targets(data.drop_last(), older_than, newer_than) + endpoint_targets(
            data.last(),
            older_than,
            newer_than,
        )
    }
}

/// The question that is asked before containers are deleted.
pub open spec fn prune_prompt(count: nat) -> Seq<char> {
    "Really delete "@ + decimal_text(count) + " Containers?"@
}

/// The values of some targets.
pub open spec fn target_views(targets: Seq<PruneTarget>) -> Seq<(Seq<char>, Seq<char>)> {
    targets.map_values(|t: PruneTarget| t@)
}

/// Plans `endpoint containers prune`: the exited containers that were
/// created between the dates are to be deleted, once the user has agreed.
pub fn containers_prune(
    data: &Vec<EndpointContainers>,
    older_than: &Option<Timestamp>,
    newer_than: &Option<Timestamp>,
) -> (plan: PrunePlan)
    ensures
        target_views(plan.targets@) == prune_targets(data@, *older_than, *newer_than),
        plan.prompt@ == prune_prompt(plan.targets@.len()),
{
    let mut targets: Vec<PruneTarget> = Vec::new();
    let mut e: usize = 0;
    proof {
        assert(data@.take(0) =~= Seq::<EndpointContainers>::empty());
        assert(target_views(targets@) =~= prune_targets(data@.take(0), *older_than, *newer_than));
    }
    while e < data.len()
        invariant
            e <= data.len(),
            target_views(targets@) == prune_targets(data@.take(e as int), *older_than, *newer_than),
        decreases data.len() - e,
    {
        let endpoint = &data[e];
        let ghost pruned = |stat: ContainerStat| is_pruned(stat, *older_than, *newer_than);
        let ghost target = |stat: ContainerStat| (endpoint.endpoint_name@, stat.id@);
        let ghost before = target_views(targets@);
        let mut i: usize = 0;
        proof {
            assert(endpoint.containers@.take(0) =~= Seq::<ContainerStat>::empty());
            assert(before + endpoint.containers@.take(0).filter(pruned).map_values(target)
                =~= before);
        }
        while i < endpoint.containers.len()
            invariant
                i <= endpoint.containers.len(),
                pruned == |stat: ContainerStat| is_pruned(stat, *older_than, *newer_than),
                target == |stat: ContainerStat| (endpoint.endpoint_name@, stat.id@),
                target_views(targets@) == before + endpoint.containers@.take(i as int).filter(
                    pruned,
                ).map_values(target),
            decreases endpoint.containers.len() - i,
        {
            let stat = &endpoint.containers[i];
            let ghost so_far = target_views(targets@);
            proof {
                let prefix = endpoint.containers@.take(i as int);
                assert(endpoint.containers@.take(i as int + 1) =~= prefix.push(*stat));
                prefix.lemma_filter_push(*stat, pruned);
            }
            if str_equal(stat.state.as_str(), "exited") && check_period(stat, older_than, newer_than) {
                targets.push(
                    PruneTarget {
                        endpoint_name: endpoint.endpoint_name.clone(),
                        container_id: stat.id.clone(),
                    },
                );
                proof {
                    assert(target_views(targets@) =~= so_far.push(target(*stat)));
                    assert(endpoint.containers@.take(i as int).filter(pruned).push(*stat).map_values(
                        target,
                    ) =~= endpoint.containers@.take(i as int).filter(pruned).map_values(
                        target,
                    ).push(target(*stat)));
                    assert(target_views(targets@) =~= before + endpoint.containers@.take(
                        i as int + 1,
                    ).filter(pruned).map_values(target));
                }
            }
            i = i + 1;
        }
        proof {
            assert(endpoint.containers@.take(i as int) =~= endpoint.containers@);
            assert(data@.take(e as int + 1).drop_last() =~= data@.take(e as int));
        }
        e = e + 1;
    }
    proof {
        assert(data@.take(e as int) =~= data@);
    }
    let prompt = String::from_str("Really delete ").concat(
        decimal_string(targets.len() as u64).as_str(),
    ).concat(" Containers?");
    PrunePlan { prompt, targets }
}

} // verus!
