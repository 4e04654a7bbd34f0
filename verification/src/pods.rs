//! The pod of an OPA server.
use crate::config_maps::CONFIG_MAP_TYPE_CONFIG;
use crate::error::{Error, ErrorView};
use crate::objects::{
    ConfigMap, ConfigMapVolume, ConfigMapVolumeView, Container, ContainerPort, ContainerPortView,
    ContainerView, EnvVar, EnvVarView, NewConfigMapView, Pod, PodView, ResourceName, ResourceNameView,
};
use crate::port::parse_port;
use crate::product::build_opa_start_command;
use crate::property::{KindView, Properties, PropertyNameKind, RoleGroupConfig};
use crate::state::OpaState;
use crate::string_map::StringMap;
use std::num::ParseIntError;
use vstd::prelude::*;
use vstd::string::StringExecFns;

verus! {

/// The annotation by which a pod asks for its metrics to be collected.
pub const SHOULD_BE_SCRAPED: &'static str = "monitoring.stackable.tech/should_be_scraped";

/// The directory under which a server finds its config map.
pub const CONFIG_DIRECTORY: &'static str = "conf";

/// The environment that `properties` configures: one variable for each property that has a name.
pub open spec fn environment(properties: Properties) -> Seq<EnvVarView> {
    properties.filter(|property: (Seq<char>, Seq<char>)| property.0.len() > 0).map_values(
        |property: (Seq<char>, Seq<char>)|
            EnvVarView { name: property.0, value: Some(property.1) },
    )
}

/// The environment of a server.
pub open spec fn pod_environment(config: Map<KindView, Properties>) -> Seq<EnvVarView> {
    if config.contains_key(KindView::Env) {
        environment(config[KindView::Env])
    } else {
        seq![]
    }
}

/// The port that is configured for a server on its command line.
pub open spec fn configured_port<P, N, C>(
    state: OpaState<P, N, C>,
    config: Map<KindView, Properties>,
) -> Option<Seq<char>> {
    let settings = crate::string_map::as_map(config[KindView::Cli]);
    if config.contains_key(KindView::Cli) && settings.contains_key(state.vocabulary.port@) {
        Some(settings[state.vocabulary.port@])
    } else {
        None
    }
}

/// The start command of a server; without a command line in its configuration it has none.
pub open spec fn pod_command<P, N, C>(
    state: OpaState<P, N, C>,
    config: Map<KindView, Properties>,
) -> Seq<Seq<char>> {
    if config.contains_key(KindView::Cli) {
        crate::product::start_command(configured_port(state, config))
    } else {
        seq![]
    }
}

/// The one port of a server under both of its names.
pub open spec fn pod_ports(port: Option<Seq<char>>) -> Seq<ContainerPortView> {
    match port {
        Some(text) => {
            let container_port = crate::port::decimal(crate::port::unsigned(text));
            seq![
                ContainerPortView { container_port, name: "metrics"@ },
                ContainerPortView { container_port, name: "client"@ },
            ]
        },
        None => seq![],
    }
}

/// The annotations of a server: its metrics are collected if it has a port.
pub open spec fn pod_annotations(port: Option<Seq<char>>) -> Map<Seq<char>, Seq<char>> {
    if port is Some {
        Map::empty().insert(SHOULD_BE_SCRAPED@, "true"@)
    } else {
        Map::empty()
    }
}

/// The pod of a server that finds its configuration in the config map `config_map`.
pub open spec fn server_pod<P, N, C>(
    state: OpaState<P, N, C>,
    node_name: Seq<char>,
    config: Map<KindView, Properties>,
    config_map: Seq<char>,
    pod_name: Seq<char>,
    labels: Map<Seq<char>, Seq<char>>,
) -> PodView {
    let port = configured_port(state, config);
    PodView {
        generate_name: pod_name,
        namespace: state.context.default_namespace@,
        labels,
        annotations: pod_annotations(port),
        block_owner_deletion: Some(true),
        controller: Some(true),
        container: ContainerView {
            name: state.vocabulary.app_name@,
            image: state.vocabulary.app_name@ + ":"@ + state.context.version@,
            command: pod_command(state, config),
            env: pod_environment(config),
            config_map_volumes: seq![
                ConfigMapVolumeView { config_map_name: config_map, mount_path: CONFIG_DIRECTORY@ },
            ],
            ports: pod_ports(port),
        },
        node_name,
    }
}

/// The pod of a server, or the first of these that stands against it: it could not be named, its
/// config map is missing or has no name, its port is no port number.
pub open spec fn planned_pod<P, N, C, E>(
    state: OpaState<P, N, C>,
    node_name: Seq<char>,
    config_maps: Map<Seq<char>, Option<Seq<char>>>,
    config: Map<KindView, Properties>,
    pod_name: Result<Seq<char>, E>,
    labels: Map<Seq<char>, Seq<char>>,
) -> Result<PodView, ErrorView<E>> {
    match pod_name {
        Err(source) => Err(ErrorView::OperatorError { source }),
        Ok(pod_name) => if !config_maps.contains_key(CONFIG_MAP_TYPE_CONFIG@) {
            Err(
                ErrorView::MissingConfigMapError { cm_type: CONFIG_MAP_TYPE_CONFIG@, pod_name },
            )
        } else {
            match config_maps[CONFIG_MAP_TYPE_CONFIG@] {
                None => Err(
                    ErrorView::MissingConfigMapNameError { cm_type: CONFIG_MAP_TYPE_CONFIG@ },
                ),
                Some(config_map) => match configured_port(state, config) {
                    Some(text) if !crate::port::is_port(text) => Err(
                        ErrorView::InvalidPort { reason: crate::port::parsed_port(text)->Err_0 },
                    ),
                    _ => Ok(server_pod(state, node_name, config, config_map, pod_name, labels)),
                },
            }
        },
    }
}

/// The parts of the name of a pod on the node `node_name`.
pub open spec fn pod_name_parts<P, N, C>(
    state: OpaState<P, N, C>,
    role: Seq<char>,
    group: Seq<char>,
    node_name: Seq<char>,
) -> ResourceNameView {
    ResourceNameView {
        application: state.vocabulary.app_name@,
        instance: state.context.name@,
        role,
        group: Some(group),
        node: Some(node_name),
        suffix: None,
    }
}

/// Makes an environment variable of each property that has a name.
fn build_environment(properties: &StringMap<String>) -> (res: Vec<EnvVar>)
    ensures
        res.deep_view() == environment(properties.deep_view()),
{
    let entries = properties.entries();
    let ghost all = properties.deep_view();
    let mut env_vars: Vec<EnvVar> = Vec::new();
    assert(environment(all.take(0)) =~= Seq::empty()) by {
        reveal(Seq::filter);
    }
    for i in 0..entries.len()
        invariant
            all == properties.deep_view(),
            properties@ == entries@.map_values(|entry: (String, String)| (entry.0@, entry.1)),
            env_vars.deep_view() == environment(all.take(i as int)),
    {
        let (property_name, property_value) = &entries[i];
        proof {
            reveal(Seq::filter);
            assert(all.take(i + 1).drop_last() =~= all.take(i as int));
            assert(all.take(i + 1).last() == (property_name@, property_value@));
        }
        let ghost before = env_vars.deep_view();
        if !property_name.as_str().is_empty() {
            env_vars.push(
                EnvVar { name: property_name.clone(), value: Some(property_value.clone()) },
            );
            assert(env_vars.deep_view() =~= before.push(
                EnvVarView { name: property_name@, value: Some(property_value@) },
            ));
        }
        assert(env_vars.deep_view() =~= environment(all.take(i + 1)));
    }
    assert(all.take(entries@.len() as int) =~= all);
    env_vars
}

impl<P, N, C> OpaState<P, N, C> {
    /// The parts of the name of a pod on the node `node_name`.
    pub fn pod_name(&self, role: &str, group: &str, node_name: &str) -> (res: ResourceName)
        ensures
            res.deep_view() == pod_name_parts(*self, role@, group@, node_name@),
            res.application@ == self.vocabulary.app_name@,
            res.instance@ == self.context.name@,
            res.role@ == role@,
            res.group matches Some(part) && part@ == group@,
            res.node matches Some(part) && part@ == node_name@,
            res.suffix is None,
    {
        ResourceName {
            application: self.vocabulary.app_name.clone(),
            instance: self.context.name.clone(),
            role: role.to_string(),
            group: Some(group.to_string()),
            node: Some(node_name.to_string()),
            suffix: None,
        }
    }

    /// Plans the pod of a server.
    ///
    /// # Arguments
    ///
    /// - `node_name` - The node that the pod is for.
    /// - `config_maps` - The config maps of the role group by their types.
    /// - `validated_config` - The validated properties of the role group.
    /// - `pod_name` - The name that [`OpaState::pod_name`] asks for.
    /// - `pod_labels` - The labels that [`OpaState::recommended_labels`] asks for.
    pub fn create_pod<E>(
        &self,
        node_name: &str,
        config_maps: &StringMap<ConfigMap>,
        validated_config: &RoleGroupConfig,
        pod_name: Result<String, E>,
        pod_labels: StringMap<String>,
    ) -> (res: Result<Pod, Error<E>>)
        ensures
            crate::config_maps::view_result(res) == planned_pod(
                *self,
                node_name@,
                crate::string_map::as_map(config_maps.deep_view()),
                validated_config@,
                crate::config_maps::text_result(pod_name),
                crate::string_map::texts(pod_labels),
            ),
            res matches Err(Error::InvalidPort { reason }) ==> (configured_port(
                *self,
                validated_config@,
            ) matches Some(text) && crate::port::parsed_port(text) == Err::<u16, ParseIntError>(
                reason,
            )),
            res matches Ok(pod) ==> {
                &&& pod_name matches Ok(name) && pod.generate_name@ == name@
                &&& pod.namespace@ == self.context.default_namespace@
                &&& pod.labels == pod_labels
                &&& pod.block_owner_deletion == Some(true)
                &&& pod.controller == Some(true)
                &&& pod.container.name@ == self.vocabulary.app_name@
                &&& pod.container.image@ == self.vocabulary.app_name@ + ":"@
                    + self.context.version@
                &&& pod.node_name@ == node_name@
            },
    {
        let mut env_vars: Vec<EnvVar> = Vec::new();
        let mut start_command: Vec<String> = Vec::new();
        let mut port: Option<&String> = None;

        let kinds = validated_config.entries();
        let ghost config = validated_config@;
        let ghost mut env_at: Option<int> = None;
        let ghost mut cli_at: Option<int> = None;
        for i in 0..kinds.len()
            invariant
                crate::property::distinct_kinds(kinds@),
                config == crate::property::by_kind(kinds@),
                match env_at {
                    Some(at) => 0 <= at < i && kinds@[at].0@ == KindView::Env
                        && env_vars.deep_view() == environment(config[KindView::Env]),
                    None => env_vars@.len() == 0 && forall|j: int|
                        0 <= j < i ==> (#[trigger] kinds@[j]).0@ != KindView::Env,
                },
                match cli_at {
                    Some(at) => 0 <= at < i && kinds@[at].0@ == KindView::Cli && port.deep_view()
                        == configured_port(*self, config) && start_command.deep_view()
                        == crate::product::start_command(configured_port(*self, config)),
                    None => port is None && start_command@.len() == 0 && forall|j: int|
                        0 <= j < i ==> (#[trigger] kinds@[j]).0@ != KindView::Cli,
                },
        {
            let (property_name_kind, properties) = &kinds[i];
            proof {
                crate::property::lemma_kind(kinds@, i as int);
            }
            match property_name_kind {
                PropertyNameKind::Env => {
                    let mut more = build_environment(properties);
                    env_vars.append(&mut more);
                    proof {
                        env_at = Some(i as int);
                        assert(env_vars.deep_view() =~= environment(config[KindView::Env]));
                    }
                },
                PropertyNameKind::Cli => {
                    port = properties.get(self.vocabulary.port.as_str());
                    start_command = build_opa_start_command(port);
                    proof {
                        use_type_invariant(properties);
                        crate::string_map::lemma_deep(*properties);
                        cli_at = Some(i as int);
                    }
                },
                PropertyNameKind::File(_) => {},
            }
        }
        proof {
            if let Some(at) = env_at {
                crate::property::lemma_kind(kinds@, at);
            } else {
                assert(!crate::property::has_kind(kinds@, KindView::Env));
                assert(env_vars.deep_view() =~= seq![]);
            }
            if let Some(at) = cli_at {
                crate::property::lemma_kind(kinds@, at);
            } else {
                assert(!crate::property::has_kind(kinds@, KindView::Cli));
                assert(start_command.deep_view() =~= seq![]);
            }
            assert(env_vars.deep_view() == pod_environment(config));
            assert(port.deep_view() == configured_port(*self, config));
            assert(start_command.deep_view() == pod_command(*self, config));
        }

        let pod_name = match pod_name {
            Ok(pod_name) => pod_name,
            Err(source) => {
                return Err(Error::OperatorError { source });
            },
        };

        let mut image = self.vocabulary.app_name.clone();
        image.append(":");
        image.append(self.context.version.as_str());

        // Add one mount for the config directory
        proof {
            use_type_invariant(config_maps);
            crate::string_map::lemma_deep(*config_maps);
        }
        let mut config_map_volumes: Vec<ConfigMapVolume> = Vec::new();
        if let Some(config_map_data) = config_maps.get(CONFIG_MAP_TYPE_CONFIG) {
            if let Some(name) = &config_map_data.name {
                config_map_volumes.push(
                    ConfigMapVolume {
                        config_map_name: name.clone(),
                        mount_path: CONFIG_DIRECTORY.to_string(),
                    },
                );
                assert(config_map_volumes.deep_view() =~= seq![
                    ConfigMapVolumeView {
                        config_map_name: name@,
                        mount_path: CONFIG_DIRECTORY@,
                    },
                ]);
            } else {
                return Err(Error::MissingConfigMapNameError { cm_type: CONFIG_MAP_TYPE_CONFIG });
            }
        } else {
            return Err(
                Error::MissingConfigMapError { cm_type: CONFIG_MAP_TYPE_CONFIG, pod_name },
            );
        }

        let mut annotations: StringMap<String> = StringMap::new();
        let mut ports: Vec<ContainerPort> = Vec::new();
        // only add metrics container port and annotation if available
        if let Some(metrics_port) = port {
            annotations.insert(SHOULD_BE_SCRAPED.to_string(), "true".to_string());
            let container_port = match parse_port(metrics_port.as_str()) {
                Ok(container_port) => container_port,
                Err(reason) => {
                    return Err(Error::InvalidPort { reason });
                },
            };
            // with OPA, there is only one port available
            // we expose that port twice: once for metrics and once for the clients
            ports.push(ContainerPort { container_port, name: "metrics".to_string() });
            ports.push(ContainerPort { container_port, name: "client".to_string() });
        }
        proof {
            crate::string_map::lemma_deep(annotations);
            assert(crate::string_map::texts(annotations) =~= pod_annotations(port.deep_view()));
            assert(ports.deep_view() =~= pod_ports(port.deep_view()));
        }

        Ok(
            Pod {
                generate_name: pod_name,
                namespace: self.context.default_namespace.clone(),
                labels: pod_labels,
                annotations,
                block_owner_deletion: Some(true),
                controller: Some(true),
                container: Container {
                    name: self.vocabulary.app_name.clone(),
                    image,
                    command: start_command,
                    env: env_vars,
                    config_map_volumes,
                    ports,
                },
                node_name: node_name.to_string(),
            },
        )
    }
}

/// A server exposes its port exactly if one is configured, then twice, for its metrics and for
/// its clients, and exactly then its metrics are collected.
pub proof fn port_is_exposed_twice<P, N, C, E>(
    state: OpaState<P, N, C>,
    node_name: Seq<char>,
    config_maps: Map<Seq<char>, Option<Seq<char>>>,
    config: Map<KindView, Properties>,
    pod_name: Result<Seq<char>, E>,
    labels: Map<Seq<char>, Seq<char>>,
)
    ensures
        planned_pod(state, node_name, config_maps, config, pod_name, labels) matches Ok(pod) ==> {
            let ports = pod.container.ports;
            let port = configured_port(state, config);
            &&& ports.len() == if port is Some {
                2nat
            } else {
                0nat
            }
            &&& pod.annotations.contains_key(SHOULD_BE_SCRAPED@) == (port is Some)
            &&& port matches Some(text) ==> {
                &&& ports[0].name == "metrics"@
                &&& ports[1].name == "client"@
                &&& ports[0].container_port == ports[1].container_port
                &&& ports[0].container_port == crate::port::decimal(crate::port::unsigned(text))
            }
        },
{
}

/// A pod is never illegal under the labels that the operator itself requires, if its labels name
/// a role that is known, the name under which the resource is reconciled, and its version.
pub proof fn planned_pod_is_legal<P, N, C, E>(
    state: OpaState<P, N, C>,
    role: Seq<char>,
    node_name: Seq<char>,
    config_maps: Map<Seq<char>, Option<Seq<char>>>,
    config: Map<KindView, Properties>,
    pod_name: Result<Seq<char>, E>,
    labels: Map<Seq<char>, Seq<char>>,
)
    requires
        state.vocabulary.roles@.names.contains(role),
        crate::state::names_its_place(state, labels, role, state.context.name@),
    ensures
        planned_pod(state, node_name, config_maps, config, pod_name, labels) matches Ok(pod)
            ==> crate::state::is_legal(pod.labels, crate::state::required_labels(state)),
{
    let required = crate::state::required_labels(state);
    assert forall|label: Seq<char>| #[trigger] required.contains_key(label) implies
        labels.contains_key(label) && (required[label] matches Some(values) ==> values.contains(
        labels[label],
    )) by {
        assert(seq![state.context.name@][0] == state.context.name@);
        assert(seq![state.context.version@][0] == state.context.version@);
    }
}

/// No variable of the environment of a server is without a name, and every property that has a
/// name and is meant for the environment is in it.
pub proof fn environment_is_named(config: Map<KindView, Properties>)
    ensures
        forall|i: int|
            0 <= i < pod_environment(config).len() ==> (
            #[trigger] pod_environment(config)[i]).name.len() > 0,
        config.contains_key(KindView::Env) ==> forall|i: int|
            0 <= i < config[KindView::Env].len() && (
            #[trigger] config[KindView::Env][i]).0.len() > 0 ==> pod_environment(config).contains(
                EnvVarView {
                    name: config[KindView::Env][i].0,
                    value: Some(config[KindView::Env][i].1),
                },
            ),
{
    if config.contains_key(KindView::Env) {
        let properties = config[KindView::Env];
        let named = |property: (Seq<char>, Seq<char>)| property.0.len() > 0;
        let kept = properties.filter(named);
        broadcast use vstd::seq_lib::group_filter_ensures;

        assert forall|i: int|
            0 <= i < properties.len() && (#[trigger] properties[i]).0.len()
                > 0 implies pod_environment(config).contains(
            EnvVarView { name: properties[i].0, value: Some(properties[i].1) },
        ) by {
            assert(kept.contains(properties[i]));
            let j = choose|j: int| 0 <= j < kept.len() && kept[j] == properties[i];
            assert(pod_environment(config)[j] == EnvVarView {
                name: properties[i].0,
                value: Some(properties[i].1),
            });
        }
    }
}

/// Where nothing is configured for the configuration file, no config map is planned, and the pod
/// is refused because its config map is missing.
pub proof fn pod_needs_config_file<P, N, C, E>(
    state: OpaState<P, N, C>,
    node_name: Seq<char>,
    config: Map<KindView, Properties>,
    config_map_name: Result<Seq<char>, E>,
    config_map_labels: Map<Seq<char>, Seq<char>>,
    pod_name: Seq<char>,
    pod_labels: Map<Seq<char>, Seq<char>>,
)
    requires
        !config.contains_key(KindView::File(state.vocabulary.config_file@)),
    ensures
        crate::config_maps::planned_config_map(state, config, config_map_labels, config_map_name)
            == Ok::<Option<NewConfigMapView>, ErrorView<E>>(None),
        crate::config_maps::collected_config_maps::<E>(None) matches Ok(config_maps) && planned_pod(
            state,
            node_name,
            config_maps,
            config,
            Ok::<_, E>(pod_name),
            pod_labels,
        ) == Err::<PodView, ErrorView<E>>(
            ErrorView::MissingConfigMapError { cm_type: CONFIG_MAP_TYPE_CONFIG@, pod_name },
        ),
{
}

/// A pod that is planned with the config map `config_map` that was created for its role group
/// finds exactly that one, and its start command reads the configuration file from where it finds
/// it.
pub proof fn pod_reads_its_config_map<P, N, C, E>(
    state: OpaState<P, N, C>,
    node_name: Seq<char>,
    config: Map<KindView, Properties>,
    config_map: Seq<char>,
    pod_name: Seq<char>,
    labels: Map<Seq<char>, Seq<char>>,
)
    requires
        state.vocabulary.config_file@ == "config.yaml"@,
    ensures
        crate::config_maps::collected_config_maps::<E>(Some(Ok(Some(config_map)))) matches Ok(
            config_maps,
        ) && (planned_pod(
            state,
            node_name,
            config_maps,
            config,
            Ok::<_, E>(pod_name),
            labels,
        ) matches Ok(pod) ==> {
            &&& pod.container.config_map_volumes == seq![
                ConfigMapVolumeView { config_map_name: config_map, mount_path: CONFIG_DIRECTORY@ },
            ]
            &&& config.contains_key(KindView::Cli) ==> pod.container.command.last()
                == "-c {{configroot}}/"@ + pod.container.config_map_volumes[0].mount_path + "/"@
                + state.vocabulary.config_file@
        }),
{
    reveal_strlit("-c {{configroot}}/conf/config.yaml");
    reveal_strlit("-c {{configroot}}/");
    reveal_strlit("conf");
    reveal_strlit("/");
    reveal_strlit("config.yaml");
    assert("-c {{configroot}}/conf/config.yaml"@ =~= "-c {{configroot}}/"@ + CONFIG_DIRECTORY@ + "/"@
        + "config.yaml"@);
}

/// A pod has the name, the labels and the node that it is planned with, runs the version of the
/// product that the resource asks for in the namespace of the operator, belongs to the resource,
/// and finds the config map that there is for it, and no other, under `conf`.
pub proof fn pod_is_what_it_is_planned_with<P, N, C, E>(
    state: OpaState<P, N, C>,
    node_name: Seq<char>,
    config_maps: Map<Seq<char>, Option<Seq<char>>>,
    config: Map<KindView, Properties>,
    pod_name: Result<Seq<char>, E>,
    labels: Map<Seq<char>, Seq<char>>,
)
    ensures
        planned_pod(state, node_name, config_maps, config, pod_name, labels) matches Ok(pod) ==> {
            &&& pod_name == Ok::<Seq<char>, E>(pod.generate_name)
            &&& pod.namespace == state.context.default_namespace@
            &&& pod.labels == labels
            &&& pod.block_owner_deletion == Some(true)
            &&& pod.controller == Some(true)
            &&& pod.node_name == node_name
            &&& pod.container.name == state.vocabulary.app_name@
            &&& pod.container.image == state.vocabulary.app_name@ + ":"@ + state.context.version@
            &&& pod.container.config_map_volumes.len() == 1
            &&& config_maps.get("config"@) == Some(
                Some(pod.container.config_map_volumes[0].config_map_name),
            )
            &&& pod.container.config_map_volumes[0].mount_path == "conf"@
        },
{
}

/// A server listens exactly on the port that its pod exposes: where the command line is configured
/// with a port, the start command names that port and no other, and the pod exposes it twice and
/// asks for its metrics to be collected. Where it is not, the command names no port, and the pod
/// exposes none. What else is configured does not matter.
pub proof fn server_listens_on_the_exposed_port<P, N, C, E>(
    state: OpaState<P, N, C>,
    node_name: Seq<char>,
    config_maps: Map<Seq<char>, Option<Seq<char>>>,
    config: Map<KindView, Properties>,
    pod_name: Result<Seq<char>, E>,
    labels: Map<Seq<char>, Seq<char>>,
    port: Seq<char>,
    word: Seq<char>,
)
    requires
        forall|i: int, j: int|
            0 <= i < j < config[KindView::Cli].len() ==> (#[trigger] config[KindView::Cli][i]).0
                != (#[trigger] config[KindView::Cli][j]).0,
    ensures
        planned_pod(state, node_name, config_maps, config, pod_name, labels) matches Ok(pod) ==> {
            let settings = config[KindView::Cli];
            let command = pod.container.command;
            let ports = pod.container.ports;
            &&& config.contains_key(KindView::Cli) && settings.contains(
                (state.vocabulary.port@, port),
            ) ==> {
                &&& command.contains("-a 0.0.0.0:"@ + port)
                &&& command.contains(word) && "-a "@.is_prefix_of(word) ==> word
                    == "-a 0.0.0.0:"@ + port
                &&& command.len() == 4
                &&& ports.len() == 2
                &&& ports[0].name == "metrics"@
                &&& ports[1].name == "client"@
                &&& ports[0].container_port == ports[1].container_port
                &&& ports[0].container_port == crate::port::decimal(crate::port::unsigned(port))
                &&& pod.annotations == Map::<Seq<char>, Seq<char>>::empty().insert(
                    "monitoring.stackable.tech/should_be_scraped"@,
                    "true"@,
                )
            }
            &&& !config.contains_key(KindView::Cli) || (forall|i: int|
                0 <= i < settings.len() ==> (#[trigger] settings[i]).0 != state.vocabulary.port@)
                ==> {
                &&& command.contains(word) ==> !"-a "@.is_prefix_of(word)
                &&& ports.len() == 0
                &&& pod.annotations == Map::<Seq<char>, Seq<char>>::empty()
            }
            &&& config.contains_key(KindView::Cli) ==> {
                &&& command.len() == if ports.len() == 2 {
                    4nat
                } else {
                    3nat
                }
                &&& command[0] == "./opa run"@
                &&& command[1] == "-s"@
                &&& command.last() == "-c {{configroot}}/conf/config.yaml"@
            }
            &&& !config.contains_key(KindView::Cli) ==> command.len() == 0
        },
{
    let settings = config[KindView::Cli];
    crate::string_map::entries_fix_map(settings, state.vocabulary.port@, port);
    crate::product::command_names_its_port(port, word);
    if let Some(text) = configured_port(state, config) {
        crate::string_map::entries_fix_map(settings, state.vocabulary.port@, text);
        crate::product::command_names_its_port(text, word);
    }
}

/// A pod is planned exactly if it could be named, its config map is there and has a name, and its
/// port, where one is configured, is a port number. Else the first of these that fails is told.
pub proof fn pod_is_refused_for_the_first_obstacle<P, N, C, E>(
    state: OpaState<P, N, C>,
    node_name: Seq<char>,
    config_maps: Map<Seq<char>, Option<Seq<char>>>,
    config: Map<KindView, Properties>,
    pod_name: Result<Seq<char>, E>,
    labels: Map<Seq<char>, Seq<char>>,
    port: Seq<char>,
)
    requires
        forall|i: int, j: int|
            0 <= i < j < config[KindView::Cli].len() ==> (#[trigger] config[KindView::Cli][i]).0
                != (#[trigger] config[KindView::Cli][j]).0,
    ensures
        ({
            let planned = planned_pod(state, node_name, config_maps, config, pod_name, labels);
            let is_there = config_maps.contains_key("config"@);
            let has_name = is_there && config_maps["config"@] is Some;
            let has_port = config.contains_key(KindView::Cli) && config[KindView::Cli].contains(
                (state.vocabulary.port@, port),
            );
            let has_no_port = !config.contains_key(KindView::Cli) || (forall|i: int|
                0 <= i < config[KindView::Cli].len() ==> (
                #[trigger] config[KindView::Cli][i]).0 != state.vocabulary.port@);
            &&& pod_name matches Err(source) ==> planned == Err::<PodView, ErrorView<E>>(
                ErrorView::OperatorError { source },
            )
            &&& pod_name is Ok && !is_there ==> planned == Err::<
                PodView,
                ErrorView<E>,
            >(ErrorView::MissingConfigMapError { cm_type: "config"@, pod_name: pod_name->Ok_0 })
            &&& pod_name is Ok && is_there && !has_name ==> planned == Err::<
                PodView,
                ErrorView<E>,
            >(ErrorView::MissingConfigMapNameError { cm_type: "config"@ })
            &&& pod_name is Ok && has_name && has_port ==> (planned is Ok
                <==> crate::port::is_port(port))
            &&& pod_name is Ok && has_name && has_port && !crate::port::is_port(port) ==> planned
                == Err::<PodView, ErrorView<E>>(
                ErrorView::InvalidPort { reason: crate::port::parsed_port(port)->Err_0 },
            )
            &&& pod_name is Ok && has_name && has_no_port ==> planned is Ok
        }),
{
    let settings = config[KindView::Cli];
    crate::string_map::entries_fix_map(settings, state.vocabulary.port@, port);
    if let Some(text) = configured_port(state, config) {
        crate::string_map::entries_fix_map(settings, state.vocabulary.port@, text);
    }
}

/// The environment of a pod holds the properties that are configured for it and have a name, each
/// with its value, and nothing else. It keeps their order, so that each stands in it once.
pub proof fn environment_is_what_is_configured<P, N, C, E>(
    state: OpaState<P, N, C>,
    node_name: Seq<char>,
    config_maps: Map<Seq<char>, Option<Seq<char>>>,
    config: Map<KindView, Properties>,
    pod_name: Result<Seq<char>, E>,
    labels: Map<Seq<char>, Seq<char>>,
    name: Seq<char>,
    value: Seq<char>,
)
    requires
        forall|i: int, j: int|
            0 <= i < j < config[KindView::Env].len() ==> crate::order::precedes(
                (#[trigger] config[KindView::Env][i]).0,
                (#[trigger] config[KindView::Env][j]).0,
            ),
    ensures
        planned_pod(state, node_name, config_maps, config, pod_name, labels) matches Ok(pod) ==> {
            let env = pod.container.env;
            let properties = config[KindView::Env];
            &&& !config.contains_key(KindView::Env) ==> env.len() == 0
            &&& config.contains_key(KindView::Env) ==> (env.contains(
                EnvVarView { name, value: Some(value) },
            ) <==> name.len() > 0 && properties.contains((name, value)))
            &&& forall|i: int| 0 <= i < env.len() ==> (#[trigger] env[i]).value is Some
            &&& forall|i: int, j: int|
                0 <= i < j < env.len() ==> crate::order::precedes(
                    (#[trigger] env[i]).name,
                    (#[trigger] env[j]).name,
                )
        },
{
    if config.contains_key(KindView::Env) {
        lemma_environment(config[KindView::Env], name, value);
    }
}

proof fn lemma_environment(properties: Properties, name: Seq<char>, value: Seq<char>)
    requires
        forall|i: int, j: int|
            0 <= i < j < properties.len() ==> crate::order::precedes(
                (#[trigger] properties[i]).0,
                (#[trigger] properties[j]).0,
            ),
    ensures
        ({
            let env = environment(properties);
            &&& env.contains(EnvVarView { name, value: Some(value) }) <==> name.len() > 0
                && properties.contains((name, value))
            &&& forall|i: int|
                0 <= i < env.len() ==> (#[trigger] env[i]).value is Some && exists|j: int|
                    0 <= j < properties.len() && (#[trigger] properties[j]).0 == env[i].name
            &&& forall|i: int, j: int|
                0 <= i < j < env.len() ==> crate::order::precedes(
                    (#[trigger] env[i]).name,
                    (#[trigger] env[j]).name,
                )
        }),
    decreases properties.len(),
{
    reveal(Seq::filter);
    if properties.len() > 0 {
        let earlier = properties.drop_last();
        let last = properties.last();
        let wanted = EnvVarView { name, value: Some(value) };
        let before = environment(earlier);
        let env = environment(properties);
        lemma_environment(earlier, name, value);
        if last.0.len() > 0 {
            let more = EnvVarView { name: last.0, value: Some(last.1) };
            assert(env =~= before.push(more));
            assert(env.last() == more);
            if before.contains(wanted) {
                let i = choose|i: int| 0 <= i < before.len() && before[i] == wanted;
                assert(env[i] == wanted);
            }
            if env.contains(wanted) && more != wanted {
                let i = choose|i: int| 0 <= i < env.len() && env[i] == wanted;
                assert(before[i] == wanted);
            }
        } else {
            assert(env =~= before);
        }
        if earlier.contains((name, value)) {
            let i = choose|i: int| 0 <= i < earlier.len() && earlier[i] == (name, value);
            assert(properties[i] == (name, value));
        }
        if properties.contains((name, value)) && last != (name, value) {
            let i = choose|i: int| 0 <= i < properties.len() && properties[i] == (name, value);
            assert(earlier[i] == (name, value));
        }
        assert(properties[properties.len() - 1] == last);
        assert forall|i: int| 0 <= i < env.len() implies (#[trigger] env[i]).value is Some
            && exists|j: int|
            0 <= j < properties.len() && (#[trigger] properties[j]).0 == env[i].name by {
            if i < before.len() {
                assert(env[i] == before[i]);
                let j = choose|j: int|
                    0 <= j < earlier.len() && (#[trigger] earlier[j]).0 == before[i].name;
                assert(properties[j].0 == env[i].name);
            }
        }
        assert forall|i: int, j: int| 0 <= i < j < env.len() implies crate::order::precedes(
            (#[trigger] env[i]).name,
            (#[trigger] env[j]).name,
        ) by {
            assert(env[i] == before[i]);
            if j < before.len() {
                assert(env[j] == before[j]);
            } else {
                let k = choose|k: int|
                    0 <= k < earlier.len() && (#[trigger] earlier[k]).0 == before[i].name;
                assert(properties[k].0 == env[i].name);
                assert(env[j].name == properties[properties.len() - 1].0);
            }
        }
    } else {
        assert(environment(properties) =~= seq![]);
    }
}

/// Only what is configured for the environment and the command line matters to a pod: two
/// configurations that agree on these give the same pod.
pub proof fn other_kinds_do_not_matter<P, N, C, E>(
    state: OpaState<P, N, C>,
    node_name: Seq<char>,
    config_maps: Map<Seq<char>, Option<Seq<char>>>,
    a: Map<KindView, Properties>,
    b: Map<KindView, Properties>,
    pod_name: Result<Seq<char>, E>,
    labels: Map<Seq<char>, Seq<char>>,
)
    requires
        a.get(KindView::Env) == b.get(KindView::Env),
        a.get(KindView::Cli) == b.get(KindView::Cli),
    ensures
        planned_pod(state, node_name, config_maps, a, pod_name, labels) == planned_pod(
            state,
            node_name,
            config_maps,
            b,
            pod_name,
            labels,
        ),
{
    assert(a.contains_key(KindView::Env) == b.contains_key(KindView::Env));
    assert(a.contains_key(KindView::Cli) == b.contains_key(KindView::Cli));
}

/// Where a pod runs changes nothing else about it.
pub proof fn node_changes_nothing_else<P, N, C, E>(
    state: OpaState<P, N, C>,
    a: Seq<char>,
    b: Seq<char>,
    config_maps: Map<Seq<char>, Option<Seq<char>>>,
    config: Map<KindView, Properties>,
    pod_name: Result<Seq<char>, E>,
    labels: Map<Seq<char>, Seq<char>>,
)
    ensures
        match planned_pod(state, a, config_maps, config, pod_name, labels) {
            Ok(pod) => planned_pod(state, b, config_maps, config, pod_name, labels) == Ok::<
                PodView,
                ErrorView<E>,
            >(PodView { node_name: b, ..pod }),
            Err(error) => planned_pod(state, b, config_maps, config, pod_name, labels) == Err::<
                PodView,
                ErrorView<E>,
            >(error),
        },
{
}

} // verus!
