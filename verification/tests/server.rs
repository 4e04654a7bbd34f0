use opa_operator::action::{Delay, ReconcileFunctionAction};
use opa_operator::config_maps::{collect_config_maps, CONFIG_MAP_TYPE_CONFIG};
use opa_operator::error::Error;
use opa_operator::groups::RoleGroups;
use opa_operator::missing_pods::MissingPods;
use opa_operator::objects::{ConfigMap, EnvVar, NewConfigMap, Pod, RecommendedLabels, ResourceName};
use opa_operator::pods::SHOULD_BE_SCRAPED;
use opa_operator::product::{build_config_file, build_opa_start_command};
use opa_operator::property::{PropertyNameKind, RoleGroupConfig};
use opa_operator::roles::Roles;
use opa_operator::state::{Context, OpaState, Vocabulary};
use opa_operator::string_map::StringMap;

type State = OpaState<(), (), ()>;

fn text(s: &str) -> String {
    s.to_string()
}

fn state() -> State {
    OpaState {
        vocabulary: Vocabulary {
            app_name: text("opa"),
            config_file: text("config.yaml"),
            port: text("port"),
            repo_rule_reference: text("repoRuleReference"),
            component_label: text("component"),
            instance_label: text("instance"),
            version_label: text("version"),
            config_map_type_label: text("configmap-type"),
            roles: Roles::new(vec![text("server")], text("server")).unwrap(),
        },
        context: Context {
            name: text("simple"),
            resource_name: text("simple-resource"),
            namespace: text("rules"),
            default_namespace: text("default"),
            version: text("0.27.2"),
        },
        existing_pods: Vec::new(),
        eligible_nodes: StringMap::new(),
        validated_role_config: (),
    }
}

fn map(entries: &[(&str, &str)]) -> StringMap<String> {
    let mut map = StringMap::new();
    for (key, value) in entries {
        map.insert(text(key), text(value));
    }
    map
}

fn pairs(map: StringMap<String>) -> Vec<(String, String)> {
    map.into_entries()
}

fn config_maps(name: Option<&str>) -> StringMap<ConfigMap> {
    let mut maps = StringMap::new();
    maps.insert(text(CONFIG_MAP_TYPE_CONFIG), ConfigMap { name: name.map(text) });
    maps
}

fn cli(port: Option<&str>) -> RoleGroupConfig {
    let mut config = RoleGroupConfig::new();
    match port {
        Some(port) => config.insert(PropertyNameKind::Cli, map(&[("port", port)])),
        None => config.insert(PropertyNameKind::Cli, map(&[])),
    }
    config
}

#[test]
fn config_file_holds_the_reference() {
    assert_eq!(
        build_config_file("http://rules"),
        format!(
            "
services:
  - name: stackable
    url: {}

bundles:
  stackable:
    service: stackable
    resource: opa/bundle.tar.gz
    persist: true
    polling:
      min_delay_seconds: 10
      max_delay_seconds: 20",
            "http://rules"
        )
    );
    assert_ne!(build_config_file("a"), build_config_file("b"));
}

#[test]
fn start_command_with_and_without_port() {
    assert_eq!(
        build_opa_start_command(Some(&text("8181"))),
        ["./opa run", "-s", "-a 0.0.0.0:8181", "-c {{configroot}}/conf/config.yaml"]
    );
    assert_eq!(
        build_opa_start_command(None),
        ["./opa run", "-s", "-c {{configroot}}/conf/config.yaml"]
    );
}

#[test]
fn required_labels_name_role_instance_and_version() {
    let labels = state().required_pod_labels().into_entries();
    assert_eq!(
        labels,
        vec![
            (text("component"), Some(vec![text("server")])),
            (text("instance"), Some(vec![text("simple")])),
            (text("version"), Some(vec![text("0.27.2")])),
        ]
    );
}

#[test]
fn required_labels_can_be_met() {
    for (_, values) in state().required_pod_labels().into_entries() {
        assert!(!values.unwrap().is_empty());
    }
}

#[test]
fn required_labels_with_the_same_key_keep_the_last() {
    let mut state = state();
    state.vocabulary.instance_label = text("version");
    let labels = state.required_pod_labels();
    assert_eq!(labels.entries().len(), 2);
    assert_eq!(labels.get("version"), Some(&Some(vec![text("0.27.2")])));
}

#[test]
fn names_and_labels_are_asked_for() {
    let state = state();
    assert_eq!(
        state.recommended_labels("server", "default"),
        RecommendedLabels {
            app_name: text("opa"),
            version: text("0.27.2"),
            role: text("server"),
            group: text("default"),
        }
    );
    assert_eq!(
        state.config_map_name("server", "default"),
        ResourceName {
            application: text("opa"),
            instance: text("simple"),
            role: text("server"),
            group: Some(text("default")),
            node: None,
            suffix: Some(text("config")),
        }
    );
    assert_eq!(
        state.pod_name("server", "default", "node-1"),
        ResourceName {
            application: text("opa"),
            instance: text("simple"),
            role: text("server"),
            group: Some(text("default")),
            node: Some(text("node-1")),
            suffix: None,
        }
    );
}

#[test]
fn config_map_holds_the_config_file() {
    let state = state();
    let mut config = RoleGroupConfig::new();
    config.insert(
        PropertyNameKind::File(text("config.yaml")),
        map(&[("repoRuleReference", "http://rules"), ("other", "x")]),
    );
    let planned = state
        .create_config_maps::<()>(&config, map(&[("z", "1"), ("a", "2")]), Ok(text("cm")))
        .unwrap()
        .unwrap();
    assert_eq!(planned.name, "cm");
    assert_eq!(planned.namespace, "rules");
    assert_eq!(
        pairs(planned.labels),
        vec![
            (text("a"), text("2")),
            (text("configmap-type"), text("config")),
            (text("z"), text("1")),
        ]
    );
    assert_eq!(
        pairs(planned.data),
        vec![(text("config.yaml"), build_config_file("http://rules"))]
    );
}

#[test]
fn config_map_type_replaces_a_label_of_that_name() {
    let mut config = RoleGroupConfig::new();
    config.insert(PropertyNameKind::File(text("config.yaml")), map(&[]));
    let labels = map(&[("configmap-type", "x")]);
    let planned = state()
        .create_config_maps::<()>(&config, labels, Ok(text("cm")))
        .unwrap()
        .unwrap();
    assert_eq!(pairs(planned.labels), vec![(text("configmap-type"), text("config"))]);
    assert_eq!(pairs(planned.data), vec![]);
}

#[test]
fn config_map_without_a_name_fails() {
    let mut config = RoleGroupConfig::new();
    config.insert(PropertyNameKind::File(text("config.yaml")), map(&[]));
    let error = state().create_config_maps(&config, map(&[]), Err("too long")).err().unwrap();
    assert_eq!(error, Error::OperatorError { source: "too long" });
}

#[test]
fn no_config_map_without_configuration_for_the_file() {
    let mut config = cli(Some("8181"));
    config.insert(PropertyNameKind::File(text("other.yaml")), map(&[]));
    let planned = state().create_config_maps(&config, map(&[]), Err("too long"));
    assert!(planned.unwrap().is_none());
}

#[test]
fn config_maps_are_collected_by_type() {
    let none = collect_config_maps::<()>(None).unwrap();
    assert!(none.entries().is_empty());
    let one = collect_config_maps::<()>(Some(Ok(ConfigMap { name: Some(text("cm")) }))).unwrap();
    assert_eq!(one.get("config"), Some(&ConfigMap { name: Some(text("cm")) }));
    assert_eq!(one.entries().len(), 1);
    let failed = collect_config_maps(Some(Err("gone"))).err().unwrap();
    assert_eq!(failed, Error::OperatorError { source: "gone" });
}

#[test]
fn pod_with_port_and_environment() {
    let mut config = cli(Some("8181"));
    config.insert(
        PropertyNameKind::Env,
        map(&[("", "nameless"), ("B", "2"), ("A", "1")]),
    );
    let pod = state()
        .create_pod::<()>(
            "node-1",
            &config_maps(Some("cm")),
            &config,
            Ok(text("pod-")),
            map(&[("app", "opa")]),
        )
        .unwrap();
    assert_eq!(pod.generate_name, "pod-");
    assert_eq!(pod.namespace, "default");
    assert_eq!(pod.node_name, "node-1");
    assert_eq!(pod.block_owner_deletion, Some(true));
    assert_eq!(pod.controller, Some(true));
    assert_eq!(pairs(pod.labels), vec![(text("app"), text("opa"))]);
    assert_eq!(pairs(pod.annotations), vec![(text(SHOULD_BE_SCRAPED), text("true"))]);
    assert_eq!(pod.container.name, "opa");
    assert_eq!(pod.container.image, "opa:0.27.2");
    assert_eq!(pod.container.command, build_opa_start_command(Some(&text("8181"))));
    assert_eq!(
        pod.container.env,
        vec![
            EnvVar { name: text("A"), value: Some(text("1")) },
            EnvVar { name: text("B"), value: Some(text("2")) },
        ]
    );
    assert_eq!(pod.container.config_map_volumes.len(), 1);
    assert_eq!(pod.container.config_map_volumes[0].config_map_name, "cm");
    assert_eq!(pod.container.config_map_volumes[0].mount_path, "conf");
    assert_eq!(pod.container.ports.len(), 2);
    assert_eq!(pod.container.ports[0].name, "metrics");
    assert_eq!(pod.container.ports[1].name, "client");
    assert_eq!(pod.container.ports[0].container_port, 8181);
    assert_eq!(pod.container.ports[1].container_port, 8181);
}

#[test]
fn pod_without_port() {
    let pod = state()
        .create_pod::<()>(
            "node-1",
            &config_maps(Some("cm")),
            &cli(None),
            Ok(text("pod-")),
            map(&[]),
        )
        .unwrap();
    assert_eq!(pairs(pod.annotations), vec![]);
    assert!(pod.container.ports.is_empty());
    assert_eq!(pod.container.command, build_opa_start_command(None));
}

#[test]
fn pod_without_command_line_has_no_command() {
    let pod = state()
        .create_pod::<()>(
            "node-1",
            &config_maps(Some("cm")),
            &RoleGroupConfig::new(),
            Ok(text("pod-")),
            map(&[]),
        )
        .unwrap();
    assert!(pod.container.command.is_empty());
    assert!(pod.container.env.is_empty());
    assert!(pod.container.ports.is_empty());
}

#[test]
fn walk_order_of_the_kinds_does_not_matter() {
    let mut a = cli(Some("8181"));
    a.insert(PropertyNameKind::Env, map(&[("A", "1")]));
    let mut b = RoleGroupConfig::new();
    b.insert(PropertyNameKind::Env, map(&[("A", "1")]));
    b.insert(PropertyNameKind::Cli, map(&[("port", "8181")]));
    let maps = config_maps(Some("cm"));
    let state = state();
    let first = state.create_pod::<()>("n", &maps, &a, Ok(text("p")), map(&[])).unwrap();
    let second = state.create_pod::<()>("n", &maps, &b, Ok(text("p")), map(&[])).unwrap();
    assert_eq!(first.container, second.container);
    assert_eq!(pairs(first.annotations), pairs(second.annotations));
}

#[test]
fn port_texts() {
    let state = state();
    let maps = config_maps(Some("cm"));
    for (port, number) in [("0", 0), ("65535", 65535), ("+80", 80), ("000080", 80)] {
        let pod =
            state.create_pod::<()>("n", &maps, &cli(Some(port)), Ok(text("p")), map(&[])).unwrap();
        assert_eq!(pod.container.ports[0].container_port, number);
        assert_eq!(pod.container.command[2], format!("-a 0.0.0.0:{}", port));
    }
    for port in ["", "+", "-1", "65536", "80 ", " 80", "8_0", "0x50", "++1", "99999999999999999999"]
    {
        let error = state
            .create_pod::<()>("n", &maps, &cli(Some(port)), Ok(text("p")), map(&[]))
            .err()
            .unwrap();
        let reason = port.parse::<u16>().unwrap_err();
        assert_eq!(error, Error::InvalidPort { reason });
    }
}

#[test]
fn first_obstacle_is_reported() {
    let state = state();
    let bad_port = cli(Some("none"));
    let error = state
        .create_pod("n", &StringMap::new(), &bad_port, Err("too long"), map(&[]))
        .err()
        .unwrap();
    assert_eq!(error, Error::OperatorError { source: "too long" });
    let error = state
        .create_pod::<()>("n", &StringMap::new(), &bad_port, Ok(text("p")), map(&[]))
        .err()
        .unwrap();
    assert_eq!(error, Error::MissingConfigMapError { cm_type: "config", pod_name: text("p") });
    let error = state
        .create_pod::<()>("n", &config_maps(None), &bad_port, Ok(text("p")), map(&[]))
        .err()
        .unwrap();
    assert_eq!(error, Error::MissingConfigMapNameError { cm_type: "config" });
}

#[test]
fn pod_is_refused_where_the_file_is_not_configured() {
    let state = state();
    let config = cli(Some("8181"));
    let planned = state.create_config_maps::<()>(&config, map(&[]), Ok(text("cm"))).unwrap();
    assert!(planned.is_none());
    let maps = collect_config_maps::<()>(None).unwrap();
    let error =
        state.create_pod::<()>("n", &maps, &config, Ok(text("p")), map(&[])).err().unwrap();
    assert_eq!(error, Error::MissingConfigMapError { cm_type: "config", pod_name: text("p") });
}

#[test]
fn start_command_reads_the_mounted_file() {
    let state = state();
    let maps = collect_config_maps::<()>(Some(Ok(ConfigMap { name: Some(text("cm")) }))).unwrap();
    let pod =
        state.create_pod::<()>("n", &maps, &cli(None), Ok(text("p")), map(&[])).unwrap();
    let volume = &pod.container.config_map_volumes[0];
    assert_eq!(volume.config_map_name, "cm");
    assert_eq!(
        pod.container.command.last().unwrap(),
        &format!("-c {{{{configroot}}}}/{}/{}", volume.mount_path, state.vocabulary.config_file)
    );
}

fn name_of(parts: ResourceName) -> String {
    let mut name = vec![parts.application, parts.instance, parts.role];
    name.extend(parts.group);
    name.extend(parts.node);
    name.extend(parts.suffix);
    name.join("-")
}

fn labels_of(parts: RecommendedLabels) -> StringMap<String> {
    map(&[
        ("component", parts.role.as_str()),
        ("group", parts.group.as_str()),
        ("instance", "simple"),
        ("version", parts.version.as_str()),
    ])
}

/// Searches for a missing pod on `state`, with `config` for every group, and keeps what is sent.
fn search_and_send(
    state: &State,
    config: fn() -> RoleGroupConfig,
) -> (Vec<NewConfigMap>, Vec<Pod>, Result<ReconcileFunctionAction, Error<()>>) {
    let mut sent_config_maps = Vec::new();
    let mut sent_pods = Vec::new();
    let mut step: MissingPods<(), (), (), ()> = state.create_missing_pods();
    loop {
        step = match step {
            MissingPods::FindNodes(find) => {
                let nodes = if find.group() == "big" {
                    vec![None, Some(text("n2"))]
                } else {
                    Vec::new()
                };
                find.answer(nodes)
            }
            MissingPods::FetchConfig(fetch) => fetch.answer(Ok(config())),
            MissingPods::CreateConfigMaps(create) => {
                let planned = state.create_config_maps::<()>(
                    &create.validated_config,
                    labels_of(state.recommended_labels(create.role, create.group)),
                    Ok(name_of(state.config_map_name(create.role, create.group))),
                );
                let config_maps = match planned {
                    Err(error) => Err(error),
                    Ok(None) => collect_config_maps(None),
                    Ok(Some(planned)) => {
                        let created = ConfigMap { name: Some(planned.name.clone()) };
                        sent_config_maps.push(planned);
                        collect_config_maps(Some(Ok(created)))
                    }
                };
                create.answer(config_maps)
            }
            MissingPods::CreatePod(create) => {
                let planned = state.create_pod::<()>(
                    &create.node_name,
                    &create.config_maps,
                    &create.validated_config,
                    Ok(name_of(state.pod_name(create.role, create.group, &create.node_name))),
                    labels_of(state.recommended_labels(create.role, create.group)),
                );
                create.answer(planned.map(|pod| sent_pods.push(pod)))
            }
            MissingPods::Finish(result) => return (sent_config_maps, sent_pods, result),
        };
    }
}

fn searched_state() -> State {
    let mut groups = RoleGroups::new();
    groups.insert(text("small"), ());
    groups.insert(text("big"), ());
    let mut state = state();
    state.eligible_nodes.insert(text("server"), groups);
    state
}

fn full_config() -> RoleGroupConfig {
    let mut config = cli(Some("8181"));
    config.insert(
        PropertyNameKind::File(text("config.yaml")),
        map(&[("repoRuleReference", "http://rules")]),
    );
    config
}

#[test]
fn search_sends_what_is_planned_for_the_place() {
    let (config_maps, pods, result) = search_and_send(&searched_state(), full_config);
    assert_eq!(result, Ok(ReconcileFunctionAction::Requeue(Delay { secs: 10, nanos: 0 })));
    assert_eq!(config_maps.len(), 1);
    assert_eq!(config_maps[0].name, "opa-simple-server-big-config");
    assert_eq!(config_maps[0].labels.get("group"), Some(&text("big")));
    assert_eq!(
        config_maps[0].data.get("config.yaml"),
        Some(&build_config_file("http://rules"))
    );
    assert_eq!(pods.len(), 1);
    assert_eq!(pods[0].generate_name, "opa-simple-server-big-n2");
    assert_eq!(pods[0].node_name, "n2");
    assert_eq!(pods[0].labels.get("group"), Some(&text("big")));
    assert_eq!(
        pods[0].container.config_map_volumes[0].config_map_name,
        "opa-simple-server-big-config"
    );
}

#[test]
fn search_ends_where_the_file_is_not_configured() {
    let (config_maps, pods, result) = search_and_send(&searched_state(), || cli(None));
    assert!(config_maps.is_empty());
    assert!(pods.is_empty());
    assert_eq!(
        result,
        Err(Error::MissingConfigMapError {
            cm_type: "config",
            pod_name: text("opa-simple-server-big-n2"),
        })
    );
}

#[test]
fn sent_pod_has_the_required_labels() {
    let state = searched_state();
    let (_, pods, _) = search_and_send(&state, full_config);
    for (label, values) in state.required_pod_labels().into_entries() {
        let value = pods[0].labels.get(&label).unwrap();
        assert!(values.unwrap().contains(value), "{}", label);
    }
}
