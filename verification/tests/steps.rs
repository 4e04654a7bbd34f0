use opa_operator::action::{ContinuationStrategy, Delay, ReconcileFunctionAction};
use opa_operator::deletion::{delete_pods, Deletion};
use opa_operator::error::Error;
use opa_operator::groups::RoleGroups;
use opa_operator::missing_pods::MissingPods;
use opa_operator::objects::ConfigMap;
use opa_operator::property::{PropertyNameKind, RoleGroupConfig};
use opa_operator::reconcile::Reconciliation;
use opa_operator::roles::Roles;
use opa_operator::state::{Context, OpaState, Vocabulary};
use opa_operator::strategy::{validated_product_config, OpaStrategy, Preparation};
use opa_operator::string_map::StringMap;

type State = OpaState<u32, u32, u8>;
type Failure = &'static str;

fn text(s: &str) -> String {
    s.to_string()
}

fn vocabulary() -> Vocabulary {
    Vocabulary {
        app_name: text("opa"),
        config_file: text("config.yaml"),
        port: text("port"),
        repo_rule_reference: text("repoRuleReference"),
        component_label: text("component"),
        instance_label: text("instance"),
        version_label: text("version"),
        config_map_type_label: text("configmap-type"),
        roles: Roles::new(vec![text("server"), text("idle"), text("proxy")], text("server"))
            .unwrap(),
    }
}

fn context() -> Context {
    Context {
        name: text("simple"),
        resource_name: text("simple-resource"),
        namespace: text("rules"),
        default_namespace: text("default"),
        version: text("0.27.2"),
    }
}

fn groups(entries: &[(&str, u32)]) -> RoleGroups<u32> {
    let mut groups = RoleGroups::new();
    for (group, nodes) in entries {
        groups.insert(text(group), *nodes);
    }
    groups
}

fn state() -> State {
    let mut eligible_nodes = StringMap::new();
    eligible_nodes.insert(text("proxy"), groups(&[("edge", 30)]));
    eligible_nodes.insert(text("server"), groups(&[("small", 10), ("big", 20)]));
    eligible_nodes.insert(text("unknown"), groups(&[("lost", 40)]));
    OpaState {
        vocabulary: vocabulary(),
        context: context(),
        existing_pods: vec![7, 8, 9],
        eligible_nodes,
        validated_role_config: 5,
    }
}

/// Runs the search; `nodes` answers for each group, `failing` names the step that fails.
fn search(
    state: &State,
    nodes: &dyn Fn(&str) -> Vec<Option<String>>,
    failing: &str,
) -> (Vec<String>, Result<ReconcileFunctionAction, Error<Failure>>) {
    let mut log = Vec::new();
    let mut step: MissingPods<u32, u32, u8, Failure> = state.create_missing_pods();
    loop {
        step = match step {
            MissingPods::FindNodes(find) => {
                log.push(format!("find {} {} {}", find.role(), find.group(), find.candidates()));
                assert_eq!(*find.pods(), state.existing_pods);
                let found = nodes(find.group());
                find.answer(found)
            }
            MissingPods::FetchConfig(fetch) => {
                log.push(format!("config {} {}", fetch.role, fetch.group));
                assert_eq!(*fetch.validated_role_config, state.validated_role_config);
                if failing == "config" {
                    fetch.answer(Err("config"))
                } else {
                    let mut config = RoleGroupConfig::new();
                    config.insert(PropertyNameKind::Env, StringMap::new());
                    fetch.answer(Ok(config))
                }
            }
            MissingPods::CreateConfigMaps(create) => {
                assert!(create.validated_config.get(&PropertyNameKind::Env).is_some());
                log.push(format!("config maps {} {}", create.role, create.group));
                if failing == "config maps" {
                    create.answer(Err(Error::OperatorError { source: "config maps" }))
                } else {
                    let mut maps = StringMap::new();
                    maps.insert(text("config"), ConfigMap { name: Some(text("cm")) });
                    create.answer(Ok(maps))
                }
            }
            MissingPods::CreatePod(create) => {
                assert!(create.validated_config.get(&PropertyNameKind::Env).is_some());
                assert!(create.config_maps.get("config").is_some());
                log.push(format!("pod {} {} {}", create.role, create.group, create.node_name));
                if failing == "pod" {
                    create.answer(Err(Error::MissingConfigMapNameError { cm_type: "config" }))
                } else {
                    create.answer(Ok(()))
                }
            }
            MissingPods::Finish(result) => return (log, result),
        };
    }
}

#[test]
fn search_without_need_goes_on() {
    let (log, result) = search(&state(), &|_| Vec::new(), "");
    assert_eq!(log, ["find server small 10", "find server big 20", "find proxy edge 30"]);
    assert_eq!(result, Ok(ReconcileFunctionAction::Continue));
}

#[test]
fn search_skips_nodes_without_a_name() {
    let (log, result) = search(&state(), &|_| vec![None, None], "");
    assert_eq!(log.len(), 3);
    assert_eq!(result, Ok(ReconcileFunctionAction::Continue));
}

#[test]
fn search_creates_one_pod_on_the_first_named_node() {
    let nodes = |group: &str| match group {
        "big" => vec![None, Some(text("n2")), Some(text("n3"))],
        "edge" => vec![Some(text("n4"))],
        _ => Vec::new(),
    };
    let (log, result) = search(&state(), &nodes, "");
    assert_eq!(
        log,
        [
            "find server small 10",
            "find server big 20",
            "config server big",
            "config maps server big",
            "pod server big n2",
        ]
    );
    assert_eq!(result, Ok(ReconcileFunctionAction::Requeue(Delay { secs: 10, nanos: 0 })));
}

#[test]
fn search_ends_with_the_first_failure() {
    let nodes = |_: &str| vec![Some(text("n1"))];
    let (log, result) = search(&state(), &nodes, "config");
    assert_eq!(log, ["find server small 10", "config server small"]);
    assert_eq!(result, Err(Error::OperatorError { source: "config" }));
    let (log, result) = search(&state(), &nodes, "config maps");
    assert_eq!(
        log,
        ["find server small 10", "config server small", "config maps server small"]
    );
    assert_eq!(result, Err(Error::OperatorError { source: "config maps" }));
    let (log, result) = search(&state(), &nodes, "pod");
    assert_eq!(log.len(), 4);
    assert_eq!(result, Err(Error::MissingConfigMapNameError { cm_type: "config" }));
}

fn delete(state: &State, failing: u32) -> (Vec<u32>, Result<ReconcileFunctionAction, Failure>) {
    let mut log = Vec::new();
    let mut step: Deletion<u32, Failure> = state.delete_all_pods();
    loop {
        step = match step {
            Deletion::Delete(pod) => {
                let id = *pod.pod();
                log.push(id);
                pod.answer(if id == failing { Err("gone") } else { Ok(()) })
            }
            Deletion::Finish(result) => return (log, result),
        };
    }
}

#[test]
fn all_pods_are_deleted_in_order() {
    assert_eq!(delete(&state(), 0), (vec![7, 8, 9], Ok(ReconcileFunctionAction::Done)));
    let mut empty = state();
    empty.existing_pods.clear();
    assert_eq!(delete(&empty, 0), (vec![], Ok(ReconcileFunctionAction::Done)));
}

#[test]
fn deletion_begins_with_the_first_pod() {
    let pods = vec![4, 5];
    let step: Deletion<u32, Failure> = delete_pods(&pods);
    assert!(matches!(&step, Deletion::Delete(pod) if *pod.pod() == 4));
    let none: Vec<u32> = Vec::new();
    let step: Deletion<u32, Failure> = delete_pods(&none);
    assert!(matches!(step, Deletion::Finish(Ok(ReconcileFunctionAction::Done))));
}

#[test]
fn deletion_stops_at_the_first_failure() {
    assert_eq!(delete(&state(), 8), (vec![7, 8], Err("gone")));
}

/// Runs a reconciliation in which the part number `at` ends with `outcome` and all others go on.
fn reconcile(
    at: usize,
    outcome: Result<ReconcileFunctionAction, Error<Failure>>,
) -> (Vec<&'static str>, Result<ReconcileFunctionAction, Error<Failure>>) {
    let state = state();
    let mut log = Vec::new();
    let mut outcome = Some(outcome);
    let mut step: Reconciliation<u32, u32, Failure> = state.reconcile();
    loop {
        match &step {
            Reconciliation::HandleDeletion { pods, finalizer_name, requeue_if_changed } => {
                assert_eq!(**pods, [7, 8, 9]);
                assert_eq!(*finalizer_name, "opa.stackable.tech/cleanup");
                assert!(*requeue_if_changed);
                log.push("handle deletion");
            }
            Reconciliation::DeleteIllegalPods { pods, required_labels, strategy } => {
                assert_eq!(**pods, [7, 8, 9]);
                assert_eq!(required_labels.get("instance"), Some(&Some(vec![text("simple")])));
                assert_eq!(
                    required_labels.get("component"),
                    Some(&Some(vec![text("server"), text("idle"), text("proxy")]))
                );
                assert_eq!(*strategy, ContinuationStrategy::OneRequeue);
                log.push("delete illegal");
            }
            Reconciliation::WaitForTerminatingPods { pods } => {
                assert_eq!(**pods, [7, 8, 9]);
                log.push("wait terminating");
            }
            Reconciliation::WaitForRunningAndReadyPods { pods } => {
                assert_eq!(**pods, [7, 8, 9]);
                log.push("wait running");
            }
            Reconciliation::DeleteExcessPods { eligible_nodes, pods, strategy } => {
                assert_eq!(**pods, [7, 8, 9]);
                assert_eq!(eligible_nodes.entries().len(), 3);
                assert_eq!(
                    *eligible_nodes.get("server").unwrap().entries(),
                    vec![(text("small"), 10), (text("big"), 20)]
                );
                assert_eq!(*strategy, ContinuationStrategy::OneRequeue);
                log.push("delete excess");
            }
            Reconciliation::CreateMissingPods => log.push("create missing"),
            Reconciliation::Finish(_) => {}
        }
        if let Reconciliation::Finish(result) = step {
            return (log, result);
        }
        let answer = if log.len() == at + 1 {
            outcome.take().unwrap()
        } else {
            Ok(ReconcileFunctionAction::Continue)
        };
        step = step.answer(&state, answer);
    }
}

const PARTS: [&str; 6] = [
    "handle deletion",
    "delete illegal",
    "wait terminating",
    "wait running",
    "delete excess",
    "create missing",
];

#[test]
fn reconciliation_goes_through_all_parts() {
    let (log, result) = reconcile(9, Ok(ReconcileFunctionAction::Done));
    assert_eq!(log, PARTS);
    assert_eq!(result, Ok(ReconcileFunctionAction::Continue));
}

#[test]
fn reconciliation_stops_at_the_first_stop() {
    let requeue = ReconcileFunctionAction::Requeue(Delay { secs: 3, nanos: 5 });
    for at in 0..6 {
        let (log, result) = reconcile(at, Ok(ReconcileFunctionAction::Done));
        assert_eq!(log, PARTS[..at + 1]);
        assert_eq!(result, Ok(ReconcileFunctionAction::Done));
        let (log, result) = reconcile(at, Ok(requeue));
        assert_eq!(log, PARTS[..at + 1]);
        assert_eq!(result, Ok(requeue));
        let (log, result) = reconcile(at, Err(Error::OperatorError { source: "down" }));
        assert_eq!(log, PARTS[..at + 1]);
        assert_eq!(result, Err(Error::OperatorError { source: "down" }));
    }
}

#[test]
fn finished_reconciliation_stays_finished() {
    let finished: Reconciliation<u32, u32, Failure> =
        Reconciliation::Finish(Ok(ReconcileFunctionAction::Done));
    let state = state();
    let still = finished.answer(&state, Ok(ReconcileFunctionAction::Continue));
    assert!(matches!(still, Reconciliation::Finish(Ok(ReconcileFunctionAction::Done))));
}

fn prepare(failing: &str) -> (usize, Result<State, Error<Failure>>) {
    let strategy = OpaStrategy::new(text("properties"));
    assert_eq!(strategy.config.as_str(), "properties");
    let mut asked = 0;
    let mut step: Preparation<u32, u32, u8, String, Failure> =
        strategy.init_reconcile_state(vocabulary(), context());
    loop {
        step = match step {
            Preparation::ListOwnedPods(list) => {
                asked += 1;
                let labels = list.common_labels();
                assert_eq!(labels.app_name, "opa");
                assert_eq!(labels.instance, "simple-resource");
                list.answer(if failing == "list" { Err("list") } else { Ok(vec![1, 2]) })
            }
            Preparation::FindServerNodes(find) => {
                asked += 1;
                assert_eq!(find.namespace, None);
                assert_eq!(find.existing_pods, vec![1, 2]);
                find.answer(if failing == "nodes" {
                    Err("nodes")
                } else {
                    Ok(groups(&[("small", 10), ("big", 20)]))
                })
            }
            Preparation::ValidateConfig(validate) => {
                asked += 1;
                assert_eq!(validate.vocabulary.app_name, "opa");
                assert_eq!(validate.config.as_str(), "properties");
                validate.answer(if failing == "config" { Err("config") } else { Ok(5) })
            }
            Preparation::Finish(result) => return (asked, result),
        };
    }
}

#[test]
fn preparation_gathers_the_state() {
    let (asked, state) = prepare("");
    let state = state.ok().unwrap();
    assert_eq!(asked, 3);
    assert_eq!(state.existing_pods, vec![1, 2]);
    assert_eq!(state.context, context());
    assert_eq!(state.vocabulary, vocabulary());
    assert_eq!(state.eligible_nodes.entries().len(), 1);
    let groups = state.eligible_nodes.get("server").unwrap();
    assert_eq!(*groups.entries(), vec![(text("small"), 10), (text("big"), 20)]);
    assert_eq!(state.validated_role_config, 5);
}

#[test]
fn prepared_state_is_searched_in_the_server_role() {
    let state = prepare("").1.ok().unwrap();
    let (log, result) = search(&state, &|_| Vec::new(), "");
    assert_eq!(log, ["find server small 10", "find server big 20"]);
    assert_eq!(result, Ok(ReconcileFunctionAction::Continue));
}

#[test]
fn preparation_ends_with_the_first_failure() {
    for (at, failing) in [(1, "list"), (2, "nodes"), (3, "config")] {
        let (asked, result) = prepare(failing);
        assert_eq!(asked, at);
        assert_eq!(result.err(), Some(Error::OperatorError { source: failing }));
    }
}

#[test]
fn product_config_is_asked_for_file_and_command_line() {
    let query = validated_product_config(&vocabulary(), "0.27.2", 42);
    assert_eq!(query.version, "0.27.2");
    assert!(!query.ignore_warn);
    assert!(!query.ignore_err);
    assert_eq!(
        query.roles.into_entries(),
        vec![(
            text("server"),
            (vec![PropertyNameKind::File(text("config.yaml")), PropertyNameKind::Cli], 42)
        )]
    );
}
