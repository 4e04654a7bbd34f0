//! What the parts of the library come to when a pod is set up.
use crate::action::{Delay, ReconcileFunctionAction, CREATION_DELAY_SECS};
use crate::error::ErrorView;
use crate::missing_pods::{Answers, Creation, Outcome, Placement, Visit};
use crate::objects::{NewConfigMapView, PodView, RecommendedLabelsView, ResourceNameView};
use crate::property::{KindView, Properties};
use crate::state::OpaState;
use vstd::prelude::*;

verus! {

/// What the operator framework computes for the resource, and what the cluster makes of the
/// objects that are sent to it.
#[verifier::reject_recursive_types(P)]
#[verifier::reject_recursive_types(N)]
#[verifier::reject_recursive_types(C)]
pub ghost struct Surroundings<P, N, C, E> {
    /// The nodes that need a pod of a role group, given the pods that there are.
    pub nodes: spec_fn(Visit<N>, Seq<P>) -> Seq<Option<Seq<char>>>,
    /// The configuration of a role group, from the validated configuration of all roles.
    pub config: spec_fn(Placement, C) -> Result<Map<KindView, Properties>, E>,
    /// The name that is made of its parts.
    pub name: spec_fn(ResourceNameView) -> Result<Seq<char>, E>,
    /// The recommended labels that are made of their parts.
    pub labels: spec_fn(RecommendedLabelsView) -> Map<Seq<char>, Seq<char>>,
    /// The name of the config map that was created, if it has one.
    pub config_map: spec_fn(NewConfigMapView) -> Result<Option<Seq<char>>, E>,
    /// Whether a pod was created.
    pub pod: spec_fn(PodView) -> Result<(), E>,
}

/// The recommended labels of the resources at `place`.
pub open spec fn labels_at<P, N, C, E>(
    state: OpaState<P, N, C>,
    around: Surroundings<P, N, C, E>,
    place: Placement,
) -> Map<Seq<char>, Seq<char>> {
    (around.labels)(crate::config_maps::label_parts(state, place.role, place.group))
}

/// The name of the config map for `place`.
pub open spec fn config_map_name_at<P, N, C, E>(
    state: OpaState<P, N, C>,
    around: Surroundings<P, N, C, E>,
    place: Placement,
) -> Result<Seq<char>, E> {
    (around.name)(crate::config_maps::config_map_name_parts(state, place.role, place.group))
}

/// The name of the pod at `place`.
pub open spec fn pod_name_at<P, N, C, E>(
    state: OpaState<P, N, C>,
    around: Surroundings<P, N, C, E>,
    place: Placement,
) -> Result<Seq<char>, E> {
    (around.name)(
        crate::pods::pod_name_parts(state, place.role, place.group, place.node_name),
    )
}

/// The config maps that come of planning the one for `place` and creating it.
pub open spec fn config_maps_at<P, N, C, E>(
    state: OpaState<P, N, C>,
    around: Surroundings<P, N, C, E>,
    place: Placement,
    config: Map<KindView, Properties>,
) -> Result<Map<Seq<char>, Option<Seq<char>>>, ErrorView<E>> {
    match crate::config_maps::planned_config_map(
        state,
        config,
        labels_at(state, around, place),
        config_map_name_at(state, around, place),
    ) {
        Err(error) => Err(error),
        Ok(None) => crate::config_maps::collected_config_maps(None),
        Ok(Some(config_map)) => crate::config_maps::collected_config_maps(
            Some((around.config_map)(config_map)),
        ),
    }
}

/// The pod that is planned at `place`.
pub open spec fn pod_at<P, N, C, E>(
    state: OpaState<P, N, C>,
    around: Surroundings<P, N, C, E>,
    place: Placement,
    config: Map<KindView, Properties>,
    config_maps: Map<Seq<char>, Option<Seq<char>>>,
) -> Result<PodView, ErrorView<E>> {
    crate::pods::planned_pod(
        state,
        place.node_name,
        config_maps,
        config,
        pod_name_at(state, around, place),
        labels_at(state, around, place),
    )
}

/// What comes of sending the pod that was planned.
pub open spec fn sent<P, N, C, E>(
    around: Surroundings<P, N, C, E>,
    pod: Result<PodView, ErrorView<E>>,
) -> Result<(), ErrorView<E>> {
    match pod {
        Err(error) => Err(error),
        Ok(pod) => match (around.pod)(pod) {
            Err(source) => Err(ErrorView::OperatorError { source }),
            Ok(_) => Ok(()),
        },
    }
}

/// The answers to the questions of a search where config maps and pods are planned by the library
/// and created as planned.
pub open spec fn planned_answers<P, N, C, E>(
    state: OpaState<P, N, C>,
    around: Surroundings<P, N, C, E>,
) -> Answers<P, N, C, E> {
    Answers {
        nodes: around.nodes,
        config: around.config,
        config_maps: |place: Placement, config: Map<KindView, Properties>|
            config_maps_at(state, around, place, config),
        pod: |
            place: Placement,
            config: Map<KindView, Properties>,
            config_maps: Map<Seq<char>, Option<Seq<char>>>,
        |
            sent(around, pod_at(state, around, place, config, config_maps)),
    }
}

/// How the pod at `place` ends up, once its config map is there under the name `config_map`, or
/// without a name.
pub open spec fn pod_result<P, N, C, E>(
    state: OpaState<P, N, C>,
    around: Surroundings<P, N, C, E>,
    place: Placement,
    config: Map<KindView, Properties>,
    config_map: Option<Seq<char>>,
) -> Result<ReconcileFunctionAction, ErrorView<E>> {
    match (pod_name_at(state, around, place), config_map) {
        (Err(source), _) => Err(ErrorView::OperatorError { source }),
        (_, None) => Err(
            ErrorView::MissingConfigMapNameError {
                cm_type: crate::config_maps::CONFIG_MAP_TYPE_CONFIG@,
            },
        ),
        (Ok(pod_name), Some(config_map)) => match crate::pods::configured_port(state, config) {
            Some(text) if !crate::port::is_port(text) => Err(
                ErrorView::InvalidPort { reason: crate::port::parsed_port(text)->Err_0 },
            ),
            _ => match (around.pod)(
                crate::pods::server_pod(
                    state,
                    place.node_name,
                    config,
                    config_map,
                    pod_name,
                    labels_at(state, around, place),
                ),
            ) {
                Err(source) => Err(ErrorView::OperatorError { source }),
                Ok(_) => Ok(
                    ReconcileFunctionAction::Requeue(
                        Delay { secs: CREATION_DELAY_SECS, nanos: 0 },
                    ),
                ),
            },
        },
    }
}

/// What comes of setting up the pod at `place` with the configuration `config` of its role group.
///
/// Where nothing is configured for the configuration file, the pod is refused. Else the config map
/// of the role group is sent, with the name and the labels that are made for this place, and then
/// the pod, which finds that config map, with its own name and the same labels.
pub open spec fn set_up_at<P, N, C, E>(
    state: OpaState<P, N, C>,
    around: Surroundings<P, N, C, E>,
    place: Placement,
    config: Map<KindView, Properties>,
) -> Outcome<E> {
    let file = KindView::File(state.vocabulary.config_file@);
    let config_maps_alone = seq![Creation::ConfigMaps(place)];
    let both = seq![Creation::ConfigMaps(place), Creation::Pod(place)];
    if !config.contains_key(file) {
        Outcome {
            asked: both,
            result: Err(
                match pod_name_at(state, around, place) {
                    Err(source) => ErrorView::OperatorError { source },
                    Ok(pod_name) => ErrorView::MissingConfigMapError {
                        cm_type: crate::config_maps::CONFIG_MAP_TYPE_CONFIG@,
                        pod_name,
                    },
                },
            ),
        }
    } else {
        match config_map_name_at(state, around, place) {
            Err(source) => Outcome {
                asked: config_maps_alone,
                result: Err(ErrorView::OperatorError { source }),
            },
            Ok(name) => match (around.config_map)(
                crate::config_maps::server_config_map(
                    state,
                    config[file],
                    labels_at(state, around, place),
                    name,
                ),
            ) {
                Err(source) => Outcome {
                    asked: config_maps_alone,
                    result: Err(ErrorView::OperatorError { source }),
                },
                Ok(config_map) => Outcome {
                    asked: both,
                    result: pod_result(state, around, place, config, config_map),
                },
            },
        }
    }
}

/// A search that finds a node in need sends what is planned for exactly that place: the config map
/// and the pod have the names, the labels and the configuration of the place, the pod finds that
/// config map, and the first failure ends the search.
pub proof fn search_sends_what_is_planned<P, N, C, E>(
    state: OpaState<P, N, C>,
    around: Surroundings<P, N, C, E>,
    at: int,
)
    requires
        crate::missing_pods::needs_pod(
            crate::missing_pods::whole_search(state),
            planned_answers(state, around),
            at,
        ),
        forall|i: int|
            0 <= i < at ==> !#[trigger] crate::missing_pods::needs_pod(
                crate::missing_pods::whole_search(state),
                planned_answers(state, around),
                i,
            ),
    ensures
        ({
            let visit = crate::missing_pods::visits(state)[at];
            let place = Placement {
                role: visit.role,
                group: visit.group,
                node_name: crate::missing_pods::first_named(
                    (around.nodes)(visit, state.existing_pods@),
                )->0,
            };
            crate::missing_pods::run(
                crate::missing_pods::go_on::<P, N, C, E>(crate::missing_pods::whole_search(state)),
                planned_answers(state, around),
            ) == match (around.config)(place, state.validated_role_config) {
                Err(source) => Outcome {
                    asked: seq![],
                    result: Err(ErrorView::OperatorError { source }),
                },
                Ok(config) => set_up_at(state, around, place, config),
            }
        }),
{
    crate::missing_pods::search_takes_first_need(state, planned_answers(state, around), at);
}

/// No pod that is planned at a place in a visited role group is illegal under the labels that the
/// operator itself requires, if the resource is reconciled under its own name and the recommended
/// labels name the role, the resource and its version.
pub proof fn pods_at_visited_places_are_legal<P, N, C, E>(
    state: OpaState<P, N, C>,
    around: Surroundings<P, N, C, E>,
    at: int,
    node_name: Seq<char>,
    config: Map<KindView, Properties>,
    config_maps: Map<Seq<char>, Option<Seq<char>>>,
)
    requires
        0 <= at < crate::missing_pods::visits(state).len(),
        state.context.has_one_name(),
        forall|role: Seq<char>, group: Seq<char>|
            crate::state::names_its_place(
                state,
                #[trigger] (around.labels)(crate::config_maps::label_parts(state, role, group)),
                role,
                state.context.resource_name@,
            ),
    ensures
        ({
            let visit = crate::missing_pods::visits(state)[at];
            let place = Placement { role: visit.role, group: visit.group, node_name };
            pod_at(state, around, place, config, config_maps) matches Ok(pod)
                ==> crate::state::is_legal(pod.labels, crate::state::required_labels(state))
        }),
{
    let visit = crate::missing_pods::visits(state)[at];
    let place = Placement { role: visit.role, group: visit.group, node_name };
    crate::missing_pods::visited_roles_are_known(state, at);
    crate::pods::planned_pod_is_legal(
        state,
        visit.role,
        node_name,
        config_maps,
        config,
        pod_name_at(state, around, place),
        labels_at(state, around, place),
    );
}

} // verus!
