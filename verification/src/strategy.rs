//! How a reconciliation is prepared.
use crate::error::{Error, ErrorView};
use crate::groups::RoleGroups;
use crate::property::{KindView, PropertyNameKind};
use crate::state::{Context, OpaState, StateView, Vocabulary};
use crate::string_map::StringMap;
use std::sync::Arc;
use vstd::prelude::*;

verus! {

/// Prepares reconciliations. `M` knows which properties OPA has.
pub struct OpaStrategy<M> {
    pub config: Arc<M>,
}

/// What is to be done next to prepare a reconciliation. `E` is the error of the operator
/// framework, `M` is that of [`OpaStrategy`]; the other types are those of [`OpaState`].
pub enum Preparation<'a, P, N, C, M, E> {
    /// List the pods of the resource.
    ListOwnedPods(ListOwnedPods<'a, M>),
    /// Find the nodes that fit the groups of the server role.
    FindServerNodes(FindServerNodes<'a, P, M>),
    /// Validate the configuration of the resource.
    ValidateConfig(ValidateConfig<'a, P, N, M>),
    /// Nothing: this is what came of it.
    Finish(Result<OpaState<P, N, C>, Error<E>>),
}

/// The step that lists the pods of the resource, by the labels that they have in common.
pub struct ListOwnedPods<'a, M> {
    pub config: &'a Arc<M>,
    pub vocabulary: Vocabulary,
    pub context: Context,
}

/// What the labels that all resources of an OPA resource have in common are made from.
#[derive(Debug, PartialEq, Eq)]
pub struct CommonLabels {
    pub app_name: String,
    pub instance: String,
}

/// The step that finds the nodes that fit the groups of the server role, in `namespace` if there
/// is one.
pub struct FindServerNodes<'a, P, M> {
    pub config: &'a Arc<M>,
    pub vocabulary: Vocabulary,
    pub context: Context,
    pub existing_pods: Vec<P>,
    pub namespace: Option<String>,
}

/// The step that validates the configuration of the resource with `config`.
pub struct ValidateConfig<'a, P, N, M> {
    pub config: &'a Arc<M>,
    pub vocabulary: Vocabulary,
    pub context: Context,
    pub existing_pods: Vec<P>,
    pub eligible_nodes: StringMap<RoleGroups<N>>,
}

/// [`Preparation`] as a mathematical value.
pub ghost enum PreparationView<P, N, C, M, E> {
    ListOwnedPods { config: M, vocabulary: Vocabulary, context: Context },
    FindServerNodes {
        config: M,
        vocabulary: Vocabulary,
        context: Context,
        existing_pods: Vec<P>,
        namespace: Option<Seq<char>>,
    },
    ValidateConfig {
        config: M,
        vocabulary: Vocabulary,
        context: Context,
        existing_pods: Vec<P>,
        eligible_nodes: Map<Seq<char>, RoleGroups<N>>,
    },
    Finish(Result<StateView<P, N, C>, ErrorView<E>>),
}

impl<'a, P, N, C, M, E> View for Preparation<'a, P, N, C, M, E> {
    type V = PreparationView<P, N, C, M, E>;

    open spec fn view(&self) -> PreparationView<P, N, C, M, E> {
        match *self {
            Preparation::ListOwnedPods(step) => PreparationView::ListOwnedPods {
                config: **step.config,
                vocabulary: step.vocabulary,
                context: step.context,
            },
            Preparation::FindServerNodes(step) => PreparationView::FindServerNodes {
                config: **step.config,
                vocabulary: step.vocabulary,
                context: step.context,
                existing_pods: step.existing_pods,
                namespace: step.namespace.deep_view(),
            },
            Preparation::ValidateConfig(step) => PreparationView::ValidateConfig {
                config: **step.config,
                vocabulary: step.vocabulary,
                context: step.context,
                existing_pods: step.existing_pods,
                eligible_nodes: step.eligible_nodes.map(),
            },
            Preparation::Finish(Ok(state)) => PreparationView::Finish(Ok(state@)),
            Preparation::Finish(Err(error)) => PreparationView::Finish(Err(error@)),
        }
    }
}

/// The step after the pods of the resource were listed: the nodes are looked for in all
/// namespaces.
pub open spec fn after_list<P, N, C, M, E>(
    config: M,
    vocabulary: Vocabulary,
    context: Context,
    existing_pods: Result<Vec<P>, E>,
) -> PreparationView<P, N, C, M, E> {
    match existing_pods {
        Ok(existing_pods) => PreparationView::FindServerNodes {
            config,
            vocabulary,
            context,
            existing_pods,
            namespace: None,
        },
        Err(source) => PreparationView::Finish(Err(ErrorView::OperatorError { source })),
    }
}

/// The step after the nodes that fit the groups of the server role were found.
pub open spec fn after_nodes<P, N, C, M, E>(
    config: M,
    vocabulary: Vocabulary,
    context: Context,
    existing_pods: Vec<P>,
    groups: Result<RoleGroups<N>, E>,
) -> PreparationView<P, N, C, M, E> {
    match groups {
        Ok(groups) => PreparationView::ValidateConfig {
            config,
            vocabulary,
            context,
            existing_pods,
            eligible_nodes: Map::empty().insert(vocabulary.roles@.server, groups),
        },
        Err(source) => PreparationView::Finish(Err(ErrorView::OperatorError { source })),
    }
}

/// The step after the configuration of the resource was validated.
pub open spec fn after_validation<P, N, C, M, E>(
    vocabulary: Vocabulary,
    context: Context,
    existing_pods: Vec<P>,
    eligible_nodes: Map<Seq<char>, RoleGroups<N>>,
    validated_role_config: Result<C, E>,
) -> PreparationView<P, N, C, M, E> {
    PreparationView::Finish(
        match validated_role_config {
            Ok(validated_role_config) => Ok(
                StateView {
                    vocabulary,
                    context,
                    existing_pods,
                    eligible_nodes,
                    validated_role_config,
                },
            ),
            Err(source) => Err(ErrorView::OperatorError { source }),
        },
    )
}

impl<M> OpaStrategy<M> {
    /// A strategy that validates configurations with `config`.
    pub fn new(config: M) -> (res: OpaStrategy<M>)
        ensures
            *res.config == config,
    {
        OpaStrategy { config: Arc::new(config) }
    }

    /// Begins the preparation of a reconciliation of the resource `context`.
    pub fn init_reconcile_state<'a, P, N, C, E>(
        &'a self,
        vocabulary: Vocabulary,
        context: Context,
    ) -> (res: Preparation<'a, P, N, C, M, E>)
        ensures
            res@ == (PreparationView::<P, N, C, M, E>::ListOwnedPods {
                config: *self.config,
                vocabulary,
                context,
            }),
    {
        Preparation::ListOwnedPods(ListOwnedPods { config: &self.config, vocabulary, context })
    }
}

impl<'a, M> ListOwnedPods<'a, M> {
    /// What the labels of the pods to list are made from.
    pub fn common_labels(&self) -> (res: CommonLabels)
        ensures
            res.app_name@ == self.vocabulary.app_name@,
            res.instance@ == self.context.resource_name@,
    {
        CommonLabels {
            app_name: self.vocabulary.app_name.clone(),
            instance: self.context.resource_name.clone(),
        }
    }

    /// Goes on with the pods of the resource.
    pub fn answer<P, N, C, E>(self, existing_pods: Result<Vec<P>, E>) -> (res: Preparation<
        'a,
        P,
        N,
        C,
        M,
        E,
    >)
        ensures
            res@ == after_list::<P, N, C, M, E>(
                **self.config,
                self.vocabulary,
                self.context,
                existing_pods,
            ),
    {
        match existing_pods {
            Ok(existing_pods) => Preparation::FindServerNodes(
                FindServerNodes {
                    config: self.config,
                    vocabulary: self.vocabulary,
                    context: self.context,
                    existing_pods,
                    namespace: None,
                },
            ),
            Err(source) => Preparation::Finish(Err(Error::OperatorError { source })),
        }
    }
}

impl<'a, P, M> FindServerNodes<'a, P, M> {
    /// Goes on with the groups of the server role and the nodes that fit them.
    pub fn answer<N, C, E>(self, groups: Result<RoleGroups<N>, E>) -> (res: Preparation<
        'a,
        P,
        N,
        C,
        M,
        E,
    >)
        ensures
            res@ == after_nodes::<P, N, C, M, E>(
                **self.config,
                self.vocabulary,
                self.context,
                self.existing_pods,
                groups,
            ),
    {
        match groups {
            Ok(groups) => {
                let mut eligible_nodes: StringMap<RoleGroups<N>> = StringMap::new();
                eligible_nodes.insert(self.vocabulary.roles.server().clone(), groups);
                Preparation::ValidateConfig(
                    ValidateConfig {
                        config: self.config,
                        vocabulary: self.vocabulary,
                        context: self.context,
                        existing_pods: self.existing_pods,
                        eligible_nodes,
                    },
                )
            },
            Err(source) => Preparation::Finish(Err(Error::OperatorError { source })),
        }
    }
}

impl<'a, P, N, M> ValidateConfig<'a, P, N, M> {
    /// Goes on with the validated configuration of all roles.
    pub fn answer<C, E>(self, validated_role_config: Result<C, E>) -> (res: Preparation<
        'a,
        P,
        N,
        C,
        M,
        E,
    >)
        ensures
            res@ == after_validation::<P, N, C, M, E>(
                self.vocabulary,
                self.context,
                self.existing_pods,
                self.eligible_nodes.map(),
                validated_role_config,
            ),
    {
        match validated_role_config {
            Ok(validated_role_config) => Preparation::Finish(
                Ok(
                    OpaState {
                        vocabulary: self.vocabulary,
                        context: self.context,
                        existing_pods: self.existing_pods,
                        eligible_nodes: self.eligible_nodes,
                        validated_role_config,
                    },
                ),
            ),
            Err(source) => Preparation::Finish(Err(Error::OperatorError { source })),
        }
    }
}

/// What comes of a preparation from `step` on, where the cluster and the framework answer
/// `existing_pods` and `groups`, and a configuration is validated as `validation` tells for what
/// it is validated with.
pub open spec fn run<P, N, C, M, E>(
    step: PreparationView<P, N, C, M, E>,
    existing_pods: Result<Vec<P>, E>,
    groups: Result<RoleGroups<N>, E>,
    validation: spec_fn(M) -> Result<C, E>,
) -> Result<StateView<P, N, C>, ErrorView<E>>
    decreases
            (match step {
                PreparationView::ListOwnedPods { .. } => 3int,
                PreparationView::FindServerNodes { .. } => 2,
                PreparationView::ValidateConfig { .. } => 1,
                PreparationView::Finish(_) => 0,
            }),
{
    match step {
        PreparationView::ListOwnedPods { config, vocabulary, context } => run(
            after_list(config, vocabulary, context, existing_pods),
            existing_pods,
            groups,
            validation,
        ),
        PreparationView::FindServerNodes {
            config,
            vocabulary,
            context,
            existing_pods: pods,
            ..
        } => run(
            after_nodes(config, vocabulary, context, pods, groups),
            existing_pods,
            groups,
            validation,
        ),
        PreparationView::ValidateConfig {
            config,
            vocabulary,
            context,
            existing_pods: pods,
            eligible_nodes,
        } => run(
            after_validation(vocabulary, context, pods, eligible_nodes, validation(config)),
            existing_pods,
            groups,
            validation,
        ),
        PreparationView::Finish(result) => result,
    }
}

/// A preparation fails with the first failure among its answers. Else it gives the state that
/// holds them, with the groups under the server role and under no other, and with the
/// configuration as the strategy's own `config` validates it.
pub proof fn preparation_gathers_answers<P, N, C, M, E>(
    strategy: OpaStrategy<M>,
    vocabulary: Vocabulary,
    context: Context,
    existing_pods: Result<Vec<P>, E>,
    groups: Result<RoleGroups<N>, E>,
    validation: spec_fn(M) -> Result<C, E>,
)
    ensures
        run(
            PreparationView::ListOwnedPods { config: *strategy.config, vocabulary, context },
            existing_pods,
            groups,
            validation,
        ) == match (existing_pods, groups, validation(*strategy.config)) {
            (Err(source), _, _) => Err(ErrorView::OperatorError { source }),
            (_, Err(source), _) => Err(ErrorView::OperatorError { source }),
            (_, _, Err(source)) => Err(ErrorView::OperatorError { source }),
            (Ok(existing_pods), Ok(groups), Ok(validated_role_config)) => Ok(
                StateView {
                    vocabulary,
                    context,
                    existing_pods,
                    eligible_nodes: Map::empty().insert(vocabulary.roles@.server, groups),
                    validated_role_config,
                },
            ),
        },
{
    reveal_with_fuel(run, 4);
}

/// What is to be validated, and how. `T` is the configuration of a role in the resource.
pub struct ProductConfigQuery<T> {
    /// The roles, each with the kinds of properties that it is configured with.
    pub roles: StringMap<(Vec<PropertyNameKind>, T)>,
    /// The version of the product that the properties have to suit.
    pub version: String,
    /// Whether warnings pass.
    pub ignore_warn: bool,
    /// Whether errors pass.
    pub ignore_err: bool,
}

/// Asks for the validation of the configuration `servers` of the server role: the properties of
/// the configuration file and of the command line, for the version `version`.
pub fn validated_product_config<T>(vocabulary: &Vocabulary, version: &str, servers: T) -> (res:
    ProductConfigQuery<T>)
    ensures
        res.roles.map().dom() == set![vocabulary.roles@.server],
        res.roles.map()[vocabulary.roles@.server].0.deep_view() == seq![
            KindView::File(vocabulary.config_file@),
            KindView::Cli,
        ],
        res.roles.map()[vocabulary.roles@.server].1 == servers,
        res.version@ == version@,
        !res.ignore_warn,
        !res.ignore_err,
{
    let mut kinds: Vec<PropertyNameKind> = Vec::new();
    kinds.push(PropertyNameKind::File(vocabulary.config_file.clone()));
    kinds.push(PropertyNameKind::Cli);
    assert(kinds.deep_view() =~= seq![
        KindView::File(vocabulary.config_file@),
        KindView::Cli,
    ]);
    let mut roles: StringMap<(Vec<PropertyNameKind>, T)> = StringMap::new();
    roles.insert(vocabulary.roles.server().clone(), (kinds, servers));
    assert(roles.map().dom() =~= set![vocabulary.roles@.server]);
    ProductConfigQuery {
        roles,
        version: version.to_string(),
        ignore_warn: false,
        ignore_err: false,
    }
}

/// After the preparation pods are looked for in exactly the groups of the server role, in the
/// order in which they were found.
pub proof fn prepared_state_visits_servers<P, N, C>(
    state: OpaState<P, N, C>,
    groups: RoleGroups<N>,
)
    requires
        state.eligible_nodes.map() == Map::empty().insert(state.vocabulary.roles@.server, groups),
        state.vocabulary.well_formed(),
    ensures
        crate::missing_pods::visits(state) == crate::missing_pods::group_visits(
            state.vocabulary.roles@.server,
            groups@,
        ),
{
    lemma_server_visits(
        state.vocabulary.roles@.names,
        state.vocabulary.roles@.server,
        groups,
    );
}

proof fn lemma_server_visits<N>(
    roles: Seq<Seq<char>>,
    server_role: Seq<char>,
    groups: RoleGroups<N>,
)
    requires
        roles.no_duplicates(),
    ensures
        crate::missing_pods::all_visits(
            roles,
            Map::<Seq<char>, RoleGroups<N>>::empty().insert(server_role, groups),
        ) == if roles.contains(server_role) {
            crate::missing_pods::group_visits(server_role, groups@)
        } else {
            seq![]
        },
    decreases roles.len(),
{
    if roles.len() > 0 {
        let earlier = roles.drop_last();
        lemma_server_visits(earlier, server_role, groups);
        if earlier.contains(server_role) {
            let i = choose|i: int| 0 <= i < earlier.len() && earlier[i] == server_role;
            assert(roles[i] == server_role);
            assert(roles.last() != server_role);
        } else if roles.contains(server_role) {
            let i = choose|i: int| 0 <= i < roles.len() && roles[i] == server_role;
            assert(i < earlier.len() ==> earlier[i] == server_role);
            assert(roles.last() == server_role);
        } else {
            assert(roles[roles.len() - 1] != server_role);
        }
    }
}

/// Each answer of a preparation leads on with all that was gathered before it, unchanged: the pods
/// to the search for nodes in all namespaces, the groups, under the server role alone, to the
/// validation, the validated configuration to the state. A failure ends the preparation.
pub proof fn preparation_keeps_what_it_gathered<P, N, C, M, E>(
    config: M,
    vocabulary: Vocabulary,
    context: Context,
    existing_pods: Vec<P>,
    groups: RoleGroups<N>,
    eligible_nodes: Map<Seq<char>, RoleGroups<N>>,
    validated_role_config: C,
    source: E,
)
    ensures
        after_list::<P, N, C, M, E>(config, vocabulary, context, Ok(existing_pods)) == (
        PreparationView::<P, N, C, M, E>::FindServerNodes {
            config,
            vocabulary,
            context,
            existing_pods,
            namespace: None,
        }),
        after_nodes::<P, N, C, M, E>(config, vocabulary, context, existing_pods, Ok(groups)) == (
        PreparationView::<P, N, C, M, E>::ValidateConfig {
            config,
            vocabulary,
            context,
            existing_pods,
            eligible_nodes: Map::empty().insert(vocabulary.roles@.server, groups),
        }),
        after_validation::<P, N, C, M, E>(
            vocabulary,
            context,
            existing_pods,
            eligible_nodes,
            Ok(validated_role_config),
        ) == PreparationView::<P, N, C, M, E>::Finish(
            Ok(
                StateView {
                    vocabulary,
                    context,
                    existing_pods,
                    eligible_nodes,
                    validated_role_config,
                },
            ),
        ),
        ({
            let failed = PreparationView::<P, N, C, M, E>::Finish(
                Err(ErrorView::OperatorError { source }),
            );
            &&& after_list::<P, N, C, M, E>(config, vocabulary, context, Err(source)) == failed
            &&& after_nodes::<P, N, C, M, E>(
                config,
                vocabulary,
                context,
                existing_pods,
                Err(source),
            ) == failed
            &&& after_validation::<P, N, C, M, E>(
                vocabulary,
                context,
                existing_pods,
                eligible_nodes,
                Err(source),
            ) == failed
        }),
{
}

/// A step of a preparation is seen with all that was gathered before it, or with what came of it.
pub proof fn preparation_shows_what_it_gathered<P, N, C, M, E>(step: Preparation<P, N, C, M, E>)
    ensures
        match step {
            Preparation::ListOwnedPods(part) => step@ == (PreparationView::<
                P,
                N,
                C,
                M,
                E,
            >::ListOwnedPods {
                config: **part.config,
                vocabulary: part.vocabulary,
                context: part.context,
            }),
            Preparation::FindServerNodes(part) => {
                &&& step@ matches PreparationView::FindServerNodes {
                    config,
                    vocabulary,
                    context,
                    existing_pods,
                    namespace,
                }
                &&& config == **part.config
                &&& vocabulary == part.vocabulary
                &&& context == part.context
                &&& existing_pods == part.existing_pods
                &&& namespace is None <==> part.namespace is None
                &&& part.namespace matches Some(text) ==> namespace == Some(text@)
            },
            Preparation::ValidateConfig(part) => step@ == (PreparationView::<
                P,
                N,
                C,
                M,
                E,
            >::ValidateConfig {
                config: **part.config,
                vocabulary: part.vocabulary,
                context: part.context,
                existing_pods: part.existing_pods,
                eligible_nodes: crate::string_map::as_map(part.eligible_nodes@),
            }),
            Preparation::Finish(Ok(state)) => step@ == PreparationView::<P, N, C, M, E>::Finish(
                Ok(state@),
            ),
            Preparation::Finish(Err(error)) => step@ == PreparationView::<P, N, C, M, E>::Finish(
                Err(error@),
            ),
        },
{
}

} // verus!
