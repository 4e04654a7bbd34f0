//! The search for a node that a pod is missing on, and the creation of that pod.
//!
//! Each step says what is to be asked of the cluster or the framework; the answer gives the next
//! step.
use crate::action::{Delay, ReconcileFunctionAction, CREATION_DELAY_SECS};
use crate::error::{Error, ErrorView};
use crate::groups::RoleGroups;
use crate::objects::ConfigMap;
use crate::property::{KindView, Properties, RoleGroupConfig};
use crate::state::OpaState;
use crate::string_map::StringMap;
use vstd::prelude::*;

verus! {

/// A role group with the nodes that fit it.
pub ghost struct Visit<N> {
    pub role: Seq<char>,
    pub group: Seq<char>,
    pub candidates: N,
}

/// The place of a pod: a node, and the role group that it serves there.
pub ghost struct Placement {
    pub role: Seq<char>,
    pub group: Seq<char>,
    pub node_name: Seq<char>,
}

/// The groups of one role.
pub open spec fn group_visits<N>(role: Seq<char>, groups: Seq<(Seq<char>, N)>) -> Seq<Visit<N>> {
    groups.map_values(
        |group: (Seq<char>, N)| Visit { role, group: group.0, candidates: group.1 },
    )
}

/// The groups of the role `role`, if nodes were looked for in it.
pub open spec fn role_visits<N>(
    role: Seq<char>,
    eligible_nodes: Map<Seq<char>, RoleGroups<N>>,
) -> Seq<Visit<N>> {
    if eligible_nodes.contains_key(role) {
        group_visits(role, eligible_nodes[role]@)
    } else {
        seq![]
    }
}

/// The groups of all `roles`, role by role.
pub open spec fn all_visits<N>(
    roles: Seq<Seq<char>>,
    eligible_nodes: Map<Seq<char>, RoleGroups<N>>,
) -> Seq<Visit<N>>
    decreases roles.len(),
{
    if roles.len() == 0 {
        seq![]
    } else {
        all_visits(roles.drop_last(), eligible_nodes) + role_visits(roles.last(), eligible_nodes)
    }
}

/// The role groups in the order in which pods are looked for in them.
pub open spec fn visits<P, N, C>(state: OpaState<P, N, C>) -> Seq<Visit<N>> {
    all_visits(state.vocabulary.roles@.names, state.eligible_nodes.map())
}

/// What is left of a search.
pub ghost struct Search<P, N, C> {
    /// The role groups still to be looked at, beginning with the one that is looked at now.
    pub visits: Seq<Visit<N>>,
    /// The pods that there are.
    pub pods: Seq<P>,
    /// The validated configuration of all roles.
    pub validated_role_config: C,
}

/// The search through all role groups of `state`.
pub open spec fn whole_search<P, N, C>(state: OpaState<P, N, C>) -> Search<P, N, C> {
    Search {
        visits: visits(state),
        pods: state.existing_pods@,
        validated_role_config: state.validated_role_config,
    }
}

/// The first name among `nodes`, if one of them has a name.
pub open spec fn first_named(nodes: Seq<Option<Seq<char>>>) -> Option<Seq<char>>
    decreases nodes.len(),
{
    if nodes.len() == 0 {
        None
    } else if nodes[0] is Some {
        nodes[0]
    } else {
        first_named(nodes.drop_first())
    }
}

/// What is to be done next for the pods that are missing. `E` is the error of the operator
/// framework; the other types are those of [`OpaState`].
pub enum MissingPods<'a, P, N, C, E> {
    /// Find the nodes that need a pod of a role group.
    FindNodes(FindNodes<'a, P, N, C>),
    /// Fetch the validated configuration of a role group.
    FetchConfig(FetchConfig<'a, C>),
    /// Create the config maps of a role group.
    CreateConfigMaps(CreateConfigMaps<'a>),
    /// Create a pod.
    CreatePod(CreatePod<'a>),
    /// Nothing: this is what came of it.
    Finish(Result<ReconcileFunctionAction, Error<E>>),
}

/// [`MissingPods`] as a mathematical value.
pub ghost enum MissingPodsView<P, N, C, E> {
    FindNodes(Search<P, N, C>),
    FetchConfig(Placement, C),
    CreateConfigMaps(Placement, Map<KindView, Properties>),
    CreatePod(Placement, Map<KindView, Properties>, Map<Seq<char>, Option<Seq<char>>>),
    Finish(Result<ReconcileFunctionAction, ErrorView<E>>),
}

impl<'a, P, N, C, E> View for MissingPods<'a, P, N, C, E> {
    type V = MissingPodsView<P, N, C, E>;

    open spec fn view(&self) -> MissingPodsView<P, N, C, E> {
        match *self {
            MissingPods::FindNodes(step) => MissingPodsView::FindNodes(step@),
            MissingPods::FetchConfig(step) => MissingPodsView::FetchConfig(step@.0, step@.1),
            MissingPods::CreateConfigMaps(step) => MissingPodsView::CreateConfigMaps(
                step@.0,
                step@.1,
            ),
            MissingPods::CreatePod(step) => MissingPodsView::CreatePod(step@.0, step@.1, step@.2),
            MissingPods::Finish(Ok(action)) => MissingPodsView::Finish(Ok(action)),
            MissingPods::Finish(Err(error)) => MissingPodsView::Finish(Err(error@)),
        }
    }
}

/// The step that finds the nodes which need a pod of a role group.
pub struct FindNodes<'a, P, N, C> {
    visits: Vec<(&'a String, &'a (String, N))>,
    at: usize,
    pods: &'a Vec<P>,
    validated_role_config: &'a C,
}

/// The role groups in `visits` from the one at `at` on.
spec fn rest<'a, N>(visits: Seq<(&'a String, &'a (String, N))>, at: int) -> Seq<Visit<N>> {
    visits.map_values(
        |visit: (&'a String, &'a (String, N))|
            Visit { role: visit.0@, group: visit.1.0@, candidates: visit.1.1 },
    ).skip(at)
}

impl<'a, P, N, C> View for FindNodes<'a, P, N, C> {
    type V = Search<P, N, C>;

    /// What is left of the search, beginning with the role group that is looked at now.
    closed spec fn view(&self) -> Search<P, N, C> {
        Search {
            visits: rest(self.visits@, self.at as int),
            pods: self.pods@,
            validated_role_config: *self.validated_role_config,
        }
    }
}

/// The step that fetches the configuration of a role group from `validated_role_config`.
pub struct FetchConfig<'a, C> {
    pub role: &'a String,
    pub group: &'a String,
    pub node_name: String,
    pub validated_role_config: &'a C,
}

impl<'a, C> View for FetchConfig<'a, C> {
    type V = (Placement, C);

    open spec fn view(&self) -> (Placement, C) {
        (
            Placement { role: self.role@, group: self.group@, node_name: self.node_name@ },
            *self.validated_role_config,
        )
    }
}

/// The step that creates the config maps of a role group.
pub struct CreateConfigMaps<'a> {
    pub role: &'a String,
    pub group: &'a String,
    pub node_name: String,
    pub validated_config: RoleGroupConfig,
}

impl<'a> View for CreateConfigMaps<'a> {
    type V = (Placement, Map<KindView, Properties>);

    open spec fn view(&self) -> (Placement, Map<KindView, Properties>) {
        (
            Placement { role: self.role@, group: self.group@, node_name: self.node_name@ },
            self.validated_config@,
        )
    }
}

/// The step that creates a pod.
pub struct CreatePod<'a> {
    pub role: &'a String,
    pub group: &'a String,
    pub node_name: String,
    pub validated_config: RoleGroupConfig,
    pub config_maps: StringMap<ConfigMap>,
}

impl<'a> View for CreatePod<'a> {
    type V = (Placement, Map<KindView, Properties>, Map<Seq<char>, Option<Seq<char>>>);

    open spec fn view(&self) -> (
        Placement,
        Map<KindView, Properties>,
        Map<Seq<char>, Option<Seq<char>>>,
    ) {
        (
            Placement { role: self.role@, group: self.group@, node_name: self.node_name@ },
            self.validated_config@,
            crate::string_map::as_map(self.config_maps.deep_view()),
        )
    }
}

/// The step for what is left of a search.
pub open spec fn go_on<P, N, C, E>(search: Search<P, N, C>) -> MissingPodsView<P, N, C, E> {
    if search.visits.len() == 0 {
        MissingPodsView::Finish(Ok(ReconcileFunctionAction::Continue))
    } else {
        MissingPodsView::FindNodes(search)
    }
}

/// The step after `nodes` were found to need a pod of the first role group of `search`: the first
/// of them that has a name gets one; where there is none, the search goes on.
pub open spec fn after_nodes<P, N, C, E>(
    search: Search<P, N, C>,
    nodes: Seq<Option<Seq<char>>>,
) -> MissingPodsView<P, N, C, E> {
    match first_named(nodes) {
        Some(node_name) => MissingPodsView::FetchConfig(
            Placement { role: search.visits[0].role, group: search.visits[0].group, node_name },
            search.validated_role_config,
        ),
        None => go_on(Search { visits: search.visits.drop_first(), ..search }),
    }
}

/// The step after the configuration of the role group was fetched.
pub open spec fn after_config<P, N, C, E>(
    place: Placement,
    config: Result<Map<KindView, Properties>, E>,
) -> MissingPodsView<P, N, C, E> {
    match config {
        Ok(config) => MissingPodsView::CreateConfigMaps(place, config),
        Err(source) => MissingPodsView::Finish(Err(ErrorView::OperatorError { source })),
    }
}

/// The step after the config maps of the role group were created.
pub open spec fn after_config_maps<P, N, C, E>(
    place: Placement,
    config: Map<KindView, Properties>,
    config_maps: Result<Map<Seq<char>, Option<Seq<char>>>, ErrorView<E>>,
) -> MissingPodsView<P, N, C, E> {
    match config_maps {
        Ok(config_maps) => MissingPodsView::CreatePod(place, config, config_maps),
        Err(error) => MissingPodsView::Finish(Err(error)),
    }
}

/// The step after the pod was created.
pub open spec fn after_pod<P, N, C, E>(pod: Result<(), ErrorView<E>>) -> MissingPodsView<
    P,
    N,
    C,
    E,
> {
    match pod {
        Ok(_) => MissingPodsView::Finish(
            Ok(ReconcileFunctionAction::Requeue(Delay { secs: CREATION_DELAY_SECS, nanos: 0 })),
        ),
        Err(error) => MissingPodsView::Finish(Err(error)),
    }
}

impl<P, N, C> OpaState<P, N, C> {
    /// Begins the search for a pod that is missing.
    pub fn create_missing_pods<'a, E>(&'a self) -> (res: MissingPods<'a, P, N, C, E>)
        ensures
            res@ == go_on::<P, N, C, E>(whole_search(*self)),
    {
        // The iteration happens in two stages here, to accommodate the way operators think about
        // nodes and roles. The hierarchy is:
        // - Roles
        //   - Role groups for this role (user defined)
        //      - Individual nodes
        let roles = self.vocabulary.roles.names();
        let ghost names = roles.deep_view();
        let ghost eligible = self.eligible_nodes.map();
        let mut found: Vec<(&'a String, &'a (String, N))> = Vec::new();
        assert(rest(found@, 0) =~= all_visits(names.take(0), eligible));
        for i in 0..roles.len()
            invariant
                names == roles.deep_view(),
                eligible == self.eligible_nodes.map(),
                rest(found@, 0) == all_visits(names.take(i as int), eligible),
        {
            let role = &roles[i];
            let ghost before = rest(found@, 0);
            if let Some(role_groups) = self.eligible_nodes.get(role.as_str()) {
                let groups = role_groups.entries();
                let ghost walk = role_groups@;
                assert(before =~= before + group_visits(role@, walk.take(0)));
                for j in 0..groups.len()
                    invariant
                        walk == groups@.map_values(|group: (String, N)| (group.0@, group.1)),
                        rest(found@, 0) == before + group_visits(role@, walk.take(j as int)),
                {
                    let ghost so_far = rest(found@, 0);
                    found.push((role, &groups[j]));
                    proof {
                        let visit = Visit {
                            role: role@,
                            group: groups@[j as int].0@,
                            candidates: groups@[j as int].1,
                        };
                        assert(rest(found@, 0) =~= so_far.push(visit));
                        assert(group_visits(role@, walk.take(j + 1)) =~= group_visits(
                            role@,
                            walk.take(j as int),
                        ).push(visit));
                        assert(rest(found@, 0) =~= before + group_visits(role@, walk.take(j + 1)));
                    }
                }
                assert(walk.take(groups@.len() as int) =~= walk);
            }
            proof {
                assert(names.take(i + 1).drop_last() =~= names.take(i as int));
                assert(names.take(i + 1).last() == role@);
                assert(rest(found@, 0) =~= all_visits(names.take(i + 1), eligible));
            }
        }
        assert(names.take(names.len() as int) =~= names);
        look_at(found, 0, &self.existing_pods, &self.validated_role_config)
    }
}

/// The step for the role groups in `visits` from the one at `at` on.
fn look_at<'a, P, N, C, E>(
    visits: Vec<(&'a String, &'a (String, N))>,
    at: usize,
    pods: &'a Vec<P>,
    validated_role_config: &'a C,
) -> (res: MissingPods<'a, P, N, C, E>)
    requires
        at <= visits@.len(),
    ensures
        res@ == go_on::<P, N, C, E>(
            Search {
                visits: rest(visits@, at as int),
                pods: pods@,
                validated_role_config: *validated_role_config,
            },
        ),
{
    if at < visits.len() {
        MissingPods::FindNodes(FindNodes { visits, at, pods, validated_role_config })
    } else {
        MissingPods::Finish(Ok(ReconcileFunctionAction::Continue))
    }
}

impl<'a, P, N, C> FindNodes<'a, P, N, C> {
    #[verifier::type_invariant]
    spec fn well_formed(self) -> bool {
        self.at < self.visits@.len()
    }

    /// The role that the group belongs to.
    pub fn role(&self) -> (res: &'a String)
        ensures
            self@.visits.len() > 0,
            res@ == self@.visits[0].role,
    {
        proof {
            use_type_invariant(self);
        }
        self.visits[self.at].0
    }

    /// The name of the group.
    pub fn group(&self) -> (res: &'a String)
        ensures
            self@.visits.len() > 0,
            res@ == self@.visits[0].group,
    {
        proof {
            use_type_invariant(self);
        }
        &self.visits[self.at].1.0
    }

    /// The nodes that fit the group.
    pub fn candidates(&self) -> (res: &'a N)
        ensures
            self@.visits.len() > 0,
            *res == self@.visits[0].candidates,
    {
        proof {
            use_type_invariant(self);
        }
        &self.visits[self.at].1.1
    }

    /// The pods that there are.
    pub fn pods(&self) -> (res: &'a Vec<P>)
        ensures
            res@ == self@.pods,
    {
        self.pods
    }

    /// Goes on when `nodes` are the names of the nodes that need a pod of the group.
    pub fn answer<E>(self, nodes: Vec<Option<String>>) -> (res: MissingPods<'a, P, N, C, E>)
        ensures
            res@ == after_nodes::<P, N, C, E>(self@, nodes.deep_view()),
    {
        proof {
            use_type_invariant(&self);
        }
        let role = self.role();
        let group = self.group();
        let ghost names = nodes.deep_view();
        assert(names.skip(0) =~= names);
        for i in 0..nodes.len()
            invariant
                names == nodes.deep_view(),
                first_named(names) == first_named(names.skip(i as int)),
                self.well_formed(),
                role@ == self@.visits[0].role,
                group@ == self@.visits[0].group,
        {
            assert(names.skip(i as int)[0] == names[i as int]);
            assert(names.skip(i as int).drop_first() =~= names.skip(i + 1));
            // a node without a name is skipped
            if let Some(node_name) = &nodes[i] {
                return MissingPods::FetchConfig(
                    FetchConfig {
                        role,
                        group,
                        node_name: node_name.clone(),
                        validated_role_config: self.validated_role_config,
                    },
                );
            }
        }
        let ghost remaining = self@.visits;
        assert(self.at < self.visits.len());
        let visits = self.visits;
        let at = self.at + 1;
        assert(rest(visits@, at as int) =~= remaining.drop_first());
        look_at(visits, at, self.pods, self.validated_role_config)
    }
}

impl<'a, C> FetchConfig<'a, C> {
    /// Goes on with the validated configuration of the role group.
    pub fn answer<P, N, E>(self, config: Result<RoleGroupConfig, E>) -> (res: MissingPods<
        'a,
        P,
        N,
        C,
        E,
    >)
        ensures
            res@ == after_config::<P, N, C, E>(
                self@.0,
                match config {
                    Ok(config) => Ok(config@),
                    Err(source) => Err(source),
                },
            ),
    {
        match config {
            Ok(validated_config) => MissingPods::CreateConfigMaps(
                CreateConfigMaps {
                    role: self.role,
                    group: self.group,
                    node_name: self.node_name,
                    validated_config,
                },
            ),
            Err(source) => MissingPods::Finish(Err(Error::OperatorError { source })),
        }
    }
}

impl<'a> CreateConfigMaps<'a> {
    /// Goes on with the config maps of the role group.
    pub fn answer<P, N, C, E>(self, config_maps: Result<StringMap<ConfigMap>, Error<E>>) -> (res:
        MissingPods<'a, P, N, C, E>)
        ensures
            res@ == after_config_maps::<P, N, C, E>(
                self@.0,
                self@.1,
                match config_maps {
                    Ok(config_maps) => Ok(crate::string_map::as_map(config_maps.deep_view())),
                    Err(error) => Err(error@),
                },
            ),
    {
        match config_maps {
            Ok(config_maps) => MissingPods::CreatePod(
                CreatePod {
                    role: self.role,
                    group: self.group,
                    node_name: self.node_name,
                    validated_config: self.validated_config,
                    config_maps,
                },
            ),
            Err(error) => MissingPods::Finish(Err(error)),
        }
    }
}

impl<'a> CreatePod<'a> {
    /// Goes on when the pod is created, or could not be.
    pub fn answer<P, N, C, E>(self, pod: Result<(), Error<E>>) -> (res: MissingPods<
        'a,
        P,
        N,
        C,
        E,
    >)
        ensures
            res@ == after_pod::<P, N, C, E>(
                match pod {
                    Ok(_) => Ok(()),
                    Err(error) => Err(error@),
                },
            ),
    {
        match pod {
            Ok(_) => MissingPods::Finish(
                Ok(ReconcileFunctionAction::Requeue(Delay { secs: CREATION_DELAY_SECS, nanos: 0 })),
            ),
            Err(error) => MissingPods::Finish(Err(error)),
        }
    }
}

/// What the cluster and the framework answer to each question of the search.
#[verifier::reject_recursive_types(P)]
#[verifier::reject_recursive_types(N)]
#[verifier::reject_recursive_types(C)]
pub ghost struct Answers<P, N, C, E> {
    /// The nodes that need a pod of a role group, given the pods that there are.
    pub nodes: spec_fn(Visit<N>, Seq<P>) -> Seq<Option<Seq<char>>>,
    /// The configuration of a role group, from the validated configuration of all roles.
    pub config: spec_fn(Placement, C) -> Result<Map<KindView, Properties>, E>,
    /// The config maps that were created for a role group.
    pub config_maps: spec_fn(Placement, Map<KindView, Properties>) -> Result<
        Map<Seq<char>, Option<Seq<char>>>,
        ErrorView<E>,
    >,
    /// Whether a pod was created.
    pub pod: spec_fn(
        Placement,
        Map<KindView, Properties>,
        Map<Seq<char>, Option<Seq<char>>>,
    ) -> Result<(), ErrorView<E>>,
}

/// What a search asks to be created.
pub ghost enum Creation {
    /// The config maps for a pod at a place.
    ConfigMaps(Placement),
    /// The pod at a place.
    Pod(Placement),
}

/// What comes of a search: what it asked to be created, in order, and how the reconciliation goes
/// on.
pub ghost struct Outcome<E> {
    pub asked: Seq<Creation>,
    pub result: Result<ReconcileFunctionAction, ErrorView<E>>,
}

/// How many questions may still be asked in a step.
pub open spec fn questions<P, N, C, E>(step: MissingPodsView<P, N, C, E>) -> nat {
    match step {
        MissingPodsView::FindNodes(search) => 4 + search.visits.len(),
        MissingPodsView::FetchConfig(_, _) => 3,
        MissingPodsView::CreateConfigMaps(_, _) => 2,
        MissingPodsView::CreatePod(_, _, _) => 1,
        MissingPodsView::Finish(_) => 0,
    }
}

/// What comes of a search from `step` on.
pub open spec fn run<P, N, C, E>(
    step: MissingPodsView<P, N, C, E>,
    answers: Answers<P, N, C, E>,
) -> Outcome<E>
    decreases questions(step),
{
    match step {
        MissingPodsView::FindNodes(search) => if search.visits.len() == 0 {
            Outcome { asked: seq![], result: Ok(ReconcileFunctionAction::Continue) }
        } else {
            run(after_nodes(search, (answers.nodes)(search.visits[0], search.pods)), answers)
        },
        MissingPodsView::FetchConfig(place, config) => run(
            after_config(place, (answers.config)(place, config)),
            answers,
        ),
        MissingPodsView::CreateConfigMaps(place, config) => {
            let later = run(
                after_config_maps(place, config, (answers.config_maps)(place, config)),
                answers,
            );
            Outcome { asked: seq![Creation::ConfigMaps(place)] + later.asked, ..later }
        },
        MissingPodsView::CreatePod(place, config, config_maps) => {
            let later = run(after_pod((answers.pod)(place, config, config_maps)), answers);
            Outcome { asked: seq![Creation::Pod(place)] + later.asked, ..later }
        },
        MissingPodsView::Finish(result) => Outcome { asked: seq![], result },
    }
}

/// What comes of setting up the pod at `place`: its configuration is fetched from `config`, its
/// config maps are created, then the pod itself, and the reconciliation begins anew after a
/// while. The first failure ends it.
pub open spec fn set_up<P, N, C, E>(
    place: Placement,
    config: C,
    answers: Answers<P, N, C, E>,
) -> Outcome<E> {
    match (answers.config)(place, config) {
        Err(source) => Outcome {
            asked: seq![],
            result: Err(ErrorView::OperatorError { source }),
        },
        Ok(config) => match (answers.config_maps)(place, config) {
            Err(error) => Outcome {
                asked: seq![Creation::ConfigMaps(place)],
                result: Err(error),
            },
            Ok(config_maps) => Outcome {
                asked: seq![Creation::ConfigMaps(place), Creation::Pod(place)],
                result: match (answers.pod)(place, config, config_maps) {
                    Ok(_) => Ok(
                        ReconcileFunctionAction::Requeue(
                            Delay { secs: CREATION_DELAY_SECS, nanos: 0 },
                        ),
                    ),
                    Err(error) => Err(error),
                },
            },
        },
    }
}

/// Whether a named node needs a pod of the role group at `at`.
pub open spec fn needs_pod<P, N, C, E>(
    search: Search<P, N, C>,
    answers: Answers<P, N, C, E>,
    at: int,
) -> bool {
    0 <= at < search.visits.len() && first_named(
        (answers.nodes)(search.visits[at], search.pods),
    ) is Some
}

/// A search in which no node needs a pod lets the reconciliation go on and asks for nothing.
pub proof fn search_without_need<P, N, C, E>(
    state: OpaState<P, N, C>,
    answers: Answers<P, N, C, E>,
)
    requires
        forall|i: int| !#[trigger] needs_pod(whole_search(state), answers, i),
    ensures
        run(go_on::<P, N, C, E>(whole_search(state)), answers) == (Outcome::<E> {
            asked: seq![],
            result: Ok(ReconcileFunctionAction::Continue),
        }),
{
    lemma_search_empty(whole_search(state), answers);
}

proof fn lemma_search_empty<P, N, C, E>(search: Search<P, N, C>, answers: Answers<P, N, C, E>)
    requires
        forall|i: int| !#[trigger] needs_pod(search, answers, i),
    ensures
        run(go_on::<P, N, C, E>(search), answers) == (Outcome::<E> {
            asked: seq![],
            result: Ok(ReconcileFunctionAction::Continue),
        }),
    decreases search.visits.len(),
{
    if search.visits.len() > 0 {
        let rest = Search { visits: search.visits.drop_first(), ..search };
        assert(!needs_pod(search, answers, 0));
        assert forall|i: int| !#[trigger] needs_pod(rest, answers, i) by {
            assert(!needs_pod(search, answers, i + 1));
        }
        lemma_search_empty(rest, answers);
    }
}

/// A search sets up one pod: on the first named node that needs one, in the first role group
/// that has such a node.
pub proof fn search_takes_first_need<P, N, C, E>(
    state: OpaState<P, N, C>,
    answers: Answers<P, N, C, E>,
    at: int,
)
    requires
        needs_pod(whole_search(state), answers, at),
        forall|i: int| 0 <= i < at ==> !#[trigger] needs_pod(whole_search(state), answers, i),
    ensures
        run(go_on::<P, N, C, E>(whole_search(state)), answers) == set_up(
            Placement {
                role: visits(state)[at].role,
                group: visits(state)[at].group,
                node_name: first_named(
                    (answers.nodes)(visits(state)[at], state.existing_pods@),
                )->0,
            },
            state.validated_role_config,
            answers,
        ),
{
    lemma_search_first(whole_search(state), answers, at);
}

proof fn lemma_search_first<P, N, C, E>(
    search: Search<P, N, C>,
    answers: Answers<P, N, C, E>,
    at: int,
)
    requires
        needs_pod(search, answers, at),
        forall|i: int| 0 <= i < at ==> !#[trigger] needs_pod(search, answers, i),
    ensures
        run(go_on::<P, N, C, E>(search), answers) == set_up(
            Placement {
                role: search.visits[at].role,
                group: search.visits[at].group,
                node_name: first_named((answers.nodes)(search.visits[at], search.pods))->0,
            },
            search.validated_role_config,
            answers,
        ),
    decreases at,
{
    if at == 0 {
        let place = Placement {
            role: search.visits[0].role,
            group: search.visits[0].group,
            node_name: first_named((answers.nodes)(search.visits[0], search.pods))->0,
        };
        lemma_set_up(place, search.validated_role_config, answers);
    } else {
        let rest = Search { visits: search.visits.drop_first(), ..search };
        assert(!needs_pod(search, answers, 0));
        assert forall|i: int| 0 <= i < at - 1 implies !#[trigger] needs_pod(rest, answers, i) by {
            assert(!needs_pod(search, answers, i + 1));
        }
        lemma_search_first(rest, answers, at - 1);
    }
}

proof fn lemma_set_up<P, N, C, E>(place: Placement, config: C, answers: Answers<P, N, C, E>)
    ensures
        run(MissingPodsView::FetchConfig(place, config), answers) == set_up(
            place,
            config,
            answers,
        ),
{
    reveal_with_fuel(run, 4);
    let outcome = run(MissingPodsView::FetchConfig(place, config), answers);
    assert(outcome.asked =~= set_up(place, config, answers).asked);
}

/// A search asks for the config maps of one place at most, and for a pod only after them and at
/// the same place. One that succeeds either asked for nothing and lets the reconciliation go on,
/// or asked for both and has it begin anew after a while.
pub proof fn search_asks_for_one_pod<P, N, C, E>(
    state: OpaState<P, N, C>,
    answers: Answers<P, N, C, E>,
)
    ensures
        ({
            let outcome = run(go_on::<P, N, C, E>(whole_search(state)), answers);
            &&& outcome.asked.len() <= 2
            &&& outcome.asked.len() > 0 ==> outcome.asked[0] is ConfigMaps
            &&& outcome.asked.len() > 1 ==> outcome.asked[1] == Creation::Pod(
                outcome.asked[0]->ConfigMaps_0,
            )
            &&& outcome.result matches Ok(action) ==> {
                ||| outcome.asked.len() == 0 && action == ReconcileFunctionAction::Continue
                ||| outcome.asked.len() == 2 && action == ReconcileFunctionAction::Requeue(
                    Delay { secs: CREATION_DELAY_SECS, nanos: 0 },
                )
            }
        }),
{
    let search = whole_search(state);
    if exists|i: int| #[trigger] needs_pod(search, answers, i) {
        let at = lemma_first_need(
            search,
            answers,
            choose|i: int| #[trigger] needs_pod(search, answers, i),
        );
        search_takes_first_need(state, answers, at);
    } else {
        search_without_need(state, answers);
    }
}

/// Of the role groups that need a pod one is the first.
proof fn lemma_first_need<P, N, C, E>(
    search: Search<P, N, C>,
    answers: Answers<P, N, C, E>,
    found: int,
) -> (first: int)
    requires
        needs_pod(search, answers, found),
    ensures
        needs_pod(search, answers, first),
        forall|i: int| 0 <= i < first ==> !#[trigger] needs_pod(search, answers, i),
    decreases found,
{
    if exists|i: int| 0 <= i < found && #[trigger] needs_pod(search, answers, i) {
        lemma_first_need(
            search,
            answers,
            choose|i: int| 0 <= i < found && #[trigger] needs_pod(search, answers, i),
        )
    } else {
        found
    }
}

/// Pods are looked for in groups of known roles alone.
pub proof fn visited_roles_are_known<P, N, C>(state: OpaState<P, N, C>, i: int)
    requires
        0 <= i < visits(state).len(),
    ensures
        state.vocabulary.roles@.names.contains(visits(state)[i].role),
{
    lemma_visited_roles(state.vocabulary.roles@.names, state.eligible_nodes.map());
}

proof fn lemma_visited_roles<N>(
    roles: Seq<Seq<char>>,
    eligible_nodes: Map<Seq<char>, RoleGroups<N>>,
)
    ensures
        forall|i: int|
            0 <= i < all_visits(roles, eligible_nodes).len() ==> roles.contains(
                (#[trigger] all_visits(roles, eligible_nodes)[i]).role,
            ),
    decreases roles.len(),
{
    if roles.len() > 0 {
        let earlier = roles.drop_last();
        let before = all_visits(earlier, eligible_nodes);
        let visits = all_visits(roles, eligible_nodes);
        lemma_visited_roles(earlier, eligible_nodes);
        assert forall|i: int| 0 <= i < visits.len() implies roles.contains(
            (#[trigger] visits[i]).role,
        ) by {
            if i < before.len() {
                assert(earlier.contains(before[i].role));
                let k = choose|k: int| 0 <= k < earlier.len() && earlier[k] == before[i].role;
                assert(roles[k] == visits[i].role);
            } else {
                assert(roles[roles.len() - 1] == visits[i].role);
            }
        }
    }
}

/// No group of a role is looked at twice.
pub proof fn no_group_is_visited_twice<P, N, C>(state: OpaState<P, N, C>, i: int, j: int)
    requires
        state.vocabulary.well_formed(),
        forall|role: Seq<char>| #[trigger]
            state.eligible_nodes.map().contains_key(role)
                ==> state.eligible_nodes.map()[role].well_formed(),
        0 <= i < j < visits(state).len(),
    ensures
        visits(state)[i].role != visits(state)[j].role || visits(state)[i].group != visits(
            state,
        )[j].group,
{
    lemma_distinct_visits(state.vocabulary.roles@.names, state.eligible_nodes.map());
}

proof fn lemma_distinct_visits<N>(
    roles: Seq<Seq<char>>,
    eligible_nodes: Map<Seq<char>, RoleGroups<N>>,
)
    requires
        roles.no_duplicates(),
        forall|role: Seq<char>| #[trigger]
            eligible_nodes.contains_key(role) ==> eligible_nodes[role].well_formed(),
    ensures
        ({
            let visits = all_visits(roles, eligible_nodes);
            forall|i: int, j: int|
                0 <= i < j < visits.len() ==> (#[trigger] visits[i]).role != (
                #[trigger] visits[j]).role || visits[i].group != visits[j].group
        }),
    decreases roles.len(),
{
    if roles.len() > 0 {
        let earlier = roles.drop_last();
        let role = roles.last();
        let before = all_visits(earlier, eligible_nodes);
        let here = role_visits(role, eligible_nodes);
        let visits = all_visits(roles, eligible_nodes);
        lemma_distinct_visits(earlier, eligible_nodes);
        lemma_visited_roles(earlier, eligible_nodes);
        assert(visits == before + here);
        assert(!earlier.contains(role)) by {
            if earlier.contains(role) {
                let k = choose|k: int| 0 <= k < earlier.len() && earlier[k] == role;
                assert(roles[k] == roles[roles.len() - 1]);
            }
        }
        assert forall|i: int, j: int| 0 <= i < j < visits.len() implies (#[trigger] visits[i]).role
            != (#[trigger] visits[j]).role || visits[i].group != visits[j].group by {
            if j < before.len() {
                assert(visits[i] == before[i] && visits[j] == before[j]);
            } else if i < before.len() {
                assert(earlier.contains(before[i].role));
                assert(visits[j] == here[j - before.len()]);
            } else {
                let groups = eligible_nodes[role]@;
                assert(eligible_nodes.contains_key(role));
                assert(visits[i] == here[i - before.len()]);
                assert(visits[j] == here[j - before.len()]);
                assert(groups[i - before.len()].0 != groups[j - before.len()].0);
            }
        }
    }
}

/// Every group of every known role in which nodes were looked for is visited, with the nodes that
/// fit it.
pub proof fn every_group_is_visited<P, N, C>(state: OpaState<P, N, C>, role: Seq<char>, k: int)
    requires
        state.vocabulary.roles@.names.contains(role),
        state.eligible_nodes.map().contains_key(role),
        0 <= k < state.eligible_nodes.map()[role]@.len(),
    ensures
        exists|i: int|
            0 <= i < visits(state).len() && #[trigger] visits(state)[i] == (Visit {
                role,
                group: state.eligible_nodes.map()[role]@[k].0,
                candidates: state.eligible_nodes.map()[role]@[k].1,
            }),
{
    let roles = state.vocabulary.roles@.names;
    let eligible_nodes = state.eligible_nodes.map();
    lemma_group_is_visited(roles, eligible_nodes, role, k);
    let i = choose|i: int|
        0 <= i < all_visits(roles, eligible_nodes).len() && #[trigger] all_visits(
            roles,
            eligible_nodes,
        )[i] == (Visit {
            role,
            group: eligible_nodes[role]@[k].0,
            candidates: eligible_nodes[role]@[k].1,
        });
    assert(visits(state)[i].role == role);
}

proof fn lemma_group_is_visited<N>(
    roles: Seq<Seq<char>>,
    eligible_nodes: Map<Seq<char>, RoleGroups<N>>,
    role: Seq<char>,
    k: int,
)
    requires
        roles.contains(role),
        eligible_nodes.contains_key(role),
        0 <= k < eligible_nodes[role]@.len(),
    ensures
        exists|i: int|
            0 <= i < all_visits(roles, eligible_nodes).len() && #[trigger] all_visits(
                roles,
                eligible_nodes,
            )[i] == (Visit {
                role,
                group: eligible_nodes[role]@[k].0,
                candidates: eligible_nodes[role]@[k].1,
            }),
    decreases roles.len(),
{
    let earlier = roles.drop_last();
    let before = all_visits(earlier, eligible_nodes);
    let all = all_visits(roles, eligible_nodes);
    let wanted = Visit {
        role,
        group: eligible_nodes[role]@[k].0,
        candidates: eligible_nodes[role]@[k].1,
    };
    if roles.last() == role {
        assert(role_visits(role, eligible_nodes)[k] == wanted);
        assert(all[before.len() + k] == wanted);
    } else {
        let a = choose|a: int| 0 <= a < roles.len() && roles[a] == role;
        assert(earlier[a] == role);
        lemma_group_is_visited(earlier, eligible_nodes, role, k);
        let i = choose|i: int| 0 <= i < before.len() && #[trigger] before[i] == wanted;
        assert(all[i] == wanted);
    }
}

/// Nothing but groups of known roles is visited: role by role in the order of the roles, and the
/// groups of a role in the order in which they are walked.
pub proof fn visits_keep_the_order<P, N, C>(state: OpaState<P, N, C>, i: int, j: int)
    requires
        0 <= i < j < visits(state).len(),
    ensures
        ({
            let names = state.vocabulary.roles@.names;
            let eligible = state.eligible_nodes.map();
            exists|a: int, b: int, k: int, l: int|
                #![trigger eligible[names[a]]@[k], eligible[names[b]]@[l]]
                {
                    &&& 0 <= a <= b < names.len()
                    &&& eligible.contains_key(names[a])
                    &&& eligible.contains_key(names[b])
                    &&& 0 <= k < eligible[names[a]]@.len()
                    &&& 0 <= l < eligible[names[b]]@.len()
                    &&& a == b ==> k < l
                    &&& visits(state)[i] == (Visit {
                        role: names[a],
                        group: eligible[names[a]]@[k].0,
                        candidates: eligible[names[a]]@[k].1,
                    })
                    &&& visits(state)[j] == (Visit {
                        role: names[b],
                        group: eligible[names[b]]@[l].0,
                        candidates: eligible[names[b]]@[l].1,
                    })
                }
        }),
{
    let names = state.vocabulary.roles@.names;
    let eligible = state.eligible_nodes.map();
    let (a, b, k, l) = lemma_order_of_visits(names, eligible, i, j);
    let first = eligible[names[a]]@[k];
    let second = eligible[names[b]]@[l];
    assert(visits(state)[i].group == first.0);
    assert(visits(state)[j].group == second.0);
}

proof fn lemma_place_of_visit<N>(
    roles: Seq<Seq<char>>,
    eligible_nodes: Map<Seq<char>, RoleGroups<N>>,
    i: int,
) -> (place: (int, int))
    requires
        0 <= i < all_visits(roles, eligible_nodes).len(),
    ensures
        0 <= place.0 < roles.len(),
        eligible_nodes.contains_key(roles[place.0]),
        0 <= place.1 < eligible_nodes[roles[place.0]]@.len(),
        all_visits(roles, eligible_nodes)[i] == (Visit {
            role: roles[place.0],
            group: eligible_nodes[roles[place.0]]@[place.1].0,
            candidates: eligible_nodes[roles[place.0]]@[place.1].1,
        }),
    decreases roles.len(),
{
    let earlier = roles.drop_last();
    let before = all_visits(earlier, eligible_nodes);
    if i < before.len() {
        let (a, k) = lemma_place_of_visit(earlier, eligible_nodes, i);
        assert(earlier[a] == roles[a]);
        assert(all_visits(roles, eligible_nodes)[i] == before[i]);
        (a, k)
    } else {
        (roles.len() - 1, i - before.len())
    }
}

proof fn lemma_order_of_visits<N>(
    roles: Seq<Seq<char>>,
    eligible_nodes: Map<Seq<char>, RoleGroups<N>>,
    i: int,
    j: int,
) -> (places: (int, int, int, int))
    requires
        0 <= i < j < all_visits(roles, eligible_nodes).len(),
    ensures
        ({
            let (a, b, k, l) = places;
            &&& 0 <= a <= b < roles.len()
            &&& eligible_nodes.contains_key(roles[a])
            &&& eligible_nodes.contains_key(roles[b])
            &&& 0 <= k < eligible_nodes[roles[a]]@.len()
            &&& 0 <= l < eligible_nodes[roles[b]]@.len()
            &&& a == b ==> k < l
            &&& all_visits(roles, eligible_nodes)[i] == (Visit {
                role: roles[a],
                group: eligible_nodes[roles[a]]@[k].0,
                candidates: eligible_nodes[roles[a]]@[k].1,
            })
            &&& all_visits(roles, eligible_nodes)[j] == (Visit {
                role: roles[b],
                group: eligible_nodes[roles[b]]@[l].0,
                candidates: eligible_nodes[roles[b]]@[l].1,
            })
        }),
    decreases roles.len(),
{
    let earlier = roles.drop_last();
    let before = all_visits(earlier, eligible_nodes);
    let all = all_visits(roles, eligible_nodes);
    let last = roles.len() - 1;
    if j < before.len() {
        let (a, b, k, l) = lemma_order_of_visits(earlier, eligible_nodes, i, j);
        assert(earlier[a] == roles[a] && earlier[b] == roles[b]);
        assert(all[i] == before[i] && all[j] == before[j]);
        (a, b, k, l)
    } else if i < before.len() {
        let (a, k) = lemma_place_of_visit(earlier, eligible_nodes, i);
        assert(earlier[a] == roles[a]);
        assert(all[i] == before[i]);
        (a, last, k, j - before.len())
    } else {
        (last, last, i - before.len(), j - before.len())
    }
}

/// As many groups are visited as the known roles have in all.
pub proof fn visits_are_as_many_as_groups<P, N, C>(
    state: OpaState<P, N, C>,
    groups_of: spec_fn(int, Seq<char>) -> int,
)
    requires
        forall|sum: int, role: Seq<char>| #[trigger]
            groups_of(sum, role) == sum + if state.eligible_nodes.map().contains_key(role) {
                state.eligible_nodes.map()[role]@.len()
            } else {
                0
            },
    ensures
        visits(state).len() == state.vocabulary.roles@.names.fold_left(0int, groups_of),
{
    lemma_number_of_visits(
        state.vocabulary.roles@.names,
        state.eligible_nodes.map(),
        groups_of,
    );
}

proof fn lemma_number_of_visits<N>(
    roles: Seq<Seq<char>>,
    eligible_nodes: Map<Seq<char>, RoleGroups<N>>,
    groups_of: spec_fn(int, Seq<char>) -> int,
)
    requires
        forall|sum: int, role: Seq<char>| #[trigger]
            groups_of(sum, role) == sum + if eligible_nodes.contains_key(role) {
                eligible_nodes[role]@.len()
            } else {
                0
            },
    ensures
        all_visits(roles, eligible_nodes).len() == roles.fold_left(0int, groups_of),
    decreases roles.len(),
{
    if roles.len() > 0 {
        lemma_number_of_visits(roles.drop_last(), eligible_nodes, groups_of);
    }
}

/// The first name among nodes is that of a node before which no node has a name; there is none
/// exactly if no node has a name.
pub proof fn first_name_has_none_before(nodes: Seq<Option<Seq<char>>>, name: Seq<char>)
    ensures
        first_named(nodes) == Some(name) <==> exists|i: int|
            0 <= i < nodes.len() && #[trigger] nodes[i] == Some(name) && forall|j: int|
                0 <= j < i ==> #[trigger] nodes[j] is None,
        first_named(nodes) is None <==> forall|i: int|
            0 <= i < nodes.len() ==> #[trigger] nodes[i] is None,
    decreases nodes.len(),
{
    if nodes.len() > 0 && nodes[0] is None {
        let rest = nodes.drop_first();
        first_name_has_none_before(rest, name);
        if first_named(rest) == Some(name) {
            let i = choose|i: int|
                0 <= i < rest.len() && #[trigger] rest[i] == Some(name) && forall|j: int|
                    0 <= j < i ==> #[trigger] rest[j] is None;
            assert(nodes[i + 1] == Some(name));
            assert forall|j: int| 0 <= j < i + 1 implies #[trigger] nodes[j] is None by {
                assert(j > 0 ==> rest[j - 1] == nodes[j]);
            }
        }
        if exists|i: int|
            0 <= i < nodes.len() && #[trigger] nodes[i] == Some(name) && forall|j: int|
                0 <= j < i ==> #[trigger] nodes[j] is None {
            let i = choose|i: int|
                0 <= i < nodes.len() && #[trigger] nodes[i] == Some(name) && forall|j: int|
                    0 <= j < i ==> #[trigger] nodes[j] is None;
            assert(rest[i - 1] == Some(name));
            assert forall|j: int| 0 <= j < i - 1 implies #[trigger] rest[j] is None by {
                assert(nodes[j + 1] is None);
            }
        }
        if forall|i: int| 0 <= i < rest.len() ==> #[trigger] rest[i] is None {
            assert forall|i: int| 0 <= i < nodes.len() implies #[trigger] nodes[i] is None by {
                assert(i > 0 ==> rest[i - 1] == nodes[i]);
            }
        }
        if forall|i: int| 0 <= i < nodes.len() ==> #[trigger] nodes[i] is None {
            assert forall|i: int| 0 <= i < rest.len() implies #[trigger] rest[i] is None by {
                assert(nodes[i + 1] is None);
            }
        }
    } else if nodes.len() > 0 {
        assert(nodes[0] is Some);
        if nodes[0] == Some(name) {
            assert(forall|j: int| 0 <= j < 0 ==> #[trigger] nodes[j] is None);
        }
    }
}

/// A search begins with all visits, the pods that there are and the validated configuration, and
/// is over exactly if nothing is left to visit.
pub proof fn search_begins_with_everything<P, N, C, E>(state: OpaState<P, N, C>)
    ensures
        whole_search(state).visits == visits(state),
        whole_search(state).pods == state.existing_pods@,
        whole_search(state).validated_role_config == state.validated_role_config,
        visits(state).len() == 0 ==> go_on::<P, N, C, E>(whole_search(state))
            == MissingPodsView::<P, N, C, E>::Finish(Ok(ReconcileFunctionAction::Continue)),
        visits(state).len() > 0 ==> go_on::<P, N, C, E>(whole_search(state))
            == MissingPodsView::<P, N, C, E>::FindNodes(whole_search(state)),
{
}

/// Where a node that needs a pod has a name, the first such node is set up in the role group that
/// is looked at. Where none has, the next role group is looked at, and after the last one the
/// reconciliation goes on.
pub proof fn nodes_decide_on_the_next_step<P, N, C, E>(
    search: Search<P, N, C>,
    nodes: Seq<Option<Seq<char>>>,
    at: int,
)
    requires
        search.visits.len() > 0,
    ensures
        ({
            let next = after_nodes::<P, N, C, E>(search, nodes);
            &&& 0 <= at < nodes.len() && nodes[at] is Some && (forall|i: int|
                0 <= i < at ==> #[trigger] nodes[i] is None) ==> next == MissingPodsView::<
                P,
                N,
                C,
                E,
            >::FetchConfig(
                Placement {
                    role: search.visits[0].role,
                    group: search.visits[0].group,
                    node_name: nodes[at]->0,
                },
                search.validated_role_config,
            )
            &&& (forall|i: int| 0 <= i < nodes.len() ==> #[trigger] nodes[i] is None) ==> {
                &&& search.visits.len() == 1 ==> next == MissingPodsView::<P, N, C, E>::Finish(
                    Ok(ReconcileFunctionAction::Continue),
                )
                &&& search.visits.len() > 1 ==> next == MissingPodsView::<P, N, C, E>::FindNodes(
                    Search {
                        visits: search.visits.skip(1),
                        pods: search.pods,
                        validated_role_config: search.validated_role_config,
                    },
                )
            }
        }),
{
    assert(search.visits.drop_first() =~= search.visits.skip(1));
    if 0 <= at < nodes.len() && nodes[at] is Some {
        first_name_has_none_before(nodes, nodes[at]->0);
    } else {
        first_name_has_none_before(nodes, seq![]);
    }
}

/// Each answer while a pod is set up leads on for the same place: from the configuration to the
/// config maps, from these to the pod, from that to a new beginning in ten seconds. A failure ends
/// the search with its error.
pub proof fn answers_lead_on<P, N, C, E>(
    place: Placement,
    config: Map<KindView, Properties>,
    config_maps: Map<Seq<char>, Option<Seq<char>>>,
    source: E,
    error: ErrorView<E>,
)
    ensures
        after_config::<P, N, C, E>(place, Ok(config)) == MissingPodsView::<
            P,
            N,
            C,
            E,
        >::CreateConfigMaps(place, config),
        after_config::<P, N, C, E>(place, Err(source)) == MissingPodsView::<P, N, C, E>::Finish(
            Err(ErrorView::OperatorError { source }),
        ),
        after_config_maps::<P, N, C, E>(place, config, Ok(config_maps)) == MissingPodsView::<
            P,
            N,
            C,
            E,
        >::CreatePod(place, config, config_maps),
        after_config_maps::<P, N, C, E>(place, config, Err(error)) == MissingPodsView::<
            P,
            N,
            C,
            E,
        >::Finish(Err(error)),
        after_pod::<P, N, C, E>(Ok(())) == MissingPodsView::<P, N, C, E>::Finish(
            Ok(ReconcileFunctionAction::Requeue(Delay { secs: 10, nanos: 0 })),
        ),
        after_pod::<P, N, C, E>(Err(error)) == MissingPodsView::<P, N, C, E>::Finish(Err(error)),
{
}

/// Each step is seen with the role, the group and the node that it names, and with what it works
/// on.
pub proof fn steps_show_their_place<P, N, C, E>(
    fetch: FetchConfig<C>,
    config_maps: CreateConfigMaps,
    pod: CreatePod,
    step: MissingPods<P, N, C, E>,
)
    ensures
        fetch@.0.role == fetch.role@,
        fetch@.0.group == fetch.group@,
        fetch@.0.node_name == fetch.node_name@,
        fetch@.1 == *fetch.validated_role_config,
        config_maps@.0.role == config_maps.role@,
        config_maps@.0.group == config_maps.group@,
        config_maps@.0.node_name == config_maps.node_name@,
        config_maps@.1 == config_maps.validated_config@,
        pod@.0.role == pod.role@,
        pod@.0.group == pod.group@,
        pod@.0.node_name == pod.node_name@,
        pod@.1 == pod.validated_config@,
        pod@.2 == crate::string_map::as_map(pod.config_maps.deep_view()),
        match step {
            MissingPods::FindNodes(part) => step@ == MissingPodsView::<P, N, C, E>::FindNodes(
                part@,
            ),
            MissingPods::FetchConfig(part) => step@ == MissingPodsView::<P, N, C, E>::FetchConfig(
                part@.0,
                part@.1,
            ),
            MissingPods::CreateConfigMaps(part) => step@ == MissingPodsView::<
                P,
                N,
                C,
                E,
            >::CreateConfigMaps(part@.0, part@.1),
            MissingPods::CreatePod(part) => step@ == MissingPodsView::<P, N, C, E>::CreatePod(
                part@.0,
                part@.1,
                part@.2,
            ),
            MissingPods::Finish(Ok(action)) => step@ == MissingPodsView::<P, N, C, E>::Finish(
                Ok(action),
            ),
            MissingPods::Finish(Err(error)) => step@ == MissingPodsView::<P, N, C, E>::Finish(
                Err(error@),
            ),
        },
{
}

} // verus!
