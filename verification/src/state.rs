//! What a reconciliation knows of the cluster.
use crate::groups::RoleGroups;
use crate::roles::Roles;
use crate::string_map::StringMap;
use vstd::prelude::*;

verus! {

/// The words that the operator shares with the custom resource of OPA and with the framework
/// that runs it.
#[derive(Debug, PartialEq, Eq)]
pub struct Vocabulary {
    /// The name of the product.
    pub app_name: String,
    /// The name of the configuration file.
    pub config_file: String,
    /// The name of the property that holds the port.
    pub port: String,
    /// The name of the property that holds the place from which the rules come.
    pub repo_rule_reference: String,
    /// The label for the role that a resource plays.
    pub component_label: String,
    /// The label for the instance that a resource belongs to.
    pub instance_label: String,
    /// The label for the version of the product.
    pub version_label: String,
    /// The label for the type of a config map.
    pub config_map_type_label: String,
    /// The roles that OPA knows.
    pub roles: Roles,
}

impl Vocabulary {
    /// Whether the roles are distinct and that of the servers is among them.
    pub open spec fn well_formed(self) -> bool {
        self.roles.well_formed()
    }
}

/// The OPA resource that is reconciled.
#[derive(Debug, PartialEq, Eq)]
pub struct Context {
    /// The name under which it is reconciled.
    pub name: String,
    /// The name that it has itself.
    pub resource_name: String,
    /// Its namespace.
    pub namespace: String,
    /// The namespace that the operator puts pods into.
    pub default_namespace: String,
    /// The version of OPA that it asks for.
    pub version: String,
}

impl Context {
    /// Whether the resource is reconciled under the name that it has itself.
    pub open spec fn has_one_name(self) -> bool {
        self.name@ == self.resource_name@
    }
}

/// What one reconciliation works on. `P` is a pod, `N` are the nodes that fit a role group
/// together with the number of replicas that it asks for, `C` is the validated configuration of
/// all roles.
pub struct OpaState<P, N, C> {
    pub vocabulary: Vocabulary,
    pub context: Context,
    /// The pods of the resource.
    pub existing_pods: Vec<P>,
    /// The groups of each role, with the nodes that fit them.
    pub eligible_nodes: StringMap<RoleGroups<N>>,
    pub validated_role_config: C,
}

/// An [`OpaState`] with the groups of each role as a map.
pub ghost struct StateView<P, N, C> {
    pub vocabulary: Vocabulary,
    pub context: Context,
    pub existing_pods: Vec<P>,
    pub eligible_nodes: Map<Seq<char>, RoleGroups<N>>,
    pub validated_role_config: C,
}

impl<P, N, C> View for OpaState<P, N, C> {
    type V = StateView<P, N, C>;

    open spec fn view(&self) -> StateView<P, N, C> {
        StateView {
            vocabulary: self.vocabulary,
            context: self.context,
            existing_pods: self.existing_pods,
            eligible_nodes: self.eligible_nodes.map(),
            validated_role_config: self.validated_role_config,
        }
    }
}

/// The values that the labels of a pod of the resource have to be among.
pub open spec fn required_labels<P, N, C>(state: OpaState<P, N, C>) -> Map<
    Seq<char>,
    Option<Seq<Seq<char>>>,
> {
    Map::empty().insert(
        state.vocabulary.component_label@,
        Some(state.vocabulary.roles@.names),
    ).insert(state.vocabulary.instance_label@, Some(seq![state.context.name@])).insert(
        state.vocabulary.version_label@,
        Some(seq![state.context.version@]),
    )
}

/// Whether no label is required by its presence alone, and none so that no value is allowed.
pub open spec fn can_be_met(labels: Map<Seq<char>, Option<Seq<Seq<char>>>>) -> bool {
    forall|label: Seq<char>| #[trigger]
        labels.contains_key(label) ==> (labels[label] matches Some(values) && values.len() > 0)
}

/// Whether a pod with the labels `labels` has all of the labels `required`, each with a value that
/// is allowed.
pub open spec fn is_legal(
    labels: Map<Seq<char>, Seq<char>>,
    required: Map<Seq<char>, Option<Seq<Seq<char>>>>,
) -> bool {
    forall|label: Seq<char>| #[trigger]
        required.contains_key(label) ==> labels.contains_key(label) && (required[label] matches Some(
            values,
        ) ==> values.contains(labels[label]))
}

/// Whether `labels` name `role` as the role, `instance` as the instance, and the version of the
/// resource.
pub open spec fn names_its_place<P, N, C>(
    state: OpaState<P, N, C>,
    labels: Map<Seq<char>, Seq<char>>,
    role: Seq<char>,
    instance: Seq<char>,
) -> bool {
    &&& labels.contains_key(state.vocabulary.component_label@)
    &&& labels[state.vocabulary.component_label@] == role
    &&& labels.contains_key(state.vocabulary.instance_label@)
    &&& labels[state.vocabulary.instance_label@] == instance
    &&& labels.contains_key(state.vocabulary.version_label@)
    &&& labels[state.vocabulary.version_label@] == state.context.version@
}

impl<P, N, C> OpaState<P, N, C> {
    /// The labels that every pod of the resource must have, with the values that are allowed: a
    /// role, the name of the resource, and its version.
    pub fn required_pod_labels(&self) -> (res: StringMap<Option<Vec<String>>>)
        ensures
            res.well_formed(),
            crate::string_map::as_map(res.deep_view()) == required_labels(*self),
            can_be_met(crate::string_map::as_map(res.deep_view())),
    {
        let names = self.vocabulary.roles.names();
        let mut roles: Vec<String> = Vec::new();
        for i in 0..names.len()
            invariant
                roles@ == names@.take(i as int),
        {
            roles.push(names[i].clone());
        }
        assert(roles.deep_view() =~= names.deep_view());
        let mut instances: Vec<String> = Vec::new();
        instances.push(self.context.name.clone());
        assert(instances.deep_view() =~= seq![self.context.name@]);
        let mut versions: Vec<String> = Vec::new();
        versions.push(self.context.version.clone());
        assert(versions.deep_view() =~= seq![self.context.version@]);

        let mut mandatory_labels: StringMap<Option<Vec<String>>> = StringMap::new();
        mandatory_labels.insert(self.vocabulary.component_label.clone(), Some(roles));
        mandatory_labels.insert(self.vocabulary.instance_label.clone(), Some(instances));
        mandatory_labels.insert(self.vocabulary.version_label.clone(), Some(versions));
        proof {
            crate::string_map::lemma_deep(mandatory_labels);
            assert(crate::string_map::as_map(mandatory_labels.deep_view()) =~= required_labels(
                *self,
            ));
            required_labels_can_be_met(*self);
        }
        mandatory_labels
    }
}

/// Every required label has a list of allowed values, and the list is not empty.
pub proof fn required_labels_can_be_met<P, N, C>(state: OpaState<P, N, C>)
    requires
        state.vocabulary.well_formed(),
    ensures
        can_be_met(required_labels(state)),
{
    let roles = state.vocabulary.roles@;
    let i = choose|i: int| 0 <= i < roles.names.len() && roles.names[i] == roles.server;
    assert(roles.names.len() > 0);
}

/// A label is required exactly if it is that of the role, of the instance or of the version. The
/// version is always required to be that of the resource; where the labels differ, so is the
/// instance to be its name, and the role to be a known one.
pub proof fn three_labels_are_required<P, N, C>(state: OpaState<P, N, C>, label: Seq<char>)
    ensures
        ({
            let required = required_labels(state);
            let component = state.vocabulary.component_label@;
            let instance = state.vocabulary.instance_label@;
            let version = state.vocabulary.version_label@;
            &&& required.contains_key(label) <==> label == component || label == instance || label
                == version
            &&& required[version] == Some(seq![state.context.version@])
            &&& instance != version ==> required[instance] == Some(seq![state.context.name@])
            &&& component != instance && component != version ==> required[component] == Some(
                state.vocabulary.roles@.names,
            )
        }),
{
}

/// Labels are legal exactly if each required label is among them, with one of its allowed values
/// where these are given.
pub proof fn legality_goes_label_by_label(
    labels: Map<Seq<char>, Seq<char>>,
    required: Map<Seq<char>, Option<Seq<Seq<char>>>>,
)
    ensures
        is_legal(labels, required) <==> forall|label: Seq<char>|
            required.contains_key(label) ==> #[trigger] labels.contains_key(label) && match required[label] {
                Some(values) => exists|i: int|
                    0 <= i < values.len() && #[trigger] values[i] == labels[label],
                None => true,
            },
{
    if is_legal(labels, required) {
        assert forall|label: Seq<char>| required.contains_key(label) implies
            #[trigger] labels.contains_key(label) && match required[label] {
            Some(values) => exists|i: int|
                0 <= i < values.len() && #[trigger] values[i] == labels[label],
            None => true,
        } by {
            if let Some(values) = required[label] {
                assert(values.contains(labels[label]));
            }
        }
    }
    if forall|label: Seq<char>|
        required.contains_key(label) ==> #[trigger] labels.contains_key(label) && match required[label] {
            Some(values) => exists|i: int|
                0 <= i < values.len() && #[trigger] values[i] == labels[label],
            None => true,
        } {
        assert forall|label: Seq<char>| #[trigger] required.contains_key(label) implies
            labels.contains_key(label) && (required[label] matches Some(values)
            ==> values.contains(labels[label])) by {
            assert(required.contains_key(label) ==> labels.contains_key(label));
        }
    }
}

/// A pod is legal only if its labels name the version of the resource and, where the three labels
/// differ, the name of the resource and a role that is known; and then it is legal.
pub proof fn legal_pods_name_their_resource<P, N, C>(
    state: OpaState<P, N, C>,
    labels: Map<Seq<char>, Seq<char>>,
)
    ensures
        ({
            let component = state.vocabulary.component_label@;
            let instance = state.vocabulary.instance_label@;
            let version = state.vocabulary.version_label@;
            let names_version = labels.contains_key(version) && labels[version]
                == state.context.version@;
            let names_instance = labels.contains_key(instance) && labels[instance]
                == state.context.name@;
            let names_role = labels.contains_key(component)
                && state.vocabulary.roles@.names.contains(labels[component]);
            &&& is_legal(labels, required_labels(state)) ==> names_version
            &&& component != instance && component != version && instance != version ==> (is_legal(
                labels,
                required_labels(state),
            ) <==> names_version && names_instance && names_role)
        }),
{
    let required = required_labels(state);
    let component = state.vocabulary.component_label@;
    let instance = state.vocabulary.instance_label@;
    let version = state.vocabulary.version_label@;
    assert(required.contains_key(component));
    assert(required.contains_key(instance));
    assert(required.contains_key(version));
    assert(seq![state.context.name@][0] == state.context.name@);
    assert(seq![state.context.version@][0] == state.context.version@);
    if is_legal(labels, required) {
        let versions = seq![state.context.version@];
        assert(versions.contains(labels[version]));
        if instance != version {
            let instances = seq![state.context.name@];
            assert(instances.contains(labels[instance]));
        }
    }
}

/// What a reconciliation works on is seen as it is, with the groups of each role as a map.
pub proof fn state_shows_its_fields<P, N, C>(state: OpaState<P, N, C>)
    ensures
        state@.vocabulary == state.vocabulary,
        state@.context == state.context,
        state@.existing_pods == state.existing_pods,
        state@.eligible_nodes == crate::string_map::as_map(state.eligible_nodes@),
        state@.validated_role_config == state.validated_role_config,
        state.context.has_one_name() <==> state.context.name@ == state.context.resource_name@,
{
}

/// The roles are in order exactly if no role stands twice and that of the servers is one of them.
pub proof fn roles_are_in_order(vocabulary: Vocabulary)
    ensures
        vocabulary.well_formed() <==> {
            let roles = vocabulary.roles@;
            &&& forall|i: int, j: int|
                0 <= i < j < roles.names.len() ==> #[trigger] roles.names[i]
                    != #[trigger] roles.names[j]
            &&& exists|i: int|
                0 <= i < roles.names.len() && #[trigger] roles.names[i] == roles.server
        },
{
    crate::roles::roles_are_distinct_names(vocabulary.roles@.names, vocabulary.roles@.server);
}

/// Labels can be met exactly if each has a list of allowed values that is not empty.
pub proof fn labels_can_be_met_one_by_one(
    labels: Map<Seq<char>, Option<Seq<Seq<char>>>>,
    label: Seq<char>,
)
    requires
        can_be_met(labels),
        labels.contains_key(label),
    ensures
        labels[label] is Some,
        labels[label]->0.len() > 0,
{
}

/// Labels name their place exactly if those of role, instance and version have the values given.
pub proof fn places_are_named_by_three_labels<P, N, C>(
    state: OpaState<P, N, C>,
    labels: Map<Seq<char>, Seq<char>>,
    role: Seq<char>,
    instance: Seq<char>,
)
    ensures
        names_its_place(state, labels, role, instance) <==> {
            &&& labels.get(state.vocabulary.component_label@) == Some(role)
            &&& labels.get(state.vocabulary.instance_label@) == Some(instance)
            &&& labels.get(state.vocabulary.version_label@) == Some(state.context.version@)
        },
{
}

} // verus!
