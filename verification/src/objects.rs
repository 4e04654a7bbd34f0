//! The Kubernetes objects that the operator asks for, and the questions that it puts to the
//! framework on the way.
use crate::string_map::StringMap;
use vstd::prelude::*;

verus! {

/// An environment variable.
#[derive(Debug, PartialEq, Eq)]
pub struct EnvVar {
    pub name: String,
    pub value: Option<String>,
}

/// An [`EnvVar`] as a mathematical value.
pub ghost struct EnvVarView {
    pub name: Seq<char>,
    pub value: Option<Seq<char>>,
}

impl DeepView for EnvVar {
    type V = EnvVarView;

    open spec fn deep_view(&self) -> EnvVarView {
        EnvVarView { name: self.name@, value: self.value.deep_view() }
    }
}

/// A port that a container listens on.
#[derive(Debug, PartialEq, Eq)]
pub struct ContainerPort {
    pub container_port: u16,
    pub name: String,
}

/// A [`ContainerPort`] as a mathematical value.
pub ghost struct ContainerPortView {
    pub container_port: int,
    pub name: Seq<char>,
}

impl DeepView for ContainerPort {
    type V = ContainerPortView;

    open spec fn deep_view(&self) -> ContainerPortView {
        ContainerPortView { container_port: self.container_port as int, name: self.name@ }
    }
}

/// A config map that a container finds as files under a path.
#[derive(Debug, PartialEq, Eq)]
pub struct ConfigMapVolume {
    pub config_map_name: String,
    pub mount_path: String,
}

/// A [`ConfigMapVolume`] as a mathematical value.
pub ghost struct ConfigMapVolumeView {
    pub config_map_name: Seq<char>,
    pub mount_path: Seq<char>,
}

impl DeepView for ConfigMapVolume {
    type V = ConfigMapVolumeView;

    open spec fn deep_view(&self) -> ConfigMapVolumeView {
        ConfigMapVolumeView {
            config_map_name: self.config_map_name@,
            mount_path: self.mount_path@,
        }
    }
}

/// A container.
#[derive(Debug, PartialEq, Eq)]
pub struct Container {
    pub name: String,
    pub image: String,
    pub command: Vec<String>,
    pub env: Vec<EnvVar>,
    pub config_map_volumes: Vec<ConfigMapVolume>,
    pub ports: Vec<ContainerPort>,
}

/// A [`Container`] as a mathematical value.
pub ghost struct ContainerView {
    pub name: Seq<char>,
    pub image: Seq<char>,
    pub command: Seq<Seq<char>>,
    pub env: Seq<EnvVarView>,
    pub config_map_volumes: Seq<ConfigMapVolumeView>,
    pub ports: Seq<ContainerPortView>,
}

impl DeepView for Container {
    type V = ContainerView;

    open spec fn deep_view(&self) -> ContainerView {
        ContainerView {
            name: self.name@,
            image: self.image@,
            command: self.command.deep_view(),
            env: self.env.deep_view(),
            config_map_volumes: self.config_map_volumes.deep_view(),
            ports: self.ports.deep_view(),
        }
    }
}

/// A pod to create. Its name begins with `generate_name`, it is owned by the OPA resource, and it
/// runs on the node `node_name`.
pub struct Pod {
    pub generate_name: String,
    pub namespace: String,
    pub labels: StringMap<String>,
    pub annotations: StringMap<String>,
    /// Whether the OPA resource stays until the pod is gone.
    pub block_owner_deletion: Option<bool>,
    /// Whether the OPA resource is the controller of the pod.
    pub controller: Option<bool>,
    pub container: Container,
    pub node_name: String,
}

/// A [`Pod`] as a mathematical value.
pub ghost struct PodView {
    pub generate_name: Seq<char>,
    pub namespace: Seq<char>,
    pub labels: Map<Seq<char>, Seq<char>>,
    pub annotations: Map<Seq<char>, Seq<char>>,
    pub block_owner_deletion: Option<bool>,
    pub controller: Option<bool>,
    pub container: ContainerView,
    pub node_name: Seq<char>,
}

impl DeepView for Pod {
    type V = PodView;

    open spec fn deep_view(&self) -> PodView {
        PodView {
            generate_name: self.generate_name@,
            namespace: self.namespace@,
            labels: crate::string_map::texts(self.labels),
            annotations: crate::string_map::texts(self.annotations),
            block_owner_deletion: self.block_owner_deletion,
            controller: self.controller,
            container: self.container.deep_view(),
            node_name: self.node_name@,
        }
    }
}

/// A config map to create. It is owned by the OPA resource.
pub struct NewConfigMap {
    pub name: String,
    pub namespace: String,
    pub labels: StringMap<String>,
    pub data: StringMap<String>,
}

/// A [`NewConfigMap`] as a mathematical value.
pub ghost struct NewConfigMapView {
    pub name: Seq<char>,
    pub namespace: Seq<char>,
    pub labels: Map<Seq<char>, Seq<char>>,
    pub data: Map<Seq<char>, Seq<char>>,
}

impl DeepView for NewConfigMap {
    type V = NewConfigMapView;

    open spec fn deep_view(&self) -> NewConfigMapView {
        NewConfigMapView {
            name: self.name@,
            namespace: self.namespace@,
            labels: crate::string_map::texts(self.labels),
            data: crate::string_map::texts(self.data),
        }
    }
}

/// A config map that stands in the cluster.
#[derive(Debug, PartialEq, Eq)]
pub struct ConfigMap {
    /// The name that its metadata gives.
    pub name: Option<String>,
}

impl DeepView for ConfigMap {
    type V = Option<Seq<char>>;

    open spec fn deep_view(&self) -> Option<Seq<char>> {
        self.name.deep_view()
    }
}

/// The parts that the name of a resource is built from.
#[derive(Debug, PartialEq, Eq)]
pub struct ResourceName {
    pub application: String,
    pub instance: String,
    pub role: String,
    pub group: Option<String>,
    pub node: Option<String>,
    pub suffix: Option<String>,
}

/// A [`ResourceName`] as a mathematical value.
pub ghost struct ResourceNameView {
    pub application: Seq<char>,
    pub instance: Seq<char>,
    pub role: Seq<char>,
    pub group: Option<Seq<char>>,
    pub node: Option<Seq<char>>,
    pub suffix: Option<Seq<char>>,
}

impl DeepView for ResourceName {
    type V = ResourceNameView;

    open spec fn deep_view(&self) -> ResourceNameView {
        ResourceNameView {
            application: self.application@,
            instance: self.instance@,
            role: self.role@,
            group: self.group.deep_view(),
            node: self.node.deep_view(),
            suffix: self.suffix.deep_view(),
        }
    }
}

/// What the recommended labels of a resource are made from, besides the OPA resource itself.
#[derive(Debug, PartialEq, Eq)]
pub struct RecommendedLabels {
    pub app_name: String,
    pub version: String,
    pub role: String,
    pub group: String,
}

/// [`RecommendedLabels`] as a mathematical value.
pub ghost struct RecommendedLabelsView {
    pub app_name: Seq<char>,
    pub version: Seq<char>,
    pub role: Seq<char>,
    pub group: Seq<char>,
}

impl DeepView for RecommendedLabels {
    type V = RecommendedLabelsView;

    open spec fn deep_view(&self) -> RecommendedLabelsView {
        RecommendedLabelsView {
            app_name: self.app_name@,
            version: self.version@,
            role: self.role@,
            group: self.group@,
        }
    }
}

/// A pod as a mathematical value has the texts of the pod, and its labels and annotations.
pub proof fn pod_shows_its_fields(pod: Pod)
    ensures
        pod.deep_view().generate_name == pod.generate_name@,
        pod.deep_view().namespace == pod.namespace@,
        pod.deep_view().labels == crate::string_map::as_map(pod.labels.deep_view()),
        pod.deep_view().annotations == crate::string_map::as_map(pod.annotations.deep_view()),
        pod.deep_view().block_owner_deletion == pod.block_owner_deletion,
        pod.deep_view().controller == pod.controller,
        pod.deep_view().container == pod.container.deep_view(),
        pod.deep_view().node_name == pod.node_name@,
{
}

/// A container as a mathematical value has the texts of the container, and its words, variables,
/// volumes and ports in their places.
pub proof fn container_shows_its_fields(container: Container, i: int)
    ensures
        container.deep_view().name == container.name@,
        container.deep_view().image == container.image@,
        container.deep_view().command.len() == container.command@.len(),
        container.deep_view().env.len() == container.env@.len(),
        container.deep_view().config_map_volumes.len() == container.config_map_volumes@.len(),
        container.deep_view().ports.len() == container.ports@.len(),
        0 <= i < container.command@.len() ==> container.deep_view().command[i]
            == container.command@[i]@,
        0 <= i < container.env@.len() ==> {
            let shown = container.deep_view().env[i];
            let variable = container.env@[i];
            &&& shown.name == variable.name@
            &&& shown.value is Some <==> variable.value is Some
            &&& variable.value matches Some(value) ==> shown.value == Some(value@)
        },
        0 <= i < container.config_map_volumes@.len() ==> {
            let shown = container.deep_view().config_map_volumes[i];
            let volume = container.config_map_volumes@[i];
            shown.config_map_name == volume.config_map_name@ && shown.mount_path
                == volume.mount_path@
        },
        0 <= i < container.ports@.len() ==> {
            let shown = container.deep_view().ports[i];
            let port = container.ports@[i];
            shown.container_port == port.container_port && shown.name == port.name@
        },
{
}

/// A config map as a mathematical value has the texts of the config map, its labels and its data.
pub proof fn config_map_shows_its_fields(config_map: NewConfigMap, created: ConfigMap)
    ensures
        config_map.deep_view().name == config_map.name@,
        config_map.deep_view().namespace == config_map.namespace@,
        config_map.deep_view().labels == crate::string_map::as_map(config_map.labels.deep_view()),
        config_map.deep_view().data == crate::string_map::as_map(config_map.data.deep_view()),
        created.name is None ==> created.deep_view() is None,
        created.name matches Some(name) ==> created.deep_view() == Some(name@),
{
}

/// The parts of a name and of labels as mathematical values are the texts of the parts.
pub proof fn questions_show_their_parts(name: ResourceName, labels: RecommendedLabels)
    ensures
        name.deep_view().application == name.application@,
        name.deep_view().instance == name.instance@,
        name.deep_view().role == name.role@,
        name.group is None ==> name.deep_view().group is None,
        name.group matches Some(group) ==> name.deep_view().group == Some(group@),
        name.node is None ==> name.deep_view().node is None,
        name.node matches Some(node) ==> name.deep_view().node == Some(node@),
        name.suffix is None ==> name.deep_view().suffix is None,
        name.suffix matches Some(suffix) ==> name.deep_view().suffix == Some(suffix@),
        labels.deep_view().app_name == labels.app_name@,
        labels.deep_view().version == labels.version@,
        labels.deep_view().role == labels.role@,
        labels.deep_view().group == labels.group@,
{
}

} // verus!
