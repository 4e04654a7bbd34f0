//! The config map of a role group.
use crate::error::{Error, ErrorView};
use crate::objects::{
    ConfigMap, NewConfigMap, NewConfigMapView, RecommendedLabels, RecommendedLabelsView,
    ResourceName, ResourceNameView,
};
use crate::product::build_config_file;
use crate::property::{KindView, Properties, PropertyNameKind, RoleGroupConfig};
use crate::state::OpaState;
use crate::string_map::StringMap;
use vstd::prelude::*;

verus! {

/// The type of the config map that holds the configuration file.
pub const CONFIG_MAP_TYPE_CONFIG: &'static str = "config";

/// The content of the config map of a role group: the configuration file, if it is configured
/// where the rules come from.
pub open spec fn config_map_data<P, N, C>(
    state: OpaState<P, N, C>,
    properties: Properties,
) -> Map<Seq<char>, Seq<char>> {
    let settings = crate::string_map::as_map(properties);
    if settings.contains_key(state.vocabulary.repo_rule_reference@) {
        Map::empty().insert(
            state.vocabulary.config_file@,
            crate::product::config_file(settings[state.vocabulary.repo_rule_reference@]),
        )
    } else {
        Map::empty()
    }
}

/// The config map of a role group that has `properties` for its configuration file.
pub open spec fn server_config_map<P, N, C>(
    state: OpaState<P, N, C>,
    properties: Properties,
    recommended_labels: Map<Seq<char>, Seq<char>>,
    name: Seq<char>,
) -> NewConfigMapView {
    NewConfigMapView {
        name,
        namespace: state.context.namespace@,
        labels: recommended_labels.insert(
            state.vocabulary.config_map_type_label@,
            CONFIG_MAP_TYPE_CONFIG@,
        ),
        data: config_map_data(state, properties),
    }
}

/// The config map of a role group: none if nothing is configured for the configuration file,
/// else one with the recommended labels and its type, unless it could not be named.
pub open spec fn planned_config_map<P, N, C, E>(
    state: OpaState<P, N, C>,
    config: Map<KindView, Properties>,
    recommended_labels: Map<Seq<char>, Seq<char>>,
    name: Result<Seq<char>, E>,
) -> Result<Option<NewConfigMapView>, ErrorView<E>> {
    let file = KindView::File(state.vocabulary.config_file@);
    if !config.contains_key(file) {
        Ok(None)
    } else {
        match name {
            Err(source) => Err(ErrorView::OperatorError { source }),
            Ok(name) => Ok(
                Some(server_config_map(state, config[file], recommended_labels, name)),
            ),
        }
    }
}

/// The config maps of a role group by their types, as create_pod reads them.
pub open spec fn collected_config_maps<E>(
    created: Option<Result<Option<Seq<char>>, E>>,
) -> Result<Map<Seq<char>, Option<Seq<char>>>, ErrorView<E>> {
    match created {
        None => Ok(Map::empty()),
        Some(Err(source)) => Err(ErrorView::OperatorError { source }),
        Some(Ok(name)) => Ok(Map::empty().insert(CONFIG_MAP_TYPE_CONFIG@, name)),
    }
}

/// A result with the text that stands in it.
pub open spec fn text_result<E>(result: Result<String, E>) -> Result<Seq<char>, E> {
    match result {
        Ok(text) => Ok(text@),
        Err(source) => Err(source),
    }
}

/// A result that may fail as a reconciliation fails, as a mathematical value.
pub open spec fn view_result<T: DeepView, E>(result: Result<T, Error<E>>) -> Result<
    T::V,
    ErrorView<E>,
> {
    match result {
        Ok(value) => Ok(value.deep_view()),
        Err(error) => Err(error@),
    }
}

/// What the recommended labels of a resource of a role group are made from.
pub open spec fn label_parts<P, N, C>(
    state: OpaState<P, N, C>,
    role: Seq<char>,
    group: Seq<char>,
) -> RecommendedLabelsView {
    RecommendedLabelsView {
        app_name: state.vocabulary.app_name@,
        version: state.context.version@,
        role,
        group,
    }
}

/// The parts of the name of the config map of a role group.
pub open spec fn config_map_name_parts<P, N, C>(
    state: OpaState<P, N, C>,
    role: Seq<char>,
    group: Seq<char>,
) -> ResourceNameView {
    ResourceNameView {
        application: state.vocabulary.app_name@,
        instance: state.context.name@,
        role,
        group: Some(group),
        node: None,
        suffix: Some(CONFIG_MAP_TYPE_CONFIG@),
    }
}

impl<P, N, C> OpaState<P, N, C> {
    /// What the recommended labels of a resource of a role group are made from.
    pub fn recommended_labels(&self, role: &str, group: &str) -> (res: RecommendedLabels)
        ensures
            res.deep_view() == label_parts(*self, role@, group@),
            res.app_name@ == self.vocabulary.app_name@,
            res.version@ == self.context.version@,
            res.role@ == role@,
            res.group@ == group@,
    {
        RecommendedLabels {
            app_name: self.vocabulary.app_name.clone(),
            version: self.context.version.clone(),
            role: role.to_string(),
            group: group.to_string(),
        }
    }

    /// The parts of the name of the config map of a role group.
    pub fn config_map_name(&self, role: &str, group: &str) -> (res: ResourceName)
        ensures
            res.deep_view() == config_map_name_parts(*self, role@, group@),
            res.application@ == self.vocabulary.app_name@,
            res.instance@ == self.context.name@,
            res.role@ == role@,
            res.group matches Some(part) && part@ == group@,
            res.node is None,
            res.suffix matches Some(part) && part@ == "config"@,
    {
        ResourceName {
            application: self.vocabulary.app_name.clone(),
            instance: self.context.name.clone(),
            role: role.to_string(),
            group: Some(group.to_string()),
            node: None,
            suffix: Some(CONFIG_MAP_TYPE_CONFIG.to_string()),
        }
    }

    /// Plans the config map of a role group.
    ///
    /// # Arguments
    ///
    /// - `validated_config` - The validated properties of the role group.
    /// - `recommended_labels` - The labels that [`OpaState::recommended_labels`] asks for.
    /// - `name` - The name that [`OpaState::config_map_name`] asks for.
    pub fn create_config_maps<E>(
        &self,
        validated_config: &RoleGroupConfig,
        recommended_labels: StringMap<String>,
        name: Result<String, E>,
    ) -> (res: Result<Option<NewConfigMap>, Error<E>>)
        ensures
            view_result(res) == planned_config_map(
                *self,
                validated_config@,
                crate::string_map::texts(recommended_labels),
                text_result(name),
            ),
            res matches Ok(Some(config_map)) ==> (name matches Ok(name) && config_map.name@
                == name@) && config_map.namespace@ == self.context.namespace@,
    {
        let file = PropertyNameKind::File(self.vocabulary.config_file.clone());
        if let Some(config) = validated_config.get(&file) {
            // enhance with config map type label
            proof {
                use_type_invariant(&recommended_labels);
                use_type_invariant(config);
                crate::string_map::lemma_deep(recommended_labels);
                crate::string_map::lemma_deep(*config);
            }
            let mut labels = recommended_labels;
            labels.insert(
                self.vocabulary.config_map_type_label.clone(),
                CONFIG_MAP_TYPE_CONFIG.to_string(),
            );
            proof {
                crate::string_map::lemma_deep(labels);
                assert(crate::string_map::texts(labels) =~= crate::string_map::texts(
                    recommended_labels,
                ).insert(self.vocabulary.config_map_type_label@, CONFIG_MAP_TYPE_CONFIG@));
            }
            let name = match name {
                Ok(name) => name,
                Err(source) => {
                    return Err(Error::OperatorError { source });
                },
            };
            let mut data: StringMap<String> = StringMap::new();
            if let Some(repo_reference) = config.get(self.vocabulary.repo_rule_reference.as_str()) {
                data.insert(
                    self.vocabulary.config_file.clone(),
                    build_config_file(repo_reference.as_str()),
                );
            }
            proof {
                crate::string_map::lemma_deep(data);
                assert(crate::string_map::texts(data) =~= config_map_data(
                    *self,
                    config.deep_view(),
                ));
            }
            Ok(
                Some(
                    NewConfigMap {
                        name,
                        namespace: self.context.namespace.clone(),
                        labels,
                        data,
                    },
                ),
            )
        } else {
            Ok(None)
        }
    }
}

/// Collects the config maps of a role group by their types, from what came of creating the one
/// that was planned.
pub fn collect_config_maps<E>(created: Option<Result<ConfigMap, E>>) -> (res: Result<
    StringMap<ConfigMap>,
    Error<E>,
>)
    ensures
        match res {
            Ok(config_maps) => Ok(crate::string_map::as_map(config_maps.deep_view())),
            Err(error) => Err(error@),
        } == collected_config_maps(
            match created {
                None => None,
                Some(Ok(config_map)) => Some(Ok(config_map.deep_view())),
                Some(Err(source)) => Some(Err(source)),
            },
        ),
        created is None ==> (res matches Ok(config_maps) && config_maps.map() == Map::<
            Seq<char>,
            ConfigMap,
        >::empty()),
        created matches Some(Ok(config_map)) ==> (res matches Ok(config_maps) && config_maps.map()
            == Map::<Seq<char>, ConfigMap>::empty().insert("config"@, config_map)),
        created matches Some(Err(source)) ==> res == Err::<StringMap<ConfigMap>, Error<E>>(
            Error::OperatorError { source },
        ),
{
    let mut config_maps: StringMap<ConfigMap> = StringMap::new();
    let ghost mut expected: Map<Seq<char>, Option<Seq<char>>> = Map::empty();
    match created {
        Some(Ok(config_map)) => {
            proof {
                expected = expected.insert(CONFIG_MAP_TYPE_CONFIG@, config_map.deep_view());
            }
            config_maps.insert(CONFIG_MAP_TYPE_CONFIG.to_string(), config_map);
        },
        Some(Err(source)) => {
            return Err(Error::OperatorError { source });
        },
        None => {},
    }
    proof {
        crate::string_map::lemma_deep(config_maps);
        assert(crate::string_map::as_map(config_maps.deep_view()) =~= expected);
    }
    Ok(config_maps)
}

/// A config map has its type as a label and every other recommended label as it was; it holds the
/// configuration file exactly if it is configured where the rules come from, and nothing else.
pub proof fn config_map_adapts_labels<P, N, C, E>(
    state: OpaState<P, N, C>,
    config: Map<KindView, Properties>,
    recommended_labels: Map<Seq<char>, Seq<char>>,
    name: Result<Seq<char>, E>,
    key: Seq<char>,
)
    ensures
        planned_config_map(state, config, recommended_labels, name) matches Ok(Some(config_map))
            ==> {
            let settings = crate::string_map::as_map(
                config[KindView::File(state.vocabulary.config_file@)],
            );
            &&& config_map.labels.contains_key(state.vocabulary.config_map_type_label@)
            &&& config_map.labels[state.vocabulary.config_map_type_label@]
                == CONFIG_MAP_TYPE_CONFIG@
            &&& key != state.vocabulary.config_map_type_label@ ==> config_map.labels.get(key)
                == recommended_labels.get(key)
            &&& config_map.data.contains_key(key) <==> key == state.vocabulary.config_file@
                && settings.contains_key(state.vocabulary.repo_rule_reference@)
        },
{
}

/// A config map is planned exactly if something is configured for the configuration file and the
/// config map could be named; nothing is planned exactly if nothing is configured for that file.
pub proof fn config_map_is_planned_for_the_file<P, N, C, E>(
    state: OpaState<P, N, C>,
    config: Map<KindView, Properties>,
    recommended_labels: Map<Seq<char>, Seq<char>>,
    name: Result<Seq<char>, E>,
)
    ensures
        ({
            let planned = planned_config_map(state, config, recommended_labels, name);
            let configured = config.contains_key(KindView::File(state.vocabulary.config_file@));
            &&& planned == Ok::<Option<NewConfigMapView>, ErrorView<E>>(None) <==> !configured
            &&& planned is Err <==> configured && name is Err
            &&& planned matches Err(error) ==> error == (ErrorView::OperatorError {
                source: name->Err_0,
            })
            &&& planned matches Ok(Some(config_map)) ==> {
                &&& name == Ok::<Seq<char>, E>(config_map.name)
                &&& config_map.namespace == state.context.namespace@
                &&& config_map.labels.get(state.vocabulary.config_map_type_label@) == Some(
                    "config"@,
                )
            }
        }),
{
}

/// A planned config map keeps every recommended label but that of its type, and has no label
/// besides these.
pub proof fn config_map_keeps_other_labels<P, N, C, E>(
    state: OpaState<P, N, C>,
    config: Map<KindView, Properties>,
    recommended_labels: Map<Seq<char>, Seq<char>>,
    name: Result<Seq<char>, E>,
)
    ensures
        planned_config_map(state, config, recommended_labels, name) matches Ok(Some(config_map))
            ==> config_map.labels.remove(state.vocabulary.config_map_type_label@)
            == recommended_labels.remove(state.vocabulary.config_map_type_label@),
{
    if let Ok(Some(config_map)) = planned_config_map(state, config, recommended_labels, name) {
        assert(config_map.labels.remove(state.vocabulary.config_map_type_label@)
            =~= recommended_labels.remove(state.vocabulary.config_map_type_label@));
    }
}

/// Where the properties of the configuration file tell from where the rules come, the planned
/// config map holds that file and nothing else: the fixed head, what they tell as it is, and the
/// fixed tail. Where they do not, it is empty.
pub proof fn config_map_holds_the_reference<P, N, C, E>(
    state: OpaState<P, N, C>,
    config: Map<KindView, Properties>,
    recommended_labels: Map<Seq<char>, Seq<char>>,
    name: Result<Seq<char>, E>,
    reference: Seq<char>,
)
    requires
        ({
            let properties = config[KindView::File(state.vocabulary.config_file@)];
            forall|i: int, j: int|
                0 <= i < j < properties.len() ==> (#[trigger] properties[i]).0 != (
                #[trigger] properties[j]).0
        }),
    ensures
        planned_config_map(state, config, recommended_labels, name) matches Ok(Some(config_map))
            ==> {
            let properties = config[KindView::File(state.vocabulary.config_file@)];
            &&& properties.contains((state.vocabulary.repo_rule_reference@, reference))
                ==> config_map.data == Map::<Seq<char>, Seq<char>>::empty().insert(
                state.vocabulary.config_file@,
                crate::product::CONFIG_FILE_HEAD@ + reference + crate::product::CONFIG_FILE_TAIL@,
            )
            &&& (forall|i: int|
                0 <= i < properties.len() ==> (#[trigger] properties[i]).0
                    != state.vocabulary.repo_rule_reference@) ==> config_map.data == Map::<
                Seq<char>,
                Seq<char>,
            >::empty()
        },
{
    let properties = config[KindView::File(state.vocabulary.config_file@)];
    crate::string_map::entries_fix_map(
        properties,
        state.vocabulary.repo_rule_reference@,
        reference,
    );
}

/// The config maps that are collected are the created one under its type, if one was created.
pub proof fn created_config_map_is_collected<E>(name: Option<Seq<char>>, source: E)
    ensures
        collected_config_maps::<E>(None) == Ok::<Map<Seq<char>, Option<Seq<char>>>, ErrorView<E>>(
            Map::empty(),
        ),
        collected_config_maps::<E>(Some(Ok(name))) == Ok::<
            Map<Seq<char>, Option<Seq<char>>>,
            ErrorView<E>,
        >(Map::empty().insert("config"@, name)),
        collected_config_maps::<E>(Some(Err(source))) == Err::<
            Map<Seq<char>, Option<Seq<char>>>,
            ErrorView<E>,
        >(ErrorView::OperatorError { source }),
{
}

/// A result as a mathematical value succeeds where the result does, with what it holds.
pub proof fn results_show_what_they_hold<T: DeepView, E>(
    result: Result<T, Error<E>>,
    text: Result<String, E>,
)
    ensures
        result matches Ok(value) ==> view_result(result) == Ok::<T::V, ErrorView<E>>(
            value.deep_view(),
        ),
        result matches Err(error) ==> view_result(result) == Err::<T::V, ErrorView<E>>(error@),
        text matches Ok(value) ==> text_result(text) == Ok::<Seq<char>, E>(value@),
        text matches Err(source) ==> text_result(text) == Err::<Seq<char>, E>(source),
{
}

} // verus!
