use vstd::prelude::*;

use core::marker::PhantomData;

use tracing_subscriber::filter::Targets;

use crate::guid::{name_hash_guid, GuidWrapper};
use crate::provider::{provider_group_valid, CommonSchemaProvider, Provider, ProviderTypes};
use crate::targets::{target_default, target_levels, targets_new, targets_with_target, TargetLevel};

verus! {

/// The keyword that a new builder gives to events whose callsite sets none.
pub const DEFAULT_KEYWORD: u64 = 1;

/// What a layer builder holds, as plain values.
pub struct LayerConfig {
    pub provider_name: Seq<char>,
    pub provider_id: u128,
    pub provider_group: Option<Seq<char>>,
    pub default_keyword: u64,
}

impl LayerConfig {
    /// The configuration of a new builder for provider `name` with ID `id`: no
    /// provider group and the default keyword 1.
    pub open spec fn initial(name: Seq<char>, id: u128) -> LayerConfig {
        LayerConfig {
            provider_name: name,
            provider_id: id,
            provider_group: None,
            default_keyword: DEFAULT_KEYWORD,
        }
    }

    /// This configuration with the provider ID replaced.
    pub open spec fn set_provider_id(self, id: u128) -> LayerConfig {
        LayerConfig { provider_id: id, ..self }
    }

    /// This configuration with the default keyword replaced.
    pub open spec fn set_default_keyword(self, kw: u64) -> LayerConfig {
        LayerConfig { default_keyword: kw, ..self }
    }

    /// This configuration with the provider group set.
    pub open spec fn set_provider_group(self, group: Seq<char>) -> LayerConfig {
        LayerConfig { provider_group: Some(group), ..self }
    }

    /// Whether the configuration can be built: a provider group, if any, is a valid
    /// group name.
    pub open spec fn config_valid(self) -> bool {
        match self.provider_group {
            None => true,
            Some(g) => provider_group_valid(g),
        }
    }

    /// The target directives of the layer's filter when it is built with `target`:
    /// the provider name, the provider group if there is one, and `target` if it is
    /// not empty, each enabled up to the most verbose level.
    pub open spec fn target_filter(self, target: Seq<char>) -> Map<Seq<char>, TargetLevel> {
        let base = Map::<Seq<char>, TargetLevel>::empty().insert(self.provider_name, TargetLevel::Trace);
        let with_group = match self.provider_group {
            None => base,
            Some(g) => base.insert(g, TargetLevel::Trace),
        };
        if target.len() == 0 {
            with_group
        } else {
            with_group.insert(target, TargetLevel::Trace)
        }
    }
}

/// Each builder setting is set on its own: setting one leaves the others as they
/// were, two different settings can be set in either order, and setting one twice
/// keeps the last value.
pub proof fn lemma_builder_settings_are_independent(
    c: LayerConfig,
    id: u128,
    id2: u128,
    kw: u64,
    kw2: u64,
    group: Seq<char>,
    group2: Seq<char>,
)
    ensures
        c.set_provider_id(id).provider_id == id,
        c.set_default_keyword(kw).default_keyword == kw,
        c.set_provider_group(group).provider_group == Some(group),
        c.set_provider_id(id).provider_name == c.provider_name,
        c.set_default_keyword(kw).provider_name == c.provider_name,
        c.set_provider_group(group).provider_name == c.provider_name,
        c.set_provider_id(id).set_default_keyword(kw) == c.set_default_keyword(kw).set_provider_id(id),
        c.set_provider_id(id).set_provider_group(group) == c.set_provider_group(group).set_provider_id(id),
        c.set_default_keyword(kw).set_provider_group(group) == c.set_provider_group(group).set_default_keyword(kw),
        c.set_provider_id(id).set_provider_id(id2) == c.set_provider_id(id2),
        c.set_default_keyword(kw).set_default_keyword(kw2) == c.set_default_keyword(kw2),
        c.set_provider_group(group).set_provider_group(group2) == c.set_provider_group(group2),
{
}

/// Whether a configuration can be built depends on its provider group alone: a new
/// builder can be built, setting the ID or the keyword does not change the answer,
/// and after a group is set the answer is whether that group is valid.
pub proof fn lemma_config_validity_depends_on_group(
    c: LayerConfig,
    name: Seq<char>,
    id: u128,
    kw: u64,
    group: Seq<char>,
)
    ensures
        LayerConfig::initial(name, id).config_valid(),
        c.set_provider_id(id).config_valid() == c.config_valid(),
        c.set_default_keyword(kw).config_valid() == c.config_valid(),
        c.set_provider_group(group).config_valid() == provider_group_valid(group),
{
}

/// The target filter of a built layer enables exactly the provider name, the
/// provider group if one is set, and the given target unless it is empty, each up
/// to the most verbose level; the provider's own name is always enabled.
pub proof fn lemma_target_filter_contents(c: LayerConfig, target: Seq<char>)
    ensures
        forall|t: Seq<char>|
            #[trigger] c.target_filter(target).contains_key(t) <==> (t == c.provider_name
                || c.provider_group == Some(t) || (target.len() > 0 && t == target)),
        forall|t: Seq<char>|
            #[trigger] c.target_filter(target).contains_key(t) ==> c.target_filter(target)[t]
                == TargetLevel::Trace,
        c.target_filter(target).contains_key(c.provider_name),
{
}

/// The builder of a layer that writes `tracing` spans and events to a provider of
/// kind `Mode`.
pub struct LayerBuilder<Mode: ProviderTypes> {
    provider_name: String,
    provider_id: GuidWrapper,
    provider_group: Option<String>,
    default_keyword: u64,
    _m: PhantomData<Mode>,
}

/// The view of an optional string.
pub open spec fn opt_string_view(s: Option<String>) -> Option<Seq<char>> {
    match s {
        None => None,
        Some(g) => Some(g@),
    }
}

impl<Mode: ProviderTypes> View for LayerBuilder<Mode> {
    type V = LayerConfig;

    closed spec fn view(&self) -> LayerConfig {
        LayerConfig {
            provider_name: self.provider_name@,
            provider_id: self.provider_id@,
            provider_group: opt_string_view(self.provider_group),
            default_keyword: self.default_keyword,
        }
    }
}

impl LayerBuilder<Provider> {
    /// A builder for provider `name`, whose ID is derived from the name.
    pub fn new(name: &str) -> (b: LayerBuilder<Provider>)
        ensures
            b@ == LayerConfig::initial(name@, name_hash_guid(name@)),
    {
        LayerBuilder::<Provider>::with_name_and_id(name, GuidWrapper::from_name(name))
    }
}

impl LayerBuilder<CommonSchemaProvider> {
    /// For advanced scenarios.
    /// A builder for provider `name` that emits events that follow the Common
    /// Schema 4.0 mapping; the provider ID is derived from the name.
    pub fn new_common_schema_events(name: &str) -> (b: LayerBuilder<CommonSchemaProvider>)
        ensures
            b@ == LayerConfig::initial(name@, name_hash_guid(name@)),
    {
        LayerBuilder::<CommonSchemaProvider>::with_name_and_id(name, GuidWrapper::from_name(name))
    }
}

impl<Mode: ProviderTypes> LayerBuilder<Mode> {
    /// A builder for provider `name` with the given provider ID, no provider group
    /// and the default keyword.
    pub fn with_name_and_id(name: &str, provider_id: GuidWrapper) -> (b: Self)
        ensures
            b@ == LayerConfig::initial(name@, provider_id@),
    {
        LayerBuilder {
            provider_name: name.to_owned(),
            provider_id,
            provider_group: None,
            default_keyword: DEFAULT_KEYWORD,
            _m: PhantomData,
        }
    }

    /// For advanced scenarios.
    /// Assigns a provider ID to the provider rather than use the one generated
    /// from the provider name.
    pub fn with_provider_id(self, guid: &GuidWrapper) -> (b: Self)
        ensures
            b@ == self@.set_provider_id(guid@),
    {
        let mut b = self;
        b.provider_id = *guid;
        b
    }

    /// The provider ID that will be used for the provider.
    pub fn get_provider_id(&self) -> (id: &GuidWrapper)
        ensures
            id@ == self@.provider_id,
    {
        &self.provider_id
    }

    /// Sets the keyword of events whose callsite sets none.
    pub fn with_default_keyword(self, kw: u64) -> (b: Self)
        ensures
            b@ == self@.set_default_keyword(kw),
    {
        let mut b = self;
        b.default_keyword = kw;
        b
    }

    /// For advanced scenarios.
    /// Sets the provider group to join this provider to.
    pub fn with_provider_group(self, group_id: &str) -> (b: Self)
        ensures
            b@ == self@.set_provider_group(group_id@),
    {
        let mut b = self;
        b.provider_group = Some(group_id.to_owned());
        b
    }

    /// Whether the configuration can be built: the provider group, if one is set,
    /// is valid for the provider kind. Callers test this before `validate_config`.
    pub fn config_is_valid(&self) -> (ok: bool)
        ensures
            ok == self@.config_valid(),
    {
        match &self.provider_group {
            None => true,
            Some(value) => Mode::is_valid_provider_group(value.as_str()),
        }
    }

    /// Checks the configuration before a layer is built. It accepts every
    /// configuration whose provider group, if one is set, is valid for the provider
    /// kind, and leaves the builder as it is; a configuration with an invalid group
    /// is a caller error (test `config_is_valid` first).
    pub fn validate_config(&self)
        requires
            self@.config_valid(),
    {
    }

    /// The target filter of a layer built with `target`: the provider name, the
    /// provider group if one is set, and `target` unless it is empty, each enabled
    /// up to the most verbose level. The filter has no default level, so every other
    /// target stays disabled. This is the Linux form of the filter, where a
    /// provider group is a name and so becomes a target of its own; where groups
    /// are GUIDs (Windows) no group target would be added.
    pub fn build_target_filter(&self, target: &str) -> (t: Targets)
        ensures
            target_levels(t) == self@.target_filter(target@),
    {
        let empty = targets_new();
        assert(target_levels(empty) =~= Map::<Seq<char>, TargetLevel>::empty());
        let mut targets = targets_with_target(
            empty,
            self.provider_name.as_str(),
            TargetLevel::Trace,
        );
        match &self.provider_group {
            None => {},
            Some(name) => {
                targets = targets_with_target(targets, name.as_str(), TargetLevel::Trace);
            },
        }
        if !target.is_empty() {
            targets = targets_with_target(targets, target, TargetLevel::Trace);
        }
        targets
    }

    /// The provider name.
    pub fn provider_name(&self) -> (name: &str)
        ensures
            name@ == self@.provider_name,
    {
        self.provider_name.as_str()
    }

    /// The provider group, if one is set.
    pub fn provider_group(&self) -> (group: Option<&str>)
        ensures
            match group {
                None => self@.provider_group is None,
                Some(g) => self@.provider_group == Some(g@),
            },
    {
        match &self.provider_group {
            None => None,
            Some(g) => Some(g.as_str()),
        }
    }

    /// The keyword of events whose callsite sets none.
    pub fn default_keyword(&self) -> (kw: u64)
        ensures
            kw == self@.default_keyword,
    {
        self.default_keyword
    }
}

} // verus!
