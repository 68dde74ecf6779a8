//! Reloading: the components that a configuration declares become the
//! current snapshot, and what appeared and disappeared is published.

use crate::component::{
    clone_inputs, input_views, Component, ComponentKey, ComponentKind, ComponentView, DataType,
    OutputId,
};
use crate::notify::{change_views, changes, diff, ComponentChanged, Notifier};
use crate::sink;
use crate::source;
use crate::state::{upserted, Snapshot, State};
use crate::transform;
use vstd::prelude::*;

verus! {

/// A source as the configuration declares it.
#[derive(Debug)]
pub struct SourceConfig {
    pub key: ComponentKey,
    pub source_type: String,
    pub output_type: DataType,
}

/// A transform as the configuration declares it.
#[derive(Debug)]
pub struct TransformConfig {
    pub key: ComponentKey,
    pub transform_type: String,
    pub inputs: Vec<OutputId>,
}

/// A sink as the configuration declares it.
#[derive(Debug)]
pub struct SinkConfig {
    pub key: ComponentKey,
    pub sink_type: String,
    pub inputs: Vec<OutputId>,
}

/// What a configuration declares: its sources, its transforms and its
/// sinks.
#[derive(Debug)]
pub struct Config {
    pub sources: Vec<SourceConfig>,
    pub transforms: Vec<TransformConfig>,
    pub sinks: Vec<SinkConfig>,
}

impl View for SourceConfig {
    type V = ComponentView;

    open spec fn view(&self) -> ComponentView {
        ComponentView {
            key: self.key@,
            kind: ComponentKind::Source,
            component_type: self.source_type@,
            output_type: Some(self.output_type),
            inputs: Seq::empty(),
        }
    }
}

impl View for TransformConfig {
    type V = ComponentView;

    open spec fn view(&self) -> ComponentView {
        ComponentView {
            key: self.key@,
            kind: ComponentKind::Transform,
            component_type: self.transform_type@,
            output_type: None,
            inputs: input_views(self.inputs@),
        }
    }
}

impl View for SinkConfig {
    type V = ComponentView;

    open spec fn view(&self) -> ComponentView {
        ComponentView {
            key: self.key@,
            kind: ComponentKind::Sink,
            component_type: self.sink_type@,
            output_type: None,
            inputs: input_views(self.inputs@),
        }
    }
}

/// The components that the configuration declares, in the order in which
/// they are taken up: the sources, then the transforms, then the sinks.
pub open spec fn declared(config: Config) -> Seq<ComponentView> {
    config.sources@.map_values(|c: SourceConfig| c@) + config.transforms@.map_values(
        |c: TransformConfig| c@,
    ) + config.sinks@.map_values(|c: SinkConfig| c@)
}

/// The snapshot that taking up the components one after the other leaves:
/// each is put under its key, so of two components with one key the later
/// one stays, in the place of the earlier.
pub open spec fn settled(components: Seq<ComponentView>) -> Seq<ComponentView>
    decreases components.len(),
{
    if components.len() == 0 {
        Seq::empty()
    } else {
        upserted(settled(components.drop_last()), components.last())
    }
}

/// The snapshot that a configuration stands for.
pub open spec fn configured(config: Config) -> Seq<ComponentView> {
    settled(declared(config))
}

/// Makes the snapshot that a configuration stands for.
pub fn components_of(config: &Config) -> (snapshot: Snapshot)
    ensures
        snapshot@ == configured(*config),
{
    let ghost sources = config.sources@.map_values(|c: SourceConfig| c@);
    let ghost transforms = config.transforms@.map_values(|c: TransformConfig| c@);
    let ghost sinks = config.sinks@.map_values(|c: SinkConfig| c@);
    let mut snapshot = Snapshot::new();
    let mut i: usize = 0;
    assert(sources.take(0) =~= Seq::<ComponentView>::empty());
    while i < config.sources.len()
        invariant
            i <= config.sources.len(),
            sources == config.sources@.map_values(|c: SourceConfig| c@),
            snapshot@ == settled(sources.take(i as int)),
        decreases config.sources.len() - i,
    {
        let c = &config.sources[i];
        assert(sources.take(i + 1).drop_last() =~= sources.take(i as int));
        snapshot.insert(
            Component::Source(
                source::Source(
                    source::Data {
                        component_key: c.key.clone(),
                        component_type: c.source_type.clone(),
                        output_type: c.output_type,
                    },
                ),
            ),
        );
        i += 1;
    }
    assert(sources.take(i as int) =~= sources);
    let mut i: usize = 0;
    assert(sources + transforms.take(0) =~= sources);
    while i < config.transforms.len()
        invariant
            i <= config.transforms.len(),
            transforms == config.transforms@.map_values(|c: TransformConfig| c@),
            snapshot@ == settled(sources + transforms.take(i as int)),
        decreases config.transforms.len() - i,
    {
        let c = &config.transforms[i];
        assert((sources + transforms.take(i + 1)).drop_last() =~= sources + transforms.take(
            i as int,
        ));
        snapshot.insert(
            Component::Transform(
                transform::Transform(
                    transform::Data {
                        component_key: c.key.clone(),
                        component_type: c.transform_type.clone(),
                        inputs: clone_inputs(&c.inputs),
                    },
                ),
            ),
        );
        i += 1;
    }
    assert(transforms.take(i as int) =~= transforms);
    let mut i: usize = 0;
    assert(sources + transforms + sinks.take(0) =~= sources + transforms);
    while i < config.sinks.len()
        invariant
            i <= config.sinks.len(),
            sinks == config.sinks@.map_values(|c: SinkConfig| c@),
            snapshot@ == settled(sources + transforms + sinks.take(i as int)),
        decreases config.sinks.len() - i,
    {
        let c = &config.sinks[i];
        assert((sources + transforms + sinks.take(i + 1)).drop_last() =~= sources + transforms
            + sinks.take(i as int));
        snapshot.insert(
            Component::Sink(
                sink::Sink(
                    sink::Data {
                        component_key: c.key.clone(),
                        component_type: c.sink_type.clone(),
                        inputs: clone_inputs(&c.inputs),
                    },
                ),
            ),
        );
        i += 1;
    }
    assert(sinks.take(i as int) =~= sinks);
    snapshot
}

/// Takes up a configuration: publishes the changes from the current
/// snapshot to the one that the configuration stands for, first the
/// components that disappeared and then those that appeared, and installs
/// the new snapshot. The changes are returned as they were handed to the
/// channel.
pub fn update_config(
    state: &mut State,
    notifier: &Notifier,
    config: &Config,
) -> (published: Vec<ComponentChanged>)
    ensures
        final(state)@ == configured(*config),
        change_views(published@) == changes(old(state)@, configured(*config)),
{
    let new_components = components_of(config);
    let published = diff(state.snapshot(), &new_components);
    notifier.publish(&published);
    let _ = state.update(new_components);
    published
}

} // verus!
