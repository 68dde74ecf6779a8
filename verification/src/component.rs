//! The component data model: sources, transforms and sinks, and the plain
//! mathematical value each of them stands for.

use crate::sink;
use crate::source;
use crate::text::same_text;
use crate::transform;
use vstd::prelude::*;

verus! {

/// The three kinds of component, in their declaration order.
#[derive(Copy, Clone, Debug, PartialEq, Eq, Structural)]
pub enum ComponentKind {
    Source,
    Transform,
    Sink,
}

impl ComponentKind {
    /// Position of the kind in the declaration order `Source < Transform < Sink`.
    pub open spec fn rank(self) -> int {
        match self {
            ComponentKind::Source => 0,
            ComponentKind::Transform => 1,
            ComponentKind::Sink => 2,
        }
    }

    /// Computes [`ComponentKind::rank`].
    pub fn position(self) -> (r: u8)
        ensures
            r == self.rank(),
    {
        match self {
            ComponentKind::Source => 0,
            ComponentKind::Transform => 1,
            ComponentKind::Sink => 2,
        }
    }
}

/// The kind of event a source emits.
#[derive(Copy, Clone, Debug, PartialEq, Eq, Structural)]
pub enum DataType {
    Any,
    Log,
    Metric,
}

/// Identifier of a component, unique within one snapshot.
#[derive(Debug, PartialEq, Eq)]
pub struct ComponentKey {
    pub id: String,
}

impl View for ComponentKey {
    type V = Seq<char>;

    open spec fn view(&self) -> Seq<char> {
        self.id@
    }
}

impl ComponentKey {
    /// Wraps an identifier.
    pub fn new(id: String) -> (key: Self)
        ensures
            key@ == id@,
    {
        ComponentKey { id }
    }

    /// The key with the given text as its identifier.
    pub fn from(id: &str) -> (key: Self)
        ensures
            key@ == id@,
    {
        ComponentKey { id: id.to_owned() }
    }

    /// The identifier as text.
    pub fn id(&self) -> (id: &str)
        ensures
            id@ == self@,
    {
        self.id.as_str()
    }
}

impl Clone for ComponentKey {
    fn clone(&self) -> (key: Self)
        ensures
            key@ == self@,
    {
        ComponentKey { id: self.id.clone() }
    }
}

/// Reference to the output of an upstream component. The referenced component
/// need not exist.
#[derive(Debug, PartialEq, Eq)]
pub struct OutputId {
    pub component: ComponentKey,
    pub port: Option<String>,
}

/// What an [`OutputId`] stands for.
pub struct OutputIdView {
    pub component: Seq<char>,
    pub port: Option<Seq<char>>,
}

impl View for OutputId {
    type V = OutputIdView;

    open spec fn view(&self) -> OutputIdView {
        OutputIdView {
            component: self.component@,
            port: match self.port {
                Some(p) => Some(p@),
                None => None,
            },
        }
    }
}

impl Clone for OutputId {
    fn clone(&self) -> (id: Self)
        ensures
            id@ == self@,
    {
        OutputId {
            component: self.component.clone(),
            port: match &self.port {
                Some(p) => Some(p.clone()),
                None => None,
            },
        }
    }
}

impl OutputId {
    /// The default output of the component with the given identifier.
    pub fn from(id: &str) -> (out: Self)
        ensures
            out@ == (OutputIdView { component: id@, port: None }),
    {
        OutputId { component: ComponentKey::from(id), port: None }
    }
}

/// What a list of upstream references stands for.
pub open spec fn input_views(inputs: Seq<OutputId>) -> Seq<OutputIdView> {
    inputs.map_values(|i: OutputId| i@)
}

/// Copies a list of upstream references.
pub fn clone_inputs(inputs: &Vec<OutputId>) -> (copy: Vec<OutputId>)
    ensures
        input_views(copy@) == input_views(inputs@),
{
    let mut copy: Vec<OutputId> = Vec::new();
    let mut i: usize = 0;
    while i < inputs.len()
        invariant
            i <= inputs.len(),
            copy.len() == i,
            forall|j: int| 0 <= j < i ==> copy@[j]@ == inputs@[j]@,
        decreases inputs.len() - i,
    {
        copy.push(inputs[i].clone());
        i += 1;
    }
    assert(input_views(copy@) =~= input_views(inputs@));
    copy
}

/// A configured component of one of the three kinds.
#[derive(Debug, PartialEq, Eq)]
pub enum Component {
    Source(source::Source),
    Transform(transform::Transform),
    Sink(sink::Sink),
}

/// What a [`Component`] stands for: its attributes as plain values. A source
/// has an output type and no inputs; a transform or a sink has inputs and no
/// output type.
pub struct ComponentView {
    pub key: Seq<char>,
    pub kind: ComponentKind,
    pub component_type: Seq<char>,
    pub output_type: Option<DataType>,
    pub inputs: Seq<OutputIdView>,
}

impl View for Component {
    type V = ComponentView;

    open spec fn view(&self) -> ComponentView {
        match self {
            Component::Source(c) => ComponentView {
                key: c.0.component_key@,
                kind: ComponentKind::Source,
                component_type: c.0.component_type@,
                output_type: Some(c.0.output_type),
                inputs: Seq::empty(),
            },
            Component::Transform(c) => ComponentView {
                key: c.0.component_key@,
                kind: ComponentKind::Transform,
                component_type: c.0.component_type@,
                output_type: None,
                inputs: input_views(c.0.inputs@),
            },
            Component::Sink(c) => ComponentView {
                key: c.0.component_key@,
                kind: ComponentKind::Sink,
                component_type: c.0.component_type@,
                output_type: None,
                inputs: input_views(c.0.inputs@),
            },
        }
    }
}

impl Component {
    /// The key of the component, whatever its kind.
    pub fn get_component_key(&self) -> (key: &ComponentKey)
        ensures
            key@ == self@.key,
    {
        match self {
            Component::Source(c) => &c.0.component_key,
            Component::Transform(c) => &c.0.component_key,
            Component::Sink(c) => &c.0.component_key,
        }
    }

    /// The kind of the component.
    pub fn get_component_kind(&self) -> (kind: ComponentKind)
        ensures
            kind == self@.kind,
    {
        match self {
            Component::Source(_) => ComponentKind::Source,
            Component::Transform(_) => ComponentKind::Transform,
            Component::Sink(_) => ComponentKind::Sink,
        }
    }
}

impl Clone for Component {
    fn clone(&self) -> (copy: Self)
        ensures
            copy@ == self@,
    {
        match self {
            Component::Source(c) => Component::Source(
                source::Source(
                    source::Data {
                        component_key: c.0.component_key.clone(),
                        component_type: c.0.component_type.clone(),
                        output_type: c.0.output_type,
                    },
                ),
            ),
            Component::Transform(c) => Component::Transform(
                transform::Transform(
                    transform::Data {
                        component_key: c.0.component_key.clone(),
                        component_type: c.0.component_type.clone(),
                        inputs: clone_inputs(&c.0.inputs),
                    },
                ),
            ),
            Component::Sink(c) => Component::Sink(
                sink::Sink(
                    sink::Data {
                        component_key: c.0.component_key.clone(),
                        component_type: c.0.component_type.clone(),
                        inputs: clone_inputs(&c.0.inputs),
                    },
                ),
            ),
        }
    }
}

/// What a sequence of components stands for.
pub open spec fn views(components: Seq<Component>) -> Seq<ComponentView> {
    components.map_values(|c: Component| c@)
}

/// Position of the first component with the given key, if there is one.
pub open spec fn position_of(components: Seq<ComponentView>, key: Seq<char>) -> Option<int>
    decreases components.len(),
{
    if components.len() == 0 {
        None
    } else {
        match position_of(components.drop_last(), key) {
            Some(i) => Some(i),
            None => if components.last().key == key {
                Some(components.len() - 1)
            } else {
                None
            },
        }
    }
}

/// No two components of the sequence share a key.
pub open spec fn keys_unique(components: Seq<ComponentView>) -> bool {
    forall|i: int, j: int|
        0 <= i < j < components.len() ==> (#[trigger] components[i]).key != (
        #[trigger] components[j]).key
}

/// [`position_of`] finds the first component with the key, and finds none
/// only if there is none.
pub proof fn lemma_position_of_is_first(components: Seq<ComponentView>, key: Seq<char>)
    ensures
        match position_of(components, key) {
            Some(i) => {
                &&& 0 <= i < components.len()
                &&& components[i].key == key
                &&& forall|j: int| 0 <= j < i ==> (#[trigger] components[j]).key != key
            },
            None => forall|j: int|
                0 <= j < components.len() ==> (#[trigger] components[j]).key != key,
        },
    decreases components.len(),
{
    if components.len() > 0 {
        let init = components.drop_last();
        lemma_position_of_is_first(init, key);
        assert forall|j: int| 0 <= j < init.len() implies init[j] == components[j] by {}
        match position_of(init, key) {
            Some(i) => {
                assert(components[i] == init[i]);
                assert forall|j: int| 0 <= j < i implies (#[trigger] components[j]).key != key by {
                    assert(components[j] == init[j]);
                }
            },
            None => {
                assert forall|j: int| 0 <= j < init.len() implies (#[trigger] components[j]).key
                    != key by {
                    assert(components[j] == init[j]);
                }
            },
        }
    }
}

/// The first position at which a component has the key is what
/// [`position_of`] finds.
pub proof fn lemma_first_is_position_of(components: Seq<ComponentView>, key: Seq<char>, i: int)
    requires
        0 <= i < components.len(),
        components[i].key == key,
        forall|j: int| 0 <= j < i ==> (#[trigger] components[j]).key != key,
    ensures
        position_of(components, key) == Some(i),
{
    lemma_position_of_is_first(components, key);
}

/// Where keys are unique, each component is found by its own key.
pub proof fn lemma_position_of_own_key(components: Seq<ComponentView>, i: int)
    requires
        keys_unique(components),
        0 <= i < components.len(),
    ensures
        position_of(components, components[i].key) == Some(i),
{
    lemma_position_of_is_first(components, components[i].key);
}

/// Finds the first component with the given key.
pub fn find_component(components: &Vec<Component>, key: &str) -> (found: Option<usize>)
    ensures
        match found {
            Some(i) => i < components.len() && position_of(views(components@), key@) == Some(
                i as int,
            ),
            None => position_of(views(components@), key@) is None,
        },
{
    let mut i: usize = 0;
    while i < components.len()
        invariant
            i <= components.len(),
            forall|j: int| 0 <= j < i ==> (#[trigger] views(components@)[j]).key != key@,
        decreases components.len() - i,
    {
        if same_text(components[i].get_component_key().id(), key) {
            proof {
                lemma_first_is_position_of(views(components@), key@, i as int);
            }
            return Some(i);
        }
        i += 1;
    }
    proof {
        lemma_position_of_is_first(views(components@), key@);
    }
    None
}

} // verus!
