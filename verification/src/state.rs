//! Snapshots of the configured components, and the store that holds the
//! current one.

use crate::component::{
    find_component, keys_unique, lemma_position_of_is_first, position_of, views, Component,
    ComponentKey, ComponentKind, ComponentView,
};
use vstd::prelude::*;

verus! {

/// The sequence with the component put under its key: in the place of the
/// component that had the key, or at the end if none had it.
pub open spec fn upserted(s: Seq<ComponentView>, c: ComponentView) -> Seq<ComponentView> {
    match position_of(s, c.key) {
        Some(i) => s.update(i, c),
        None => s.push(c),
    }
}

/// Putting a component under its key keeps keys unique.
pub proof fn lemma_upserted_keeps_keys_unique(s: Seq<ComponentView>, c: ComponentView)
    requires
        keys_unique(s),
    ensures
        keys_unique(upserted(s, c)),
{
    lemma_position_of_is_first(s, c.key);
    let out = upserted(s, c);
    assert forall|i: int, j: int| 0 <= i < j < out.len() implies (#[trigger] out[i]).key != (
    #[trigger] out[j]).key by {
        match position_of(s, c.key) {
            Some(at) => {
                if i != at && j != at {
                    assert(out[i] == s[i] && out[j] == s[j]);
                } else if i == at {
                    assert(out[j] == s[j]);
                    assert(s[at].key != s[j].key);
                } else {
                    assert(out[i] == s[i]);
                    assert(s[i].key != s[at].key);
                }
            },
            None => {
                if j < s.len() {
                    assert(out[i] == s[i] && out[j] == s[j]);
                } else {
                    assert(out[i] == s[i]);
                }
            },
        }
    }
}

/// The predicate "is of the kind" on component values.
pub open spec fn has_kind(kind: ComponentKind) -> spec_fn(ComponentView) -> bool {
    |c: ComponentView| c.kind == kind
}

/// The keys of the components, in order.
pub open spec fn keys_of(s: Seq<ComponentView>) -> Seq<Seq<char>> {
    s.map_values(|c: ComponentView| c.key)
}

/// What a sequence of keys stands for.
pub open spec fn key_views(keys: Seq<ComponentKey>) -> Seq<Seq<char>> {
    keys.map_values(|k: ComponentKey| k@)
}

/// The components of the system at one moment, each under its key. No two
/// components of a snapshot share a key, whatever their kinds.
#[derive(Debug)]
pub struct Snapshot {
    components: Vec<Component>,
}

impl View for Snapshot {
    type V = Seq<ComponentView>;

    closed spec fn view(&self) -> Seq<ComponentView> {
        views(self.components@)
    }
}

impl Snapshot {
    #[verifier::type_invariant]
    spec fn keys_are_unique(self) -> bool {
        keys_unique(views(self.components@))
    }

    /// The snapshot without components.
    pub fn new() -> (s: Self)
        ensures
            s@ == Seq::<ComponentView>::empty(),
    {
        let components: Vec<Component> = Vec::new();
        assert(views(components@) =~= Seq::<ComponentView>::empty());
        Snapshot { components }
    }

    /// The number of components.
    pub fn len(&self) -> (n: usize)
        ensures
            n == self@.len(),
    {
        self.components.len()
    }

    /// Puts the component under its key: in the place of the component that
    /// had the key, or behind all others if none had it.
    pub fn insert(&mut self, component: Component)
        ensures
            final(self)@ == upserted(old(self)@, component@),
            keys_unique(final(self)@),
    {
        proof {
            use_type_invariant(&*self);
            lemma_upserted_keeps_keys_unique(self@, component@);
        }
        let ghost before = self.components@;
        let ghost c = component@;
        let mut components: Vec<Component> = Vec::new();
        assert(views(components@) =~= Seq::<ComponentView>::empty());
        std::mem::swap(&mut self.components, &mut components);
        match find_component(&components, component.get_component_key().id()) {
            Some(i) => {
                components[i] = component;
                assert(views(components@) =~= views(before).update(i as int, c));
            },
            None => {
                components.push(component);
                assert(views(components@) =~= views(before).push(c));
            },
        }
        std::mem::swap(&mut self.components, &mut components);
    }

    /// Tells whether a component has the key.
    pub fn contains_key(&self, key: &str) -> (r: bool)
        ensures
            r == position_of(self@, key@) is Some,
    {
        find_component(&self.components, key).is_some()
    }

    /// The component with the key, if there is one.
    pub fn component_by_component_key(
        &self,
        component_key: &ComponentKey,
    ) -> (found: Option<Component>)
        ensures
            match position_of(self@, component_key@) {
                Some(i) => found is Some && found->0@ == self@[i],
                None => found is None,
            },
    {
        match find_component(&self.components, component_key.id()) {
            Some(i) => Some(self.components[i].clone()),
            None => None,
        }
    }

    /// The components as they stand in the snapshot.
    pub fn components(&self) -> (all: &Vec<Component>)
        ensures
            views(all@) == self@,
            keys_unique(self@),
    {
        proof {
            use_type_invariant(self);
        }
        &self.components
    }

    /// The components, in the order of the snapshot.
    pub fn get_components(&self) -> (all: Vec<Component>)
        ensures
            views(all@) == self@,
            keys_unique(self@),
    {
        proof {
            use_type_invariant(self);
        }
        let mut all: Vec<Component> = Vec::new();
        let mut i: usize = 0;
        while i < self.components.len()
            invariant
                i <= self.components.len(),
                views(all@) == views(self.components@).take(i as int),
            decreases self.components.len() - i,
        {
            let ghost so_far = views(all@);
            all.push(self.components[i].clone());
            assert(views(all@) =~= so_far.push(self.components@[i as int]@));
            assert(views(self.components@).take(i + 1) =~= so_far.push(
                self.components@[i as int]@,
            ));
            i += 1;
        }
        assert(views(self.components@).take(i as int) =~= views(self.components@));
        all
    }

    /// The components of one kind, in the order of the snapshot.
    pub fn get_components_of_kind(&self, kind: ComponentKind) -> (some: Vec<Component>)
        ensures
            views(some@) == self@.filter(has_kind(kind)),
    {
        let mut some: Vec<Component> = Vec::new();
        let mut i: usize = 0;
        proof {
            reveal(Seq::filter);
            assert(views(self.components@).take(0) =~= Seq::<ComponentView>::empty());
        }
        while i < self.components.len()
            invariant
                i <= self.components.len(),
                views(some@) == views(self.components@).take(i as int).filter(has_kind(kind)),
            decreases self.components.len() - i,
        {
            let ghost all = views(self.components@);
            proof {
                assert(all.take(i + 1) =~= all.take(i as int).push(all[i as int]));
                all.take(i as int).lemma_filter_push(all[i as int], has_kind(kind));
            }
            if self.components[i].get_component_kind() == kind {
                let ghost so_far = views(some@);
                some.push(self.components[i].clone());
                assert(views(some@) =~= so_far.push(all[i as int]));
            }
            i += 1;
        }
        assert(views(self.components@).take(i as int) =~= views(self.components@));
        some
    }

    /// The sources, in the order of the snapshot.
    pub fn get_sources(&self) -> (sources: Vec<Component>)
        ensures
            views(sources@) == self@.filter(has_kind(ComponentKind::Source)),
    {
        self.get_components_of_kind(ComponentKind::Source)
    }

    /// The transforms, in the order of the snapshot.
    pub fn get_transforms(&self) -> (transforms: Vec<Component>)
        ensures
            views(transforms@) == self@.filter(has_kind(ComponentKind::Transform)),
    {
        self.get_components_of_kind(ComponentKind::Transform)
    }

    /// The sinks, in the order of the snapshot.
    pub fn get_sinks(&self) -> (sinks: Vec<Component>)
        ensures
            views(sinks@) == self@.filter(has_kind(ComponentKind::Sink)),
    {
        self.get_components_of_kind(ComponentKind::Sink)
    }

    /// The keys of the components, in the order of the snapshot.
    pub fn get_component_keys(&self) -> (keys: Vec<ComponentKey>)
        ensures
            key_views(keys@) == keys_of(self@),
    {
        let mut keys: Vec<ComponentKey> = Vec::new();
        let mut i: usize = 0;
        while i < self.components.len()
            invariant
                i <= self.components.len(),
                key_views(keys@) == keys_of(views(self.components@).take(i as int)),
            decreases self.components.len() - i,
        {
            let ghost so_far = key_views(keys@);
            keys.push(self.components[i].get_component_key().clone());
            assert(key_views(keys@) =~= so_far.push(self.components@[i as int]@.key));
            assert(keys_of(views(self.components@).take(i + 1)) =~= so_far.push(
                self.components@[i as int]@.key,
            ));
            i += 1;
        }
        assert(views(self.components@).take(i as int) =~= views(self.components@));
        keys
    }
}

/// The store: it holds the current snapshot, which is replaced as a whole
/// and never changed in place.
#[derive(Debug)]
pub struct State {
    current: Snapshot,
}

impl View for State {
    type V = Seq<ComponentView>;

    closed spec fn view(&self) -> Seq<ComponentView> {
        self.current@
    }
}

impl State {
    /// The store with an empty snapshot.
    pub fn new() -> (state: Self)
        ensures
            state@ == Seq::<ComponentView>::empty(),
    {
        State { current: Snapshot::new() }
    }

    /// The current snapshot.
    pub fn snapshot(&self) -> (current: &Snapshot)
        ensures
            current@ == self@,
    {
        &self.current
    }

    /// Installs a snapshot as the current one and hands back the one it
    /// replaces.
    pub fn update(&mut self, new_components: Snapshot) -> (previous: Snapshot)
        ensures
            final(self)@ == new_components@,
            previous@ == old(self)@,
    {
        let mut previous = new_components;
        std::mem::swap(&mut self.current, &mut previous);
        previous
    }

    /// The component of the current snapshot with the key, if there is one.
    pub fn component_by_component_key(
        &self,
        component_key: &ComponentKey,
    ) -> (found: Option<Component>)
        ensures
            match position_of(self@, component_key@) {
                Some(i) => found is Some && found->0@ == self@[i],
                None => found is None,
            },
    {
        self.current.component_by_component_key(component_key)
    }
}

} // verus!
