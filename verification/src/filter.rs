//! Filters: predicates on components, combined with AND inside one filter
//! and with OR across its alternatives.

use crate::component::{views, Component, ComponentKind, ComponentView};
use crate::seqs::{is_subsequence, lemma_filter_is_subsequence, lemma_filter_keeps_all};
use crate::text::{
    chars_of, contains, ends_with, is_prefix, is_substring, is_suffix, same_chars, starts_with,
};
use vstd::prelude::*;

verus! {

/// Conditions on a text value; the ones that are present must all hold.
#[derive(Debug)]
pub struct StringFilter {
    pub equals: Option<String>,
    pub not_equals: Option<String>,
    pub contains: Option<String>,
    pub not_contains: Option<String>,
    pub starts_with: Option<String>,
    pub ends_with: Option<String>,
}

impl Default for StringFilter {
    fn default() -> (f: Self)
        ensures
            f.equals is None,
            f.not_equals is None,
            f.contains is None,
            f.not_contains is None,
            f.starts_with is None,
            f.ends_with is None,
    {
        StringFilter {
            equals: None,
            not_equals: None,
            contains: None,
            not_contains: None,
            starts_with: None,
            ends_with: None,
        }
    }
}

impl StringFilter {
    /// The value meets every condition that is present. All tests are
    /// case-sensitive.
    pub open spec fn accepts(&self, value: Seq<char>) -> bool {
        &&& self.equals matches Some(s) ==> value == s@
        &&& self.not_equals matches Some(s) ==> value != s@
        &&& self.contains matches Some(s) ==> is_substring(s@, value)
        &&& self.not_contains matches Some(s) ==> !is_substring(s@, value)
        &&& self.starts_with matches Some(s) ==> is_prefix(s@, value)
        &&& self.ends_with matches Some(s) ==> is_suffix(s@, value)
    }

    /// Tells whether the characters meet every condition that is present.
    pub fn filter_chars(&self, value: &Vec<char>) -> (r: bool)
        ensures
            r == self.accepts(value@),
    {
        if let Some(s) = &self.equals {
            if !same_chars(value, &chars_of(s.as_str())) {
                return false;
            }
        }
        if let Some(s) = &self.not_equals {
            if same_chars(value, &chars_of(s.as_str())) {
                return false;
            }
        }
        if let Some(s) = &self.contains {
            if !contains(value, &chars_of(s.as_str())) {
                return false;
            }
        }
        if let Some(s) = &self.not_contains {
            if contains(value, &chars_of(s.as_str())) {
                return false;
            }
        }
        if let Some(s) = &self.starts_with {
            if !starts_with(value, &chars_of(s.as_str())) {
                return false;
            }
        }
        if let Some(s) = &self.ends_with {
            if !ends_with(value, &chars_of(s.as_str())) {
                return false;
            }
        }
        true
    }

    /// Tells whether the text meets every condition that is present.
    pub fn filter_value(&self, value: &str) -> (r: bool)
        ensures
            r == self.accepts(value@),
    {
        self.filter_chars(&chars_of(value))
    }
}

/// Conditions on a value that can only be compared for equality.
#[derive(Debug)]
pub struct EqualityFilter<T> {
    pub equals: Option<T>,
    pub not_equals: Option<T>,
}

impl EqualityFilter<ComponentKind> {
    /// The kind meets every condition that is present.
    pub open spec fn accepts(&self, value: ComponentKind) -> bool {
        &&& self.equals matches Some(k) ==> value == k
        &&& self.not_equals matches Some(k) ==> value != k
    }

    /// Tells whether the kind meets every condition that is present.
    pub fn filter_value(&self, value: ComponentKind) -> (r: bool)
        ensures
            r == self.accepts(value),
    {
        if let Some(k) = self.equals {
            if value != k {
                return false;
            }
        }
        if let Some(k) = self.not_equals {
            if value == k {
                return false;
            }
        }
        true
    }
}

/// A filter on components: conditions on the key and on the kind, and
/// alternative filters. A component passes when it meets all the conditions
/// of the filter itself, or passes one of the alternatives.
#[derive(Debug)]
pub struct ComponentsFilter {
    pub component_id: Option<Vec<StringFilter>>,
    pub component_kind: Option<Vec<EqualityFilter<ComponentKind>>>,
    pub or: Option<Vec<ComponentsFilter>>,
}

impl Default for ComponentsFilter {
    fn default() -> (f: Self)
        ensures
            f.is_unconstrained(),
    {
        ComponentsFilter { component_id: None, component_kind: None, or: None }
    }
}

impl ComponentsFilter {
    /// The filter has no condition and no alternative.
    pub open spec fn is_unconstrained(&self) -> bool {
        &&& self.component_id is None
        &&& self.component_kind is None
        &&& self.or is None
    }

    /// The component meets every condition of the filter itself, the
    /// alternatives left aside. A filter without conditions is met by every
    /// component.
    pub open spec fn own_match(&self, c: ComponentView) -> bool {
        &&& (self.component_id matches Some(fs) ==> (forall|i: int|
            0 <= i < fs@.len() ==> (#[trigger] fs@[i]).accepts(c.key)))
        &&& (self.component_kind matches Some(fs) ==> (forall|i: int|
            0 <= i < fs@.len() ==> (#[trigger] fs@[i]).accepts(c.kind)))
    }

    /// The component passes the filter: it meets the filter's own conditions
    /// or passes one of its alternatives.
    pub open spec fn accepts(&self, c: ComponentView) -> bool
        decreases self,
    {
        self.own_match(c) || match self.or {
            Some(alts) => exists|i: int| 0 <= i < alts@.len() && (#[trigger] alts@[i]).accepts(c),
            None => false,
        }
    }

    /// Tells whether the component meets every condition of the filter
    /// itself.
    pub fn matches(&self, component: &Component) -> (r: bool)
        ensures
            r == self.own_match(component@),
    {
        if let Some(fs) = &self.component_id {
            let key = chars_of(component.get_component_key().id());
            let mut i: usize = 0;
            while i < fs.len()
                invariant
                    i <= fs.len(),
                    self.component_id == Some(*fs),
                    key@ == component@.key,
                    forall|j: int| 0 <= j < i ==> (#[trigger] fs@[j]).accepts(component@.key),
                decreases fs.len() - i,
            {
                if !fs[i].filter_chars(&key) {
                    assert(!self.component_id->0@[i as int].accepts(component@.key));
                    return false;
                }
                i += 1;
            }
        }
        if let Some(fs) = &self.component_kind {
            let kind = component.get_component_kind();
            let mut i: usize = 0;
            while i < fs.len()
                invariant
                    i <= fs.len(),
                    self.component_kind == Some(*fs),
                    kind == component@.kind,
                    self.component_id matches Some(ids) ==> forall|j: int|
                        0 <= j < ids@.len() ==> (#[trigger] ids@[j]).accepts(component@.key),
                    forall|j: int| 0 <= j < i ==> (#[trigger] fs@[j]).accepts(component@.kind),
                decreases fs.len() - i,
            {
                if !fs[i].filter_value(kind) {
                    assert(!self.component_kind->0@[i as int].accepts(component@.kind));
                    return false;
                }
                i += 1;
            }
        }
        true
    }

    /// The alternatives of the filter, if it has any.
    pub fn or(&self) -> (alts: Option<&Vec<ComponentsFilter>>)
        ensures
            match alts {
                Some(a) => self.or == Some(*a),
                None => self.or is None,
            },
    {
        self.or.as_ref()
    }
}

/// The predicate "passes the filter" on component values.
pub open spec fn passes(f: ComponentsFilter) -> spec_fn(ComponentView) -> bool {
    |c: ComponentView| f.accepts(c)
}

/// The components that pass the filter, in the order in which they stand.
pub open spec fn filtered(items: Seq<ComponentView>, f: ComponentsFilter) -> Seq<ComponentView> {
    items.filter(passes(f))
}

/// Tells whether the component passes the filter: whether it meets the
/// filter's own conditions or passes one of its alternatives, to any depth.
pub fn filter_item(item: &Component, f: &ComponentsFilter) -> (r: bool)
    ensures
        r == f.accepts(item@),
    decreases f,
{
    if f.matches(item) {
        return true;
    }
    match f.or() {
        Some(alts) => {
            let mut i: usize = 0;
            while i < alts.len()
                invariant
                    i <= alts.len(),
                    f.or == Some(*alts),
                    forall|j: int| 0 <= j < i ==> !(#[trigger] alts@[j]).accepts(item@),
                decreases alts.len() - i,
            {
                assert(decreases_to!(f => alts@[i as int])) by {
                    assert(decreases_to!(f => f.or));
                    assert(decreases_to!(f.or => f.or->0));
                    assert(decreases_to!(f.or->0 => f.or->0@[i as int]));
                }
                if filter_item(item, &alts[i]) {
                    assert(f.or->0@[i as int].accepts(item@));
                    return true;
                }
                i += 1;
            }
            false
        },
        None => false,
    }
}

/// Keeps the components that pass the filter, in the order in which they
/// were given.
pub fn filter_items(items: Vec<Component>, f: &ComponentsFilter) -> (kept: Vec<Component>)
    ensures
        views(kept@) == filtered(views(items@), *f),
{
    let ghost all = views(items@);
    let mut kept: Vec<Component> = Vec::new();
    proof {
        reveal(Seq::filter);
        assert(all.take(0) =~= Seq::<ComponentView>::empty());
        assert(views(kept@) =~= Seq::<ComponentView>::empty());
    }
    for item in it: items
        invariant
            views(it.seq()) == all,
            views(kept@) == all.take(it.index()).filter(passes(*f)),
    {
        proof {
            let n = it.index();
            assert(all.take(n + 1) =~= all.take(n).push(item@));
            all.take(n).lemma_filter_push(item@, passes(*f));
        }
        if filter_item(&item, f) {
            proof {
                assert(views(kept@.push(item)) =~= views(kept@).push(item@));
            }
            kept.push(item);
        }
    }
    proof {
        assert(all.take(all.len() as int) =~= all);
    }
    kept
}

/// Filtering yields a subsequence of its input: every item kept stands in
/// the input, none is kept twice, and the items kept stand in the relative
/// order that they had in the input.
pub proof fn lemma_filtered_is_subsequence(items: Seq<ComponentView>, f: ComponentsFilter)
    ensures
        is_subsequence(filtered(items, f), items),
{
    lemma_filter_is_subsequence(items, passes(f));
}

/// A filter without conditions and without alternatives keeps every item.
pub proof fn lemma_unconstrained_filter_keeps_all(items: Seq<ComponentView>, f: ComponentsFilter)
    requires
        f.is_unconstrained(),
    ensures
        filtered(items, f) == items,
{
    lemma_filter_keeps_all(items, passes(f));
}

} // verus!
