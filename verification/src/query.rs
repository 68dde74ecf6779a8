//! The queries on the configured components: filter, sort, then page.

use crate::component::{position_of, views, Component, ComponentKey, ComponentKind, ComponentView};
use crate::filter::{filter_items, filtered, ComponentsFilter};
use crate::relay::{page, query, Connection, ConnectionView, Params, ParamsView, QueryError};
use crate::sort::{by_fields, sorted_by, ComponentsSortFieldName, SortField};
use crate::state::{has_kind, Snapshot};
use vstd::prelude::*;

verus! {

/// The number of components on a page for which no limit is given.
pub const DEFAULT_PAGE_SIZE: usize = 10;

/// The default page size as a number.
pub open spec fn default_page_size() -> int {
    DEFAULT_PAGE_SIZE as int
}

/// The components that pass the filter, if one is given, sorted by the
/// fields, if any are given.
pub open spec fn arranged(
    items: Seq<ComponentView>,
    filter: Option<ComponentsFilter>,
    sort: Option<Vec<SortField<ComponentsSortFieldName>>>,
) -> Seq<ComponentView> {
    let kept = match filter {
        Some(f) => filtered(items, f),
        None => items,
    };
    match sort {
        Some(fields) => sorted_by(kept, fields@),
        None => kept,
    }
}

/// The answer to a query on the given components: the page that the
/// parameters select from the components arranged by filter and sort, or
/// the error the parameters are refused with.
pub open spec fn answer(
    items: Seq<ComponentView>,
    p: ParamsView,
    filter: Option<ComponentsFilter>,
    sort: Option<Vec<SortField<ComponentsSortFieldName>>>,
) -> Result<ConnectionView, QueryError> {
    page(arranged(items, filter, sort), p, default_page_size())
}

/// Tells whether a result is the given answer.
pub open spec fn is_answer(
    r: Result<Connection, QueryError>,
    expected: Result<ConnectionView, QueryError>,
) -> bool {
    match expected {
        Ok(c) => r is Ok && r->Ok_0@ == c,
        Err(e) => r == Err::<Connection, QueryError>(e),
    }
}

/// Filters, sorts and pages the components.
fn run(
    items: Vec<Component>,
    p: Params,
    filter: Option<ComponentsFilter>,
    sort: Option<Vec<SortField<ComponentsSortFieldName>>>,
) -> (r: Result<Connection, QueryError>)
    ensures
        is_answer(r, answer(views(items@), p@, filter, sort)),
{
    let mut components = match &filter {
        Some(f) => filter_items(items, f),
        None => items,
    };
    if let Some(sort_fields) = &sort {
        by_fields(&mut components, sort_fields.as_slice());
    }
    query(components, p, DEFAULT_PAGE_SIZE)
}

/// The queries that a client can make.
#[derive(Debug)]
pub struct ComponentsQuery;

impl Default for ComponentsQuery {
    fn default() -> Self {
        ComponentsQuery
    }
}

impl ComponentsQuery {
    /// A page of the configured components of all kinds.
    pub fn components(
        &self,
        snapshot: &Snapshot,
        after: Option<String>,
        before: Option<String>,
        first: Option<i32>,
        last: Option<i32>,
        filter: Option<ComponentsFilter>,
        sort: Option<Vec<SortField<ComponentsSortFieldName>>>,
    ) -> (r: Result<Connection, QueryError>)
        ensures
            is_answer(
                r,
                answer(snapshot@, Params { after, before, first, last }@, filter, sort),
            ),
    {
        run(snapshot.get_components(), Params::new(after, before, first, last), filter, sort)
    }

    /// A page of the configured sources.
    pub fn sources(
        &self,
        snapshot: &Snapshot,
        after: Option<String>,
        before: Option<String>,
        first: Option<i32>,
        last: Option<i32>,
        filter: Option<ComponentsFilter>,
        sort: Option<Vec<SortField<ComponentsSortFieldName>>>,
    ) -> (r: Result<Connection, QueryError>)
        ensures
            is_answer(
                r,
                answer(
                    snapshot@.filter(has_kind(ComponentKind::Source)),
                    Params { after, before, first, last }@,
                    filter,
                    sort,
                ),
            ),
    {
        run(snapshot.get_sources(), Params::new(after, before, first, last), filter, sort)
    }

    /// A page of the configured transforms.
    pub fn transforms(
        &self,
        snapshot: &Snapshot,
        after: Option<String>,
        before: Option<String>,
        first: Option<i32>,
        last: Option<i32>,
        filter: Option<ComponentsFilter>,
        sort: Option<Vec<SortField<ComponentsSortFieldName>>>,
    ) -> (r: Result<Connection, QueryError>)
        ensures
            is_answer(
                r,
                answer(
                    snapshot@.filter(has_kind(ComponentKind::Transform)),
                    Params { after, before, first, last }@,
                    filter,
                    sort,
                ),
            ),
    {
        run(snapshot.get_transforms(), Params::new(after, before, first, last), filter, sort)
    }

    /// A page of the configured sinks.
    pub fn sinks(
        &self,
        snapshot: &Snapshot,
        after: Option<String>,
        before: Option<String>,
        first: Option<i32>,
        last: Option<i32>,
        filter: Option<ComponentsFilter>,
        sort: Option<Vec<SortField<ComponentsSortFieldName>>>,
    ) -> (r: Result<Connection, QueryError>)
        ensures
            is_answer(
                r,
                answer(
                    snapshot@.filter(has_kind(ComponentKind::Sink)),
                    Params { after, before, first, last }@,
                    filter,
                    sort,
                ),
            ),
    {
        run(snapshot.get_sinks(), Params::new(after, before, first, last), filter, sort)
    }

    /// The configured component with the given key, if there is one.
    pub fn component_by_component_key(
        &self,
        snapshot: &Snapshot,
        component_id: String,
    ) -> (found: Option<Component>)
        ensures
            match position_of(snapshot@, component_id@) {
                Some(i) => found is Some && found->0@ == snapshot@[i],
                None => found is None,
            },
    {
        let key = ComponentKey::new(component_id);
        snapshot.component_by_component_key(&key)
    }
}

} // verus!
