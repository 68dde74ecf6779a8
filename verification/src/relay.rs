//! Cursor pagination over a sequence of components that is already filtered
//! and sorted.
//!
//! The cursor of a component is its key. A cursor therefore names one
//! position of a sequence with unique keys, and it names none once the
//! component is gone.

use crate::component::{
    find_component, keys_unique, lemma_position_of_is_first, lemma_position_of_own_key,
    position_of, views, Component, ComponentView,
};
use vstd::math::{max, min};
use vstd::prelude::*;

verus! {

/// Why a page could not be made.
#[derive(Copy, Clone, Debug, PartialEq, Eq, Structural)]
pub enum QueryError {
    /// A cursor names no component of the sequence.
    InvalidCursor,
    /// A limit is negative, or both limits are given.
    InvalidArgument,
}

/// What the client asks for: the cursors that bound the page and the
/// number of components wanted, counted from the front (`first`) or from
/// the back (`last`).
#[derive(Debug)]
pub struct Params {
    pub after: Option<String>,
    pub before: Option<String>,
    pub first: Option<i32>,
    pub last: Option<i32>,
}

/// What [`Params`] stand for.
pub struct ParamsView {
    pub after: Option<Seq<char>>,
    pub before: Option<Seq<char>>,
    pub first: Option<int>,
    pub last: Option<int>,
}

/// What an optional text stands for.
pub open spec fn text_view(text: Option<String>) -> Option<Seq<char>> {
    match text {
        Some(t) => Some(t@),
        None => None,
    }
}

/// What an optional limit stands for.
pub open spec fn limit_view(limit: Option<i32>) -> Option<int> {
    match limit {
        Some(n) => Some(n as int),
        None => None,
    }
}

impl View for Params {
    type V = ParamsView;

    open spec fn view(&self) -> ParamsView {
        ParamsView {
            after: text_view(self.after),
            before: text_view(self.before),
            first: limit_view(self.first),
            last: limit_view(self.last),
        }
    }
}

impl Params {
    /// Puts the four parameters together.
    pub fn new(
        after: Option<String>,
        before: Option<String>,
        first: Option<i32>,
        last: Option<i32>,
    ) -> (p: Self)
        ensures
            p.after == after,
            p.before == before,
            p.first == first,
            p.last == last,
    {
        Params { after, before, first, last }
    }
}

/// A component of a page with its cursor.
#[derive(Debug)]
pub struct Edge {
    pub cursor: String,
    pub node: Component,
}

/// What an [`Edge`] stands for.
pub struct EdgeView {
    pub cursor: Seq<char>,
    pub node: ComponentView,
}

impl View for Edge {
    type V = EdgeView;

    open spec fn view(&self) -> EdgeView {
        EdgeView { cursor: self.cursor@, node: self.node@ }
    }
}

/// Where a page stands in the whole sequence.
#[derive(Debug)]
pub struct PageInfo {
    pub has_previous_page: bool,
    pub has_next_page: bool,
    pub start_cursor: Option<String>,
    pub end_cursor: Option<String>,
}

/// A page: its edges in order, where it stands, and the length of the whole
/// sequence.
#[derive(Debug)]
pub struct Connection {
    pub edges: Vec<Edge>,
    pub page_info: PageInfo,
    pub total_count: usize,
}

/// What a [`Connection`] stands for.
pub struct ConnectionView {
    pub edges: Seq<EdgeView>,
    pub has_previous_page: bool,
    pub has_next_page: bool,
    pub start_cursor: Option<Seq<char>>,
    pub end_cursor: Option<Seq<char>>,
    pub total_count: nat,
}

/// What a sequence of edges stands for.
pub open spec fn edge_views(edges: Seq<Edge>) -> Seq<EdgeView> {
    edges.map_values(|e: Edge| e@)
}

impl View for Connection {
    type V = ConnectionView;

    open spec fn view(&self) -> ConnectionView {
        ConnectionView {
            edges: edge_views(self.edges@),
            has_previous_page: self.page_info.has_previous_page,
            has_next_page: self.page_info.has_next_page,
            start_cursor: text_view(self.page_info.start_cursor),
            end_cursor: text_view(self.page_info.end_cursor),
            total_count: self.total_count as nat,
        }
    }
}

/// The cursor of a component: its key.
pub open spec fn cursor_of(c: ComponentView) -> Seq<char> {
    c.key
}

/// The edge of a component.
pub open spec fn edge_of(c: ComponentView) -> EdgeView {
    EdgeView { cursor: cursor_of(c), node: c }
}

/// The edges of a sequence of components.
pub open spec fn edges_of(items: Seq<ComponentView>) -> Seq<EdgeView> {
    items.map_values(|c: ComponentView| edge_of(c))
}

/// The positions `start <= i < end` of a sequence.
pub struct Window {
    pub start: int,
    pub end: int,
}

/// No limit is negative, and at most one limit is given.
pub open spec fn limits_valid(p: ParamsView) -> bool {
    &&& (p.first matches Some(f) ==> f >= 0)
    &&& (p.last matches Some(l) ==> l >= 0)
    &&& !(p.first is Some && p.last is Some)
}

/// The first position behind the component that `after` names; position 0
/// without `after`; nothing if `after` names no component.
pub open spec fn lower_bound(items: Seq<ComponentView>, after: Option<Seq<char>>) -> Option<int> {
    match after {
        None => Some(0),
        Some(cursor) => match position_of(items, cursor) {
            Some(i) => Some(i + 1),
            None => None,
        },
    }
}

/// The position of the component that `before` names; the length of the
/// sequence without `before`; nothing if `before` names no component.
pub open spec fn upper_bound(items: Seq<ComponentView>, before: Option<Seq<char>>) -> Option<int> {
    match before {
        None => Some(items.len() as int),
        Some(cursor) => position_of(items, cursor),
    }
}

/// The page is counted from the back: `last` is given, or no limit is given
/// and `before` alone bounds the page.
pub open spec fn is_backward(p: ParamsView) -> bool {
    p.first is None && (p.last is Some || (p.before is Some && p.after is None))
}

/// The number of components wanted: the limit that is given, else the
/// default page size.
pub open spec fn wanted(p: ParamsView, default_page_size: int) -> int {
    match p.first {
        Some(f) => f,
        None => match p.last {
            Some(l) => l,
            None => default_page_size,
        },
    }
}

/// The window of up to `count` positions between `lo` and `hi`, taken at
/// `lo` forward or at `hi` backward. Where the bounds cross, the window is
/// empty.
pub open spec fn window_between(lo: int, hi: int, backward: bool, count: int) -> Window {
    if backward {
        Window { start: max(hi - count, min(lo, hi)), end: hi }
    } else {
        Window { start: lo, end: min(lo + count, max(lo, hi)) }
    }
}

/// The window that the parameters select, or the error they are refused
/// with: `InvalidArgument` for bad limits, else `InvalidCursor` for a
/// cursor that names no component.
pub open spec fn window(
    items: Seq<ComponentView>,
    p: ParamsView,
    default_page_size: int,
) -> Result<Window, QueryError> {
    if !limits_valid(p) {
        Err(QueryError::InvalidArgument)
    } else {
        match (lower_bound(items, p.after), upper_bound(items, p.before)) {
            (Some(lo), Some(hi)) => Ok(
                window_between(lo, hi, is_backward(p), wanted(p, default_page_size)),
            ),
            _ => Err(QueryError::InvalidCursor),
        }
    }
}

/// The page that shows a window of the sequence.
pub open spec fn page_at(items: Seq<ComponentView>, w: Window) -> ConnectionView {
    ConnectionView {
        edges: edges_of(items.subrange(w.start, w.end)),
        has_previous_page: w.start > 0,
        has_next_page: w.end < items.len(),
        start_cursor: if w.start < w.end {
            Some(cursor_of(items[w.start]))
        } else {
            None
        },
        end_cursor: if w.start < w.end {
            Some(cursor_of(items[w.end - 1]))
        } else {
            None
        },
        total_count: items.len(),
    }
}

/// The page that the parameters select, or the error they are refused with.
pub open spec fn page(
    items: Seq<ComponentView>,
    p: ParamsView,
    default_page_size: int,
) -> Result<ConnectionView, QueryError> {
    match window(items, p, default_page_size) {
        Ok(w) => Ok(page_at(items, w)),
        Err(e) => Err(e),
    }
}

/// The window that the parameters select is a part of the sequence.
pub proof fn lemma_window_in_range(
    items: Seq<ComponentView>,
    p: ParamsView,
    default_page_size: int,
)
    requires
        default_page_size >= 0,
    ensures
        window(items, p, default_page_size) matches Ok(w) ==> 0 <= w.start <= w.end <= items.len(),
{
    if let Some(cursor) = p.after {
        lemma_position_of_is_first(items, cursor);
    }
    if let Some(cursor) = p.before {
        lemma_position_of_is_first(items, cursor);
    }
}

/// Computes the window that the parameters select.
fn select_window(
    items: &Vec<Component>,
    p: &Params,
    default_page_size: usize,
) -> (r: Result<(usize, usize), QueryError>)
    ensures
        match window(views(items@), p@, default_page_size as int) {
            Ok(w) => r == Ok::<(usize, usize), QueryError>((w.start as usize, w.end as usize))
                && 0 <= w.start <= w.end <= items.len(),
            Err(e) => r == Err::<(usize, usize), QueryError>(e),
        },
{
    proof {
        lemma_window_in_range(views(items@), p@, default_page_size as int);
    }
    if let Some(f) = p.first {
        if f < 0 || p.last.is_some() {
            return Err(QueryError::InvalidArgument);
        }
    }
    if let Some(l) = p.last {
        if l < 0 {
            return Err(QueryError::InvalidArgument);
        }
    }
    let n = items.len();
    let lo: usize = match &p.after {
        None => 0,
        Some(cursor) => match find_component(items, cursor.as_str()) {
            Some(i) => i + 1,
            None => {
                return Err(QueryError::InvalidCursor);
            },
        },
    };
    let hi: usize = match &p.before {
        None => n,
        Some(cursor) => match find_component(items, cursor.as_str()) {
            Some(i) => i,
            None => {
                return Err(QueryError::InvalidCursor);
            },
        },
    };
    let count: usize = match p.first {
        Some(f) => f as usize,
        None => match p.last {
            Some(l) => l as usize,
            None => default_page_size,
        },
    };
    let backward = p.first.is_none() && (p.last.is_some() || (p.before.is_some()
        && p.after.is_none()));
    if backward {
        let floor = if lo <= hi {
            lo
        } else {
            hi
        };
        let start = if count >= hi - floor {
            floor
        } else {
            hi - count
        };
        Ok((start, hi))
    } else {
        let ceiling = if lo >= hi {
            lo
        } else {
            hi
        };
        let end = if count >= ceiling - lo {
            ceiling
        } else {
            lo + count
        };
        Ok((lo, end))
    }
}

/// Makes the page that the parameters select from a sequence of components
/// that is already filtered and sorted.
///
/// With `after`, the page begins behind the component it names; with
/// `before`, it ends in front of the component it names. From what lies
/// between, `first` takes that many components at the front and `last` that
/// many at the back. Without a limit the default page size is taken: at the
/// back where `before` alone bounds the page, at the front otherwise.
///
/// A negative limit and two limits at once are refused with
/// `InvalidArgument`; a cursor that names no component of the sequence is
/// then refused with `InvalidCursor`.
pub fn query(
    items: Vec<Component>,
    p: Params,
    default_page_size: usize,
) -> (r: Result<Connection, QueryError>)
    ensures
        match page(views(items@), p@, default_page_size as int) {
            Ok(c) => r is Ok && r->Ok_0@ == c,
            Err(e) => r == Err::<Connection, QueryError>(e),
        },
{
    let (start, end) = match select_window(&items, &p, default_page_size) {
        Ok(w) => w,
        Err(e) => {
            return Err(e);
        },
    };
    let ghost all = views(items@);
    let total_count = items.len();
    let mut edges: Vec<Edge> = Vec::new();
    let mut start_cursor: Option<String> = None;
    let mut end_cursor: Option<String> = None;
    let mut at: usize = 0;
    for item in it: items
        invariant
            views(it.seq()) == all,
            at == it.index(),
            all.len() == total_count,
            0 <= start <= end <= all.len(),
            edge_views(edges@) == edges_of(
                all.subrange(start as int, max(start as int, min(at as int, end as int))),
            ),
            text_view(start_cursor) == if start < end && at > start {
                Some(cursor_of(all[start as int]))
            } else {
                None
            },
            text_view(end_cursor) == if start < end && at >= end {
                Some(cursor_of(all[end - 1]))
            } else {
                None
            },
    {
        assert(item@ == all[at as int]);
        if start <= at && at < end {
            let cursor = item.get_component_key().id.clone();
            if at == start {
                start_cursor = Some(cursor.clone());
            }
            if at + 1 == end {
                end_cursor = Some(cursor.clone());
            }
            let ghost so_far = edge_views(edges@);
            let ghost edge = edge_of(all[at as int]);
            edges.push(Edge { cursor, node: item });
            assert(edge_views(edges@) =~= so_far.push(edge));
            assert(edges_of(all.subrange(start as int, at + 1)) =~= so_far.push(edge));
        }
        at = at + 1;
    }
    Ok(
        Connection {
            edges,
            page_info: PageInfo {
                has_previous_page: start > 0,
                has_next_page: end < total_count,
                start_cursor,
                end_cursor,
            },
            total_count,
        },
    )
}

/// Where keys are unique, the cursor of a component names the position of
/// that component and no other.
pub proof fn lemma_cursor_names_its_position(items: Seq<ComponentView>, i: int)
    requires
        keys_unique(items),
        0 <= i < items.len(),
    ensures
        position_of(items, cursor_of(items[i])) == Some(i),
{
    lemma_position_of_own_key(items, i);
}

/// No component of the sequence has the cursor.
pub open spec fn names_none(items: Seq<ComponentView>, cursor: Seq<char>) -> bool {
    forall|i: int| 0 <= i < items.len() ==> cursor_of(#[trigger] items[i]) != cursor
}

/// A cursor of a component that is no longer in the sequence is refused:
/// with valid limits, a page bounded by a cursor that names no component is
/// `InvalidCursor`, never a page.
pub proof fn lemma_stale_cursor_is_refused(
    items: Seq<ComponentView>,
    p: ParamsView,
    default_page_size: int,
)
    requires
        limits_valid(p),
        (p.after matches Some(c) && names_none(items, c)) || (p.before matches Some(c)
            && names_none(items, c)),
    ensures
        page(items, p, default_page_size) == Err::<ConnectionView, QueryError>(
            QueryError::InvalidCursor,
        ),
{
    if let Some(c) = p.after {
        lemma_position_of_is_first(items, c);
        if names_none(items, c) && position_of(items, c) is Some {
            assert(cursor_of(items[position_of(items, c)->0]) == c);
        }
    }
    if let Some(c) = p.before {
        lemma_position_of_is_first(items, c);
        if names_none(items, c) && position_of(items, c) is Some {
            assert(cursor_of(items[position_of(items, c)->0]) == c);
        }
    }
}

/// The parameters of the page that follows a page with the given end
/// cursor.
pub open spec fn following(p: ParamsView, end_cursor: Option<Seq<char>>) -> ParamsView {
    ParamsView { after: end_cursor, before: p.before, first: p.first, last: p.last }
}

/// The page behind a page continues it: where a page has components and
/// reports a next page, the page asked for with `after` set to its end
/// cursor begins where it ended. The two pages share no position, and their
/// edges in a row are the edges of the sequence from the start of the first
/// page to the end of the second.
pub proof fn lemma_next_page_continues(
    items: Seq<ComponentView>,
    p: ParamsView,
    default_page_size: int,
)
    requires
        keys_unique(items),
        default_page_size >= 0,
        window(items, p, default_page_size) matches Ok(w) && w.start < w.end && w.end < items.len(),
    ensures
        ({
            let w = window(items, p, default_page_size)->Ok_0;
            let next = following(p, page_at(items, w).end_cursor);
            &&& window(items, next, default_page_size) matches Ok(w2) && w2.start == w.end
                && w2.end <= items.len() && page_at(items, w).edges + page_at(items, w2).edges
                == edges_of(items.subrange(w.start, w2.end))
        }),
{
    lemma_window_in_range(items, p, default_page_size);
    let w = window(items, p, default_page_size)->Ok_0;
    let next = following(p, page_at(items, w).end_cursor);
    lemma_cursor_names_its_position(items, w.end - 1);
    lemma_window_in_range(items, next, default_page_size);
    let w2 = window(items, next, default_page_size)->Ok_0;
    assert(page_at(items, w).edges + page_at(items, w2).edges =~= edges_of(
        items.subrange(w.start, w2.end),
    ));
}

/// The parameters of a page of `size` components at the front of what
/// follows `after`.
pub open spec fn forward(after: Option<Seq<char>>, size: int) -> ParamsView {
    ParamsView { after, before: None, first: Some(size), last: None }
}

/// The edges seen by a client that asks for pages of `size` components,
/// each after the end cursor of the one before, until a page reports no
/// next page or `rounds` pages were asked for.
pub open spec fn walk(
    items: Seq<ComponentView>,
    after: Option<Seq<char>>,
    size: int,
    rounds: nat,
) -> Seq<EdgeView>
    decreases rounds,
{
    if rounds == 0 {
        Seq::empty()
    } else {
        match page(items, forward(after, size), size) {
            Err(_) => Seq::empty(),
            Ok(c) => if c.has_next_page {
                c.edges + walk(items, c.end_cursor, size, (rounds - 1) as nat)
            } else {
                c.edges
            },
        }
    }
}

/// Walking the pages from a cursor on sees every component behind the
/// cursor once, in order.
pub proof fn lemma_walk_from(
    items: Seq<ComponentView>,
    after: Option<Seq<char>>,
    size: int,
    rounds: nat,
)
    requires
        keys_unique(items),
        size > 0,
        lower_bound(items, after) matches Some(lo) && rounds > items.len() - lo,
    ensures
        walk(items, after, size, rounds) == edges_of(items.skip(lower_bound(items, after)->0)),
    decreases rounds,
{
    let lo = lower_bound(items, after)->0;
    let p = forward(after, size);
    lemma_window_in_range(items, p, size);
    let w = window(items, p, size)->Ok_0;
    let c = page_at(items, w);
    if c.has_next_page {
        lemma_cursor_names_its_position(items, w.end - 1);
        lemma_walk_from(items, c.end_cursor, size, (rounds - 1) as nat);
        assert(c.edges + edges_of(items.skip(w.end)) =~= edges_of(items.skip(lo)));
    } else {
        assert(c.edges =~= edges_of(items.skip(lo)));
    }
}

/// Walking the pages from the start sees the whole sequence: every
/// component once, in order.
pub proof fn lemma_walk_sees_all(items: Seq<ComponentView>, size: int, rounds: nat)
    requires
        keys_unique(items),
        size > 0,
        rounds > items.len(),
    ensures
        walk(items, None, size, rounds) == edges_of(items),
{
    lemma_walk_from(items, None, size, rounds);
    assert(items.skip(0) =~= items);
}

} // verus!
