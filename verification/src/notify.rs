//! Change notification: what appeared and what disappeared between two
//! snapshots, and the channel on which that is broadcast.

use crate::component::{position_of, views, Component, ComponentView};
use crate::seqs::lemma_filter_membership;
use crate::state::Snapshot;
use tokio::sync::broadcast::Sender;
use vstd::prelude::*;

verus! {

/// Makes `tokio::sync::broadcast::Sender`, the sending half of a broadcast
/// channel, known as a type. Nothing is claimed of its values.
#[verifier::external_type_specification]
#[verifier::external_body]
#[verifier::reject_recursive_types(T)]
pub struct ExSender<T>(Sender<T>);

/// A change between two snapshots: a component that appeared, or one that
/// disappeared.
#[derive(Debug)]
pub enum ComponentChanged {
    Added(Component),
    Removed(Component),
}

/// What a [`ComponentChanged`] stands for.
pub enum ChangeView {
    Added(ComponentView),
    Removed(ComponentView),
}

impl View for ComponentChanged {
    type V = ChangeView;

    open spec fn view(&self) -> ChangeView {
        match self {
            ComponentChanged::Added(c) => ChangeView::Added(c@),
            ComponentChanged::Removed(c) => ChangeView::Removed(c@),
        }
    }
}

impl Clone for ComponentChanged {
    fn clone(&self) -> (copy: Self)
        ensures
            copy@ == self@,
    {
        match self {
            ComponentChanged::Added(c) => ComponentChanged::Added(c.clone()),
            ComponentChanged::Removed(c) => ComponentChanged::Removed(c.clone()),
        }
    }
}

/// What a sequence of changes stands for.
pub open spec fn change_views(changes: Seq<ComponentChanged>) -> Seq<ChangeView> {
    changes.map_values(|c: ComponentChanged| c@)
}

/// The predicate "has a key that no component of `others` has".
pub open spec fn absent_from(others: Seq<ComponentView>) -> spec_fn(ComponentView) -> bool {
    |c: ComponentView| position_of(others, c.key) is None
}

/// The components of `prior` whose keys `next` does not have, in the order
/// of `prior`.
pub open spec fn removed(prior: Seq<ComponentView>, next: Seq<ComponentView>) -> Seq<
    ComponentView,
> {
    prior.filter(absent_from(next))
}

/// The components of `next` whose keys `prior` does not have, in the order
/// of `next`.
pub open spec fn added(prior: Seq<ComponentView>, next: Seq<ComponentView>) -> Seq<ComponentView> {
    next.filter(absent_from(prior))
}

/// The changes from `prior` to `next`: first the components that
/// disappeared, then those that appeared. Only keys count: a component whose
/// key stands in both is no change, whatever else of it differs.
pub open spec fn changes(prior: Seq<ComponentView>, next: Seq<ComponentView>) -> Seq<ChangeView> {
    removed(prior, next).map_values(|c: ComponentView| ChangeView::Removed(c)) + added(
        prior,
        next,
    ).map_values(|c: ComponentView| ChangeView::Added(c))
}

/// What is reported goes by keys alone: a removal is reported exactly for
/// the components of `prior` whose keys `next` does not have, an addition
/// exactly for the components of `next` whose keys `prior` does not have.
/// A component whose key stands in both snapshots is in no change.
pub proof fn lemma_changes_go_by_key(
    prior: Seq<ComponentView>,
    next: Seq<ComponentView>,
    change: ChangeView,
)
    ensures
        changes(prior, next).contains(change) <==> match change {
            ChangeView::Removed(c) => prior.contains(c) && position_of(next, c.key) is None,
            ChangeView::Added(c) => next.contains(c) && position_of(prior, c.key) is None,
        },
{
    let gone = removed(prior, next);
    let come = added(prior, next);
    let gone_changes = gone.map_values(|c: ComponentView| ChangeView::Removed(c));
    let come_changes = come.map_values(|c: ComponentView| ChangeView::Added(c));
    let all = changes(prior, next);
    match change {
        ChangeView::Removed(c) => {
            lemma_filter_membership(prior, absent_from(next), c);
            if gone.contains(c) {
                let i = choose|i: int| 0 <= i < gone.len() && gone[i] == c;
                assert(all[i] == change);
            }
            if all.contains(change) {
                let i = choose|i: int| 0 <= i < all.len() && all[i] == change;
                if i < gone.len() {
                    assert(gone_changes[i] == change);
                    assert(gone[i] == c);
                } else {
                    assert(come_changes[i - gone.len()] == change);
                }
            }
        },
        ChangeView::Added(c) => {
            lemma_filter_membership(next, absent_from(prior), c);
            if come.contains(c) {
                let i = choose|i: int| 0 <= i < come.len() && come[i] == c;
                assert(all[gone.len() + i] == change);
            }
            if all.contains(change) {
                let i = choose|i: int| 0 <= i < all.len() && all[i] == change;
                if i < gone.len() {
                    assert(gone_changes[i] == change);
                } else {
                    assert(come_changes[i - gone.len()] == change);
                    assert(come[i - gone.len()] == c);
                }
            }
        },
    }
}

/// Copies the components whose keys `others` does not have.
fn missing_from(components: &Vec<Component>, others: &Snapshot) -> (missing: Vec<Component>)
    ensures
        views(missing@) == views(components@).filter(absent_from(others@)),
{
    let ghost all = views(components@);
    let mut missing: Vec<Component> = Vec::new();
    let mut i: usize = 0;
    proof {
        reveal(Seq::filter);
        assert(all.take(0) =~= Seq::<ComponentView>::empty());
    }
    while i < components.len()
        invariant
            i <= components.len(),
            all == views(components@),
            views(missing@) == all.take(i as int).filter(absent_from(others@)),
        decreases components.len() - i,
    {
        proof {
            assert(all.take(i + 1) =~= all.take(i as int).push(all[i as int]));
            all.take(i as int).lemma_filter_push(all[i as int], absent_from(others@));
        }
        if !others.contains_key(components[i].get_component_key().id()) {
            let ghost so_far = views(missing@);
            missing.push(components[i].clone());
            assert(views(missing@) =~= so_far.push(all[i as int]));
        }
        i += 1;
    }
    assert(all.take(i as int) =~= all);
    missing
}

/// Computes the changes from one snapshot to the next.
pub fn diff(prior: &Snapshot, next: &Snapshot) -> (events: Vec<ComponentChanged>)
    ensures
        change_views(events@) == changes(prior@, next@),
{
    let gone = missing_from(prior.components(), next);
    let come = missing_from(next.components(), prior);
    let ghost gone_views = views(gone@);
    let ghost come_views = views(come@);
    let mut events: Vec<ComponentChanged> = Vec::new();
    for c in it: gone
        invariant
            views(it.seq()) == gone_views,
            change_views(events@) == gone_views.take(it.index()).map_values(
                |c: ComponentView| ChangeView::Removed(c),
            ),
    {
        let ghost so_far = change_views(events@);
        events.push(ComponentChanged::Removed(c));
        assert(change_views(events@) =~= so_far.push(ChangeView::Removed(c@)));
        assert(gone_views.take(it.index() + 1).map_values(
            |c: ComponentView| ChangeView::Removed(c),
        ) =~= so_far.push(ChangeView::Removed(c@)));
    }
    assert(gone_views.take(gone_views.len() as int) =~= gone_views);
    let ghost first_part = change_views(events@);
    for c in it: come
        invariant
            views(it.seq()) == come_views,
            change_views(events@) == first_part + come_views.take(it.index()).map_values(
                |c: ComponentView| ChangeView::Added(c),
            ),
    {
        let ghost so_far = change_views(events@);
        events.push(ComponentChanged::Added(c));
        assert(change_views(events@) =~= so_far.push(ChangeView::Added(c@)));
        assert(first_part + come_views.take(it.index() + 1).map_values(
            |c: ComponentView| ChangeView::Added(c),
        ) =~= so_far.push(ChangeView::Added(c@)));
    }
    assert(come_views.take(come_views.len() as int) =~= come_views);
    events
}

/// The number of unread changes that the channel keeps for a subscriber
/// unless another number is asked for.
pub const DEFAULT_CAPACITY: usize = 10;

/// The sending side of the channel on which changes are broadcast to the
/// subscribers. A subscriber that falls behind by more than the capacity of
/// the channel loses the oldest changes it has not read; the publisher and
/// the other subscribers are not held up.
pub struct Notifier {
    sender: Sender<ComponentChanged>,
}

/// Calls `tokio::sync::broadcast::channel` and keeps the sending half.
/// Nothing is claimed of the channel. The capacities that make `channel`
/// panic, zero and those above half of `usize::MAX`, are left out.
#[verifier::external_body]
fn open_channel(capacity: usize) -> (sender: Sender<ComponentChanged>)
    requires
        0 < capacity <= usize::MAX / 2,
{
    tokio::sync::broadcast::channel(capacity).0
}

/// Calls `tokio::sync::broadcast::Sender::send` and drops its result: the
/// number of subscribers, or the change handed back because there is none.
/// Nothing is claimed of what the subscribers receive.
#[verifier::external_body]
fn send_change(sender: &Sender<ComponentChanged>, change: ComponentChanged) {
    let _ = sender.send(change);
}

impl Notifier {
    /// A notifier on a new channel that keeps up to `capacity` unread
    /// changes for each subscriber, if the channel can have that capacity:
    /// a capacity of zero or above half of `usize::MAX` makes none.
    pub fn new(capacity: usize) -> (notifier: Option<Self>)
        ensures
            notifier is Some <==> 0 < capacity <= usize::MAX / 2,
    {
        if capacity == 0 || capacity > usize::MAX / 2 {
            None
        } else {
            Some(Notifier { sender: open_channel(capacity) })
        }
    }

    /// The sending half of the notifier's channel.
    pub closed spec fn channel(&self) -> Sender<ComponentChanged> {
        self.sender
    }

    /// The sender of the channel; a subscriber is made from it.
    pub fn sender(&self) -> (sender: &Sender<ComponentChanged>)
        ensures
            *sender == self.channel(),
    {
        &self.sender
    }

    /// Sends the changes to the subscribers, in order. A change that no
    /// subscriber is there to receive is dropped.
    pub fn publish(&self, changes: &Vec<ComponentChanged>) {
        let mut i: usize = 0;
        while i < changes.len()
            invariant
                i <= changes.len(),
            decreases changes.len() - i,
        {
            send_change(&self.sender, changes[i].clone());
            i += 1;
        }
    }
}

} // verus!
