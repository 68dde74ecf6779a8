//! What a subscriber to the change feed is shown of what it receives.

use crate::component::Component;
use crate::notify::ComponentChanged;
use vstd::prelude::*;

verus! {

/// One thing that a subscriber receives from the channel: a change, or the
/// notice that it fell behind and that this many changes were lost to it.
#[derive(Debug)]
pub enum Received {
    Change(ComponentChanged),
    Lagged(u64),
}

/// The feeds of components that appeared and of components that
/// disappeared.
#[derive(Debug)]
pub struct ComponentsSubscription;

impl Default for ComponentsSubscription {
    fn default() -> Self {
        ComponentsSubscription
    }
}

impl ComponentsSubscription {
    /// The component to show to a subscriber to added components: the
    /// component of a received change that is an addition, and nothing for
    /// anything else received.
    pub fn component_added(&self, received: Received) -> (shown: Option<Component>)
        ensures
            shown == match received {
                Received::Change(ComponentChanged::Added(c)) => Some(c),
                _ => None,
            },
    {
        match received {
            Received::Change(ComponentChanged::Added(c)) => Some(c),
            _ => None,
        }
    }

    /// The component to show to a subscriber to removed components: the
    /// component of a received change that is a removal, and nothing for
    /// anything else received.
    pub fn component_removed(&self, received: Received) -> (shown: Option<Component>)
        ensures
            shown == match received {
                Received::Change(ComponentChanged::Removed(c)) => Some(c),
                _ => None,
            },
    {
        match received {
            Received::Change(ComponentChanged::Removed(c)) => Some(c),
            _ => None,
        }
    }
}

} // verus!
