//! Transforms: components that reshape the events of their inputs.

use crate::component::{ComponentKey, OutputId};
use vstd::prelude::*;

verus! {

/// What is known of a configured transform.
#[derive(Debug, PartialEq, Eq)]
pub struct Data {
    pub component_key: ComponentKey,
    pub component_type: String,
    pub inputs: Vec<OutputId>,
}

/// A configured transform.
#[derive(Debug, PartialEq, Eq)]
pub struct Transform(pub Data);

} // verus!
