//! Sinks: components that send the events of their inputs out of a pipeline.

use crate::component::{ComponentKey, OutputId};
use vstd::prelude::*;

verus! {

/// What is known of a configured sink.
#[derive(Debug, PartialEq, Eq)]
pub struct Data {
    pub component_key: ComponentKey,
    pub component_type: String,
    pub inputs: Vec<OutputId>,
}

/// A configured sink.
#[derive(Debug, PartialEq, Eq)]
pub struct Sink(pub Data);

} // verus!
