//! Sources: components that bring events into a pipeline.

use crate::component::{ComponentKey, DataType};
use vstd::prelude::*;

verus! {

/// What is known of a configured source.
#[derive(Debug, PartialEq, Eq)]
pub struct Data {
    pub component_key: ComponentKey,
    pub component_type: String,
    pub output_type: DataType,
}

/// A configured source.
#[derive(Debug, PartialEq, Eq)]
pub struct Source(pub Data);

} // verus!
