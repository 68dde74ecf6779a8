//! The natural order of components on one field, in the terms of the
//! standard library.

use crate::component::Component;
use crate::sort::{compare_field, field_order, ComponentsSortFieldName};
use crate::text::Precedence;
use std::cmp::Ordering;
use vstd::prelude::*;

verus! {

/// The standard ordering that an outcome stands for.
pub open spec fn to_ordering(p: Precedence) -> Ordering {
    match p {
        Precedence::Before => Ordering::Less,
        Precedence::Tied => Ordering::Equal,
        Precedence::After => Ordering::Greater,
    }
}

impl Component {
    /// Compares the component with another on one field: keys in
    /// lexicographic order, kinds in their declaration order
    /// `Source < Transform < Sink`.
    pub fn sort(&self, rhs: &Self, field: &ComponentsSortFieldName) -> (r: Ordering)
        ensures
            r == to_ordering(field_order(self@, rhs@, *field)),
    {
        match compare_field(self, rhs, field) {
            Precedence::Before => Ordering::Less,
            Precedence::Tied => Ordering::Equal,
            Precedence::After => Ordering::Greater,
        }
    }
}

} // verus!
