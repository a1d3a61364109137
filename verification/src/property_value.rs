//! The value a widget property holds.
use vstd::prelude::*;

verus! {

/// A typed widget property value.
#[derive(Debug, Clone, PartialEq)]
pub enum PropertyValue {
    I32(i32),
    Bool(bool),
    String(String),
}

} // verus!
