use vstd::prelude::*;

verus! {

/// Main axis of a layout container.
#[derive(Debug, Clone, Copy, PartialEq, Eq, Structural)]
pub enum Direction {
    Row,
    Column,
}

} // verus!
