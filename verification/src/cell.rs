use vstd::prelude::*;

verus! {

/// The state of a single grid cell: either empty or alive. A plain value
/// type with copy semantics and no payload.
#[derive(Clone, Copy, Debug, PartialEq, Eq, Structural)]
pub enum Cell {
    Empty,
    Alive,
}

} // verus!
