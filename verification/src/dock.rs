//! Where a panel can be docked.

use vstd::prelude::*;

verus! {

/// A dock of the workspace.
#[derive(Clone, Copy, Debug, PartialEq, Eq, Structural)]
pub enum DockPosition {
    Left,
    Bottom,
    Right,
}

/// Both panels live in the left dock only.
pub fn left_dock_only(position: DockPosition) -> (valid: bool)
    ensures
        valid == (position == DockPosition::Left),
{
    match position {
        DockPosition::Left => true,
        _ => false,
    }
}

} // verus!
