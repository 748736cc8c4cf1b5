//! Placement rule of an axis anchored to a fixed logical coordinate.
//!
//! Such an axis pans with the data. When its coordinate leaves the visible
//! region shrunk by the axis padding, the axis is pinned to the frame on the
//! side that the coordinate went off, so that it stays in view.

use vstd::prelude::*;

verus! {

/// Where an axis line is drawn.
#[derive(Debug, Clone, Copy, PartialEq, Eq, Structural)]
pub enum AxisSide {
    /// At the left (vertical axis) or bottom (horizontal axis) of the frame.
    LeftOrBottom,
    /// At the right (vertical axis) or top (horizontal axis) of the frame.
    RightOrTop,
    /// At its own logical coordinate.
    AtCoordinate,
}

/// The side for an axis whose coordinate lies below the start of the inner
/// visible range (`before_range`) or beyond its end (`after_range`); the first
/// test wins.
pub open spec fn side_for(before_range: bool, after_range: bool) -> AxisSide {
    if before_range {
        AxisSide::LeftOrBottom
    } else if after_range {
        AxisSide::RightOrTop
    } else {
        AxisSide::AtCoordinate
    }
}

/// Decides where a canvas-anchored axis is drawn.
pub fn canvas_axis_side(before_range: bool, after_range: bool) -> (r: AxisSide)
    ensures
        r == side_for(before_range, after_range),
{
    if before_range {
        AxisSide::LeftOrBottom
    } else if after_range {
        AxisSide::RightOrTop
    } else {
        AxisSide::AtCoordinate
    }
}

} // verus!
