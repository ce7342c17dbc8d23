//! The display list: what a frame draws, in drawing order.

use vstd::prelude::*;
use crate::geometry::{Circle, Color, Line, Rect};

verus! {

/// One drawing instruction.
#[derive(Clone, Copy, Debug, PartialEq, Eq, Structural)]
pub enum DrawOp {
    /// Fill a rectangle with a colour.
    FillRect(Rect, Color),
    /// Fill a circle with a colour.
    FillCircle(Circle, Color),
    /// Stroke a line segment with a colour and a width.
    StrokeLine(Line, Color, i32),
}

} // verus!
