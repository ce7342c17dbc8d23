//! The preview of a ball that is being aimed and not launched yet.

use vstd::prelude::*;
use crate::geometry::{Circle, Color, Line, Point, WHITE};
use crate::scene::DrawOp;

verus! {

/// Width of the aim line: two units.
pub const ARROW_WIDTH: i32 = 2_000;

/// What a launch gesture has fixed so far: the colour of the ball to come,
/// where the pointer went down, and the aim line.
#[derive(Clone, Copy, Debug, PartialEq, Eq, Structural)]
pub struct BallPreview {
    pub color: Option<Color>,
    pub mouse_down_pos: Option<Point>,
    pub arrow: Option<Line>,
}

impl BallPreview {
    /// The preview while no gesture is under way.
    pub open spec fn empty() -> BallPreview {
        BallPreview { color: None, mouse_down_pos: None, arrow: None }
    }

    pub fn new() -> (p: BallPreview)
        ensures
            p == BallPreview::empty(),
    {
        BallPreview { color: None, mouse_down_pos: None, arrow: None }
    }

    /// What the preview draws for a ball of radius `ball_size`: nothing
    /// without both a colour and an anchor; else the ball, then the aim
    /// line if there is one.
    pub open spec fn drawn(self, ball_size: i32) -> Seq<DrawOp> {
        if self.color is Some && self.mouse_down_pos is Some {
            let ball = DrawOp::FillCircle(
                Circle { center: self.mouse_down_pos->0, radius: ball_size },
                self.color->0,
            );
            if self.arrow is Some {
                seq![ball, DrawOp::StrokeLine(self.arrow->0, Color { rgba: WHITE }, ARROW_WIDTH)]
            } else {
                seq![ball]
            }
        } else {
            Seq::empty()
        }
    }

    /// Appends the preview to the display list.
    pub fn paint(&self, scene: &mut Vec<DrawOp>, ball_size: i32)
        ensures
            final(scene)@ == old(scene)@ + self.drawn(ball_size),
    {
        if let Some(color) = self.color {
            if let Some(mouse_down_pos) = self.mouse_down_pos {
                scene.push(DrawOp::FillCircle(Circle::new(mouse_down_pos, ball_size), color));
                if let Some(arrow) = self.arrow {
                    scene.push(DrawOp::StrokeLine(arrow, Color::from_rgba32_u32(WHITE), ARROW_WIDTH));
                }
            }
        }
    }
}

} // verus!
