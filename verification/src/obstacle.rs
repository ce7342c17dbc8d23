//! Obstacles: immovable rectangles and circles.

use vstd::prelude::*;
use crate::ball::Ball;
use crate::collision::{are_balls_overlapping, overlapping, resolve_pair, resolved_pair};
use crate::fixed::{
    dot, fine_len, fine_length, lemma_product_bound, mul_quot_towards, narrow, quot, quot_towards,
    saturate, share_towards, FINE, HUGE,
};
use crate::geometry::{Circle, Color, Point, Rect};
use crate::scene::DrawOp;

verus! {

/// An obstacle spanned by two points closer than twice this is a circle:
/// ten units.
pub const MIN_SIZE: i32 = 10_000;

/// Share of its speed, in tenths, that a ball keeps when it bounces off a
/// rectangle.
pub const RESTITUTION_TENTHS: i32 = 7;

/// Sideways speed given to a ball that is pushed out of a rectangle: a
/// tenth of a unit.
pub const NUDGE: i32 = 100;

/// A body of the given radius reaches a point whose distance from its
/// centre has the square `d2`.
pub open spec fn reaches(radius: int, d2: int) -> bool {
    radius > 0 && d2 < radius * radius
}

/// A ball whose centre lies inside `rect` leaves it through the bottom or
/// the top side, and not through the left or the right one: the nearest
/// side is taken, and of several nearest sides the bottom one goes first,
/// then the top, the left and the right one.
pub open spec fn leaves_up_or_down(rect: Rect, ball: Ball) -> bool {
    let from_top = ball.y - rect.min_y_spec();
    let from_bottom = rect.max_y_spec() - ball.y;
    let from_left = ball.x - rect.min_x_spec();
    let from_right = rect.max_x_spec() - ball.x;
    (from_bottom <= from_left && from_bottom <= from_right) || (from_top <= from_left && from_top
        <= from_right)
}

/// Where a ball whose centre lies inside `rect` is put: a radius outside
/// the side through which it leaves, before its place is confined to the
/// range of `i32`.
pub open spec fn exit_point(rect: Rect, ball: Ball) -> (int, int) {
    let from_top = ball.y - rect.min_y_spec();
    let from_bottom = rect.max_y_spec() - ball.y;
    let from_left = ball.x - rect.min_x_spec();
    let from_right = rect.max_x_spec() - ball.x;
    if from_bottom <= from_top && from_bottom <= from_left && from_bottom <= from_right {
        (ball.x as int, rect.max_y_spec() + ball.radius)
    } else if from_top <= from_left && from_top <= from_right {
        (ball.x as int, rect.min_y_spec() - ball.radius)
    } else if from_left <= from_right {
        (rect.min_x_spec() - ball.radius, ball.y as int)
    } else {
        (rect.max_x_spec() + ball.radius, ball.y as int)
    }
}

/// The ball, its centre inside `rect`, put outside through the nearest
/// side: it touches that side from outside, its speed across that side is
/// turned round, and it gains `NUDGE` along that side.
pub open spec fn pushed_out(rect: Rect, ball: Ball) -> Ball {
    let to = exit_point(rect, ball);
    if leaves_up_or_down(rect, ball) {
        Ball { y: saturate(to.1), vy: saturate(-ball.vy), vx: saturate(ball.vx + NUDGE), ..ball }
    } else {
        Ball { x: saturate(to.0), vx: saturate(-ball.vx), vy: saturate(ball.vy + NUDGE), ..ball }
    }
}

/// The velocity `(vx, vy)` mirrored at a surface whose normal runs along
/// `(dx, dy)`, `d2` being the square of the normal's length, and then
/// reduced to `RESTITUTION_TENTHS` tenths. Each quotient is rounded to the
/// side away from the surface, so that the rebound never leads back into
/// it.
pub open spec fn rebound(vx: int, vy: int, dx: int, dy: int, d2: int) -> (int, int) {
    let along = vx * dx + vy * dy;
    (
        quot_towards((vx - quot_towards(2 * along * dx, d2, -dx)) * RESTITUTION_TENTHS, 10, dx),
        quot_towards((vy - quot_towards(2 * along * dy, d2, -dy)) * RESTITUTION_TENTHS, 10, dy),
    )
}

/// What moves a body of the given radius out of a surface: what its
/// distance is short of the radius, along the line `(dx, dy)` from the
/// nearest point of the surface to the centre, whose fine length is `len`.
/// Each coordinate is rounded away from the surface, so that the body does
/// not end up short of its radius.
pub open spec fn push(dx: int, dy: int, radius: int, len: int) -> (int, int) {
    (
        quot_towards((radius * FINE - len) * dx, len, dx),
        quot_towards((radius * FINE - len) * dy, len, dy),
    )
}

/// The ball moves towards the point of `rect` that is nearest to its
/// centre.
pub open spec fn approaching(rect: Rect, ball: Ball) -> bool {
    let near = rect.nearest_spec(ball.x as int, ball.y as int);
    ball.vx * (ball.x - near.0) + ball.vy * (ball.y - near.1) < 0
}

/// Where a ball that bounces off `rect` comes to lie, before its place is
/// confined to the range of `i32`: put out of the rectangle and moved on by
/// its rebound.
pub open spec fn bounce_target(rect: Rect, ball: Ball) -> (int, int) {
    let near = rect.nearest_spec(ball.x as int, ball.y as int);
    let dx = ball.x - near.0;
    let dy = ball.y - near.1;
    let d2 = dx * dx + dy * dy;
    let out = push(dx, dy, ball.radius as int, fine_length(d2));
    let v = rebound(ball.vx as int, ball.vy as int, dx, dy, d2);
    (ball.x + out.0 + v.0, ball.y + out.1 + v.1)
}

/// The ball after its meeting with the rectangle.
///
/// A ball that does not reach the rectangle stays as it is. One whose
/// centre lies inside is pushed out. One whose centre lies on the far edge,
/// at no distance and yet not inside, stays as it is, and so does one that
/// is moving away already. Any other is put out along the line from the
/// nearest point of the rectangle to its centre, takes its rebound as its
/// velocity, and moves on by it at once; unless its place had to be
/// confined to the range of `i32`, it then no longer reaches the rectangle.
pub open spec fn bounced_off(rect: Rect, ball: Ball) -> Ball {
    let near = rect.nearest_spec(ball.x as int, ball.y as int);
    let dx = ball.x - near.0;
    let dy = ball.y - near.1;
    let d2 = dx * dx + dy * dy;
    if !reaches(ball.radius as int, d2) {
        ball
    } else if rect.contains_spec(ball.x as int, ball.y as int) {
        pushed_out(rect, ball)
    } else if d2 == 0 || !approaching(rect, ball) {
        ball
    } else {
        let to = bounce_target(rect, ball);
        let v = rebound(ball.vx as int, ball.vy as int, dx, dy, d2);
        Ball {
            x: saturate(to.0),
            y: saturate(to.1),
            vx: saturate(v.0),
            vy: saturate(v.1),
            ..ball
        }
    }
}

/// Where the ball comes to lie by its meeting with the rectangle, before
/// its place is confined to the range of `i32`.
pub open spec fn landing(rect: Rect, ball: Ball) -> (int, int) {
    let near = rect.nearest_spec(ball.x as int, ball.y as int);
    let dx = ball.x - near.0;
    let dy = ball.y - near.1;
    let d2 = dx * dx + dy * dy;
    if !reaches(ball.radius as int, d2) {
        (ball.x as int, ball.y as int)
    } else if rect.contains_spec(ball.x as int, ball.y as int) {
        exit_point(rect, ball)
    } else if d2 == 0 || !approaching(rect, ball) {
        (ball.x as int, ball.y as int)
    } else {
        bounce_target(rect, ball)
    }
}

/// The ball that stands for a circle in a collision: in its place, of its
/// size, and still.
pub open spec fn standing(circle: Circle, like: Ball) -> Ball {
    Ball {
        x: circle.center.x,
        y: circle.center.y,
        vx: 0,
        vy: 0,
        radius: circle.radius,
        terminal_velocity: circle.radius,
        resting: true,
        color: like.color,
    }
}

/// The ball after its meeting with the circle: where the two overlap, the
/// ball fares as in a collision with a ball that stands still in the
/// circle's place, and the circle stays.
pub open spec fn deflected(circle: Circle, ball: Ball) -> Ball {
    if overlapping(ball, standing(circle, ball)) {
        resolved_pair(ball, standing(circle, ball)).0
    } else {
        ball
    }
}

/// Puts a ball whose centre lies inside `rect` outside.
fn push_out(rect: &Rect, ball: Ball) -> (b: Ball)
    ensures
        b == pushed_out(*rect, ball),
{
    let from_top: i64 = ball.y as i64 - rect.min_y() as i64;
    let from_bottom: i64 = rect.max_y() as i64 - ball.y as i64;
    let from_left: i64 = ball.x as i64 - rect.min_x() as i64;
    let from_right: i64 = rect.max_x() as i64 - ball.x as i64;
    let mut b = ball;
    if from_bottom <= from_top && from_bottom <= from_left && from_bottom <= from_right {
        b.y = narrow(rect.max_y() as i128 + ball.radius as i128);
        b.vy = narrow(-(ball.vy as i128));
        b.vx = narrow(ball.vx as i128 + NUDGE as i128);
    } else if from_top <= from_left && from_top <= from_right {
        b.y = narrow(rect.min_y() as i128 - ball.radius as i128);
        b.vy = narrow(-(ball.vy as i128));
        b.vx = narrow(ball.vx as i128 + NUDGE as i128);
    } else if from_left <= from_right {
        b.x = narrow(rect.min_x() as i128 - ball.radius as i128);
        b.vx = narrow(-(ball.vx as i128));
        b.vy = narrow(ball.vy as i128 + NUDGE as i128);
    } else {
        b.x = narrow(rect.max_x() as i128 + ball.radius as i128);
        b.vx = narrow(-(ball.vx as i128));
        b.vy = narrow(ball.vy as i128 + NUDGE as i128);
    }
    b
}

/// Lets a ball meet a rectangle.
pub fn bounce_off(rect: &Rect, ball: Ball) -> (b: Ball)
    ensures
        b == bounced_off(*rect, ball),
{
    let near = rect.nearest(Point::new(ball.x, ball.y));
    let dx: i128 = ball.x as i128 - near.x as i128;
    let dy: i128 = ball.y as i128 - near.y as i128;
    let d2 = dot(dx, dy, dx, dy);
    let radius: i128 = ball.radius as i128;
    assert(0 <= radius * radius <= 0x8000_0000 * 0x8000_0000) by (nonlinear_arith)
        requires
            -0x8000_0000 <= radius <= 0x8000_0000,
    ;
    if radius <= 0 || d2 >= radius * radius {
        return ball;
    }
    if rect.contains(Point::new(ball.x, ball.y)) {
        return push_out(rect, ball);
    }
    if d2 == 0 {
        return ball;
    }
    let along = dot(ball.vx as i128, ball.vy as i128, dx, dy);
    if along >= 0 {
        return ball;
    }
    assert(d2 > 0) by (nonlinear_arith)
        requires
            d2 == dx * dx + dy * dy,
            d2 != 0,
    ;
    let len = fine_len(d2);
    let gap = radius * FINE - len;
    let out_x = mul_quot_towards(gap, dx, len, dx);
    let out_y = mul_quot_towards(gap, dy, len, dy);
    let back_x = ball.vx as i128 - mul_quot_towards(2 * along, dx, d2, -dx);
    let back_y = ball.vy as i128 - mul_quot_towards(2 * along, dy, d2, -dy);
    let vx = share_towards(back_x, RESTITUTION_TENTHS, 10, dx);
    let vy = share_towards(back_y, RESTITUTION_TENTHS, 10, dy);
    proof {
        lemma_product_bound(back_x as int, RESTITUTION_TENTHS as int, 2 * HUGE, 7);
        lemma_product_bound(back_y as int, RESTITUTION_TENTHS as int, 2 * HUGE, 7);
    }
    Ball {
        x: narrow(ball.x as i128 + out_x + vx),
        y: narrow(ball.y as i128 + out_y + vy),
        vx: narrow(vx),
        vy: narrow(vy),
        radius: ball.radius,
        color: ball.color,
        resting: ball.resting,
        terminal_velocity: ball.terminal_velocity,
    }
}

/// Lets a ball meet a circle.
pub fn deflect(circle: &Circle, ball: Ball) -> (b: Ball)
    ensures
        b == deflected(*circle, ball),
{
    let still = Ball {
        x: circle.center.x,
        y: circle.center.y,
        vx: 0,
        vy: 0,
        radius: circle.radius,
        color: ball.color,
        resting: true,
        terminal_velocity: circle.radius,
    };
    if are_balls_overlapping(&ball, &still) {
        resolve_pair(ball, still).0
    } else {
        ball
    }
}

/// The outline of an obstacle.
#[derive(Clone, Copy, Debug, PartialEq, Eq, Structural)]
pub enum Shape {
    Rectangle(Rect),
    Circle(Circle),
}

/// An immovable body with a colour.
#[derive(Clone, Copy, Debug, PartialEq, Eq, Structural)]
pub struct Obstacle {
    pub shape: Shape,
    pub color: Color,
}

impl Obstacle {
    /// The obstacle spanned by `p1` and `p2`. Two points less than twice
    /// `MIN_SIZE` apart give the circle on their midpoint that passes
    /// through both; any others give the rectangle with those corners.
    pub open spec fn spanned(p1: Point, p2: Point, color: Color) -> Obstacle {
        let diag = p1.distance_spec(p2);
        if diag < 2 * MIN_SIZE {
            Obstacle {
                shape: Shape::Circle(
                    Circle {
                        center: Point {
                            x: quot(p1.x + p2.x, 2) as i32,
                            y: quot(p1.y + p2.y, 2) as i32,
                        },
                        radius: (diag / 2) as i32,
                    },
                ),
                color,
            }
        } else {
            Obstacle { shape: Shape::Rectangle(Rect::spanning(p1, p2)), color }
        }
    }

    /// The corners of a rectangle are in order.
    pub open spec fn wf(self) -> bool {
        match self.shape {
            Shape::Rectangle(r) => r.wf(),
            Shape::Circle(c) => c.radius >= 0,
        }
    }

    /// The obstacle spanned by two points.
    pub fn new(p1: Point, p2: Point, color: Color) -> (o: Obstacle)
        ensures
            o == Obstacle::spanned(p1, p2, color),
            o.wf(),
    {
        let diag = p1.distance(p2);
        if diag < 2 * (MIN_SIZE as i64) {
            let cx: i64 = (p1.x as i64 + p2.x as i64) / 2;
            let cy: i64 = (p1.y as i64 + p2.y as i64) / 2;
            let radius: i64 = diag / 2;
            return Obstacle {
                shape: Shape::Circle(Circle::new(Point::new(cx as i32, cy as i32), radius as i32)),
                color,
            };
        }
        Obstacle { shape: Shape::Rectangle(Rect::from_points(p1, p2)), color }
    }

    /// The rectangle, where the obstacle is one.
    pub fn rectangle(&self) -> (r: Option<Rect>)
        ensures
            r == (match self.shape {
                Shape::Rectangle(rect) => Some(rect),
                Shape::Circle(_) => None,
            }),
    {
        match self.shape {
            Shape::Rectangle(rect) => Some(rect),
            Shape::Circle(_) => None,
        }
    }

    /// The circle, where the obstacle is one.
    pub fn circle(&self) -> (c: Option<Circle>)
        ensures
            c == (match self.shape {
                Shape::Rectangle(_) => None,
                Shape::Circle(circle) => Some(circle),
            }),
    {
        match self.shape {
            Shape::Rectangle(_) => None,
            Shape::Circle(circle) => Some(circle),
        }
    }

    /// Whether the two obstacles have the same outline and colour.
    pub fn equals(&self, other: &Obstacle) -> (same: bool)
        ensures
            same == (*self == *other),
    {
        self.shape == other.shape && self.color == other.color
    }

    /// The ball after its meeting with the obstacle.
    pub open spec fn collided(self, ball: Ball) -> Ball {
        match self.shape {
            Shape::Rectangle(r) => bounced_off(r, ball),
            Shape::Circle(c) => deflected(c, ball),
        }
    }

    /// Lets the ball at `i` meet the obstacle; the other balls stay as they
    /// are.
    pub fn collide(&self, balls: &mut Vec<Ball>, i: usize)
        requires
            i < old(balls)@.len(),
        ensures
            final(balls)@ == old(balls)@.update(i as int, self.collided(old(balls)@[i as int])),
    {
        let ball = balls[i];
        let after = match self.shape {
            Shape::Rectangle(r) => bounce_off(&r, ball),
            Shape::Circle(c) => deflect(&c, ball),
        };
        balls.set(i, after);
    }

    /// The filled outline of the obstacle.
    pub open spec fn drawn(self) -> DrawOp {
        match self.shape {
            Shape::Rectangle(r) => DrawOp::FillRect(r, self.color),
            Shape::Circle(c) => DrawOp::FillCircle(c, self.color),
        }
    }

    /// Appends the obstacle to the display list.
    pub fn paint(&self, scene: &mut Vec<DrawOp>)
        ensures
            final(scene)@ == old(scene)@.push(self.drawn()),
    {
        match self.shape {
            Shape::Rectangle(r) => scene.push(DrawOp::FillRect(r, self.color)),
            Shape::Circle(c) => scene.push(DrawOp::FillCircle(c, self.color)),
        }
    }
}

} // verus!
