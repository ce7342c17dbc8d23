//! The ball: a moving disc.

use vstd::prelude::*;
use crate::appdata::AppData;
use crate::fixed::{
    dot, fine_len, fine_length, lemma_product_bound, mul_quot, narrow, quot, saturate, share, FINE,
};
use crate::geometry::{distance_squared, squared_distance, Circle, Color, Point, Size};
use crate::scene::DrawOp;

verus! {

/// Share of its speed, in hundredths, that a ball keeps from one step to the
/// next.
pub const DRAG_PERCENT: i32 = 99;

/// Speed that an attractor adds towards itself at each step: half a unit.
pub const PULL: i32 = 500;

/// A speed after one step of drag.
pub open spec fn damped(v: int) -> int {
    quot(v * DRAG_PERCENT, 100)
}

/// A speed after one step of the constant pull `a`, which acts only below
/// the terminal speed.
pub open spec fn pulled(v: int, terminal: int, a: int) -> int {
    if v < terminal {
        v + a
    } else {
        v
    }
}

/// The velocity `(vx, vy)` of a body at `(x, y)` after one step of
/// attraction towards `(gx, gy)`: its part along the line to the attractor
/// is kept, the rest is dropped, and `PULL` is added towards the attractor.
/// A body on the attractor itself keeps its velocity.
pub open spec fn attracted(x: int, y: int, vx: int, vy: int, gx: int, gy: int) -> (int, int) {
    let dx = x - gx;
    let dy = y - gy;
    let d2 = dx * dx + dy * dy;
    if d2 == 0 {
        (vx, vy)
    } else {
        let len = fine_length(d2);
        let along = vx * dx + vy * dy;
        (
            quot(along * dx, d2) - quot(dx * (PULL * FINE), len),
            quot(along * dy, d2) - quot(dy * (PULL * FINE), len),
        )
    }
}

/// A coordinate that has left `0 ..= extent` comes back in at the opposite
/// edge.
pub open spec fn wrapped(v: i32, extent: i32) -> i32 {
    if v < 0 {
        extent
    } else if v > extent {
        0
    } else {
        v
    }
}

/// A speed after one step of drag.
fn damp(v: i32) -> (r: i128)
    ensures
        r == damped(v as int),
        -0x8000_0000 <= r <= 0x8000_0000,
{
    proof {
        lemma_product_bound(v as int, DRAG_PERCENT as int, 0x8000_0000, 99);
    }
    share(v as i128, DRAG_PERCENT, 100)
}

/// A disc with a position, a velocity per step, and a fixed radius.
///
/// A resting ball is left where it is by the integration until something
/// wakes it.
#[derive(Clone, Copy, Debug, PartialEq, Eq, Structural)]
pub struct Ball {
    pub x: i32,
    pub y: i32,
    pub vx: i32,
    pub vy: i32,
    pub radius: i32,
    pub color: Color,
    pub resting: bool,
    pub terminal_velocity: i32,
}

impl Ball {
    /// The radius is positive, and it is the speed at which the constant
    /// pull stops accelerating the ball.
    pub open spec fn wf(self) -> bool {
        self.radius > 0 && self.terminal_velocity == self.radius
    }

    /// A ball in motion.
    pub fn new(x: i32, y: i32, vx: i32, vy: i32, radius: i32, color: Color) -> (b: Ball)
        ensures
            b == (Ball { x, y, vx, vy, radius, color, resting: false, terminal_velocity: radius }),
            radius > 0 ==> b.wf(),
    {
        Ball { x, y, vx, vy, radius, color, resting: false, terminal_velocity: radius }
    }

    /// Same place, same velocity, same radius and same colour.
    pub open spec fn equals_spec(self, other: Ball) -> bool {
        self.x == other.x && self.y == other.y && self.vx == other.vx && self.vy == other.vy
            && self.radius == other.radius && self.color == other.color
    }

    /// Whether the two balls agree in place, velocity, radius and colour.
    pub fn equals(&self, other: &Ball) -> (same: bool)
        ensures
            same == self.equals_spec(*other),
    {
        self.x == other.x && self.y == other.y && self.vx == other.vx && self.vy == other.vy
            && self.radius == other.radius && self.color == other.color
    }

    /// `(px, py)` is no farther from the centre than the radius.
    pub open spec fn contains_spec(self, px: int, py: int) -> bool {
        distance_squared(self.x as int, self.y as int, px, py) <= self.radius * self.radius
    }

    /// Whether `point` lies on the disc, its rim included.
    pub fn contains_point(&self, point: Point) -> (inside: bool)
        ensures
            inside == self.contains_spec(point.x as int, point.y as int),
    {
        let d2 = squared_distance(self.x, self.y, point.x, point.y);
        let r: i128 = self.radius as i128;
        assert(0 <= r * r <= 0x8000_0000 * 0x8000_0000) by (nonlinear_arith)
            requires
                -0x8000_0000 <= r <= 0x8000_0000,
        ;
        d2 <= (r * r) as u128
    }

    /// The ball put down at `p`: at a standstill, and resting.
    pub open spec fn moved_to(self, p: Point) -> Ball {
        Ball { x: p.x, y: p.y, vx: 0, vy: 0, resting: true, ..self }
    }

    /// Puts the ball down at `cursor_pos`, stops it and lets it rest.
    pub fn move_ball(&mut self, cursor_pos: Point)
        ensures
            *final(self) == old(self).moved_to(cursor_pos),
    {
        self.x = cursor_pos.x;
        self.y = cursor_pos.y;
        self.vx = 0;
        self.vy = 0;
        self.resting = true;
    }

    /// The velocity after one step of drag and then of gravity: towards
    /// `gravity_point` where there is one, else by `gravity_tuple`.
    pub open spec fn next_velocity(self, gravity_point: Option<Point>, gravity_tuple: (i32, i32)) -> (
        i32,
        i32,
    ) {
        let vx = damped(self.vx as int);
        let vy = damped(self.vy as int);
        match gravity_point {
            None => (
                saturate(pulled(vx, self.terminal_velocity as int, gravity_tuple.0 as int)),
                saturate(pulled(vy, self.terminal_velocity as int, gravity_tuple.1 as int)),
            ),
            Some(g) => {
                let v = attracted(self.x as int, self.y as int, vx, vy, g.x as int, g.y as int);
                (saturate(v.0), saturate(v.1))
            },
        }
    }

    /// The ball after drag, gravity, and one step along its new velocity.
    pub open spec fn advanced(self, gravity_point: Option<Point>, gravity_tuple: (i32, i32)) -> Ball {
        let v = self.next_velocity(gravity_point, gravity_tuple);
        Ball { x: saturate(self.x + v.0), y: saturate(self.y + v.1), vx: v.0, vy: v.1, ..self }
    }

    /// The centre lies on the surface, its edges included.
    pub open spec fn on_surface(self, size: Size) -> bool {
        0 <= self.x <= size.width && 0 <= self.y <= size.height
    }

    /// The ball after the check against the edge of the surface: a ball
    /// whose centre has left the surface is put to rest where walls stand,
    /// and comes back in at the opposite edge where none do.
    pub open spec fn kept_on_surface(self, size: Size, walls: bool) -> Ball {
        if self.on_surface(size) {
            self
        } else if walls {
            Ball { resting: true, ..self }
        } else {
            Ball { x: wrapped(self.x, size.width), y: wrapped(self.y, size.height), ..self }
        }
    }

    /// The ball one step later, collisions apart. A resting ball stays as
    /// it is.
    pub open spec fn updated(
        self,
        size: Size,
        walls: bool,
        gravity_point: Option<Point>,
        gravity_tuple: (i32, i32),
    ) -> Ball {
        if self.resting {
            self
        } else {
            self.advanced(gravity_point, gravity_tuple).kept_on_surface(size, walls)
        }
    }

    /// Computes the velocity of the next step.
    fn step_velocity(&self, gravity_point: Option<Point>, gravity_tuple: (i32, i32)) -> (v: (i32, i32))
        ensures
            v == self.next_velocity(gravity_point, gravity_tuple),
    {
        let vx = damp(self.vx);
        let vy = damp(self.vy);
        match gravity_point {
            None => {
                let ax = if vx < self.terminal_velocity as i128 {
                    vx + gravity_tuple.0 as i128
                } else {
                    vx
                };
                let ay = if vy < self.terminal_velocity as i128 {
                    vy + gravity_tuple.1 as i128
                } else {
                    vy
                };
                (narrow(ax), narrow(ay))
            },
            Some(g) => {
                let dx = self.x as i128 - g.x as i128;
                let dy = self.y as i128 - g.y as i128;
                let d2 = dot(dx, dy, dx, dy);
                if d2 == 0 {
                    (narrow(vx), narrow(vy))
                } else {
                    assert(d2 > 0) by (nonlinear_arith)
                        requires
                            d2 == dx * dx + dy * dy,
                            d2 != 0,
                    ;
                    let len = fine_len(d2);
                    let along = dot(vx, vy, dx, dy);
                    let ax = mul_quot(along, dx, d2) - mul_quot(dx, PULL as i128 * FINE, len);
                    let ay = mul_quot(along, dy, d2) - mul_quot(dy, PULL as i128 * FINE, len);
                    (narrow(ax), narrow(ay))
                }
            },
        }
    }

    /// Advances the ball by one step, collisions apart: drag, then gravity,
    /// then the move, then the check against the edge of the surface as
    /// `data` has it.
    pub fn update(&mut self, data: &AppData)
        ensures
            *final(self) == old(self).updated(
                data.size,
                data.params.walls,
                data.gravity_point,
                data.gravity_tuple,
            ),
    {
        if self.resting {
            return ;
        }
        let v = self.step_velocity(data.gravity_point, data.gravity_tuple);
        self.vx = v.0;
        self.vy = v.1;
        self.x = narrow(self.x as i128 + v.0 as i128);
        self.y = narrow(self.y as i128 + v.1 as i128);
        let width = data.size.width;
        let height = data.size.height;
        if self.x < 0 || self.x > width || self.y < 0 || self.y > height {
            if data.params.walls {
                self.resting = true;
            } else {
                if self.x < 0 {
                    self.x = width;
                } else if self.x > width {
                    self.x = 0;
                }
                if self.y < 0 {
                    self.y = height;
                } else if self.y > height {
                    self.y = 0;
                }
            }
        }
    }

    /// The disc that the ball covers, in its colour.
    pub open spec fn drawn(self) -> DrawOp {
        DrawOp::FillCircle(Circle { center: Point { x: self.x, y: self.y }, radius: self.radius }, self.color)
    }

    /// Appends the ball to the display list.
    pub fn paint(&self, scene: &mut Vec<DrawOp>)
        ensures
            final(scene)@ == old(scene)@.push(self.drawn()),
    {
        scene.push(DrawOp::FillCircle(Circle::new(Point::new(self.x, self.y), self.radius), self.color));
    }
}

} // verus!
