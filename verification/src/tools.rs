//! The pointer tools: launching, moving, deleting and attracting balls.

use vstd::prelude::*;
use crate::appdata::{AppData, World};
use crate::ball::Ball;
use crate::ball_preview::BallPreview;
use crate::event::{Event, MouseButton};
use crate::fixed::{
    dot, fine_len, fine_length, lemma_quot_bounds, lemma_quot_scaled, magnitude, mul_quot, narrow,
    quot, saturate, FINE,
};
use crate::geometry::{
    Color, Line, Point, AQUA, GREEN, MAROON, PURPLE, RED, SILVER, TEAL, YELLOW,
};
use crate::search::{first_index, lemma_first_index, without_first};

verus! {

/// Radius of a launched ball: fifteen units.
pub const DEFAULT_BALL_SIZE: i32 = 15_000;

/// Largest speed, per axis, that a launch gives: fifteen units a step.
pub const MAX_LAUNCH_SPEED: i32 = 15_000;

/// Length of the aim line: sixty units.
pub const ARROW_LENGTH: i32 = 60_000;

/// Number of colours that launched balls take in turn.
pub const PALETTE_SIZE: usize = 8;

/// The colours that launched balls take in turn.
pub open spec fn palette(k: int) -> Color {
    Color {
        rgba: if k == 0 {
            RED
        } else if k == 1 {
            GREEN
        } else if k == 2 {
            SILVER
        } else if k == 3 {
            YELLOW
        } else if k == 4 {
            PURPLE
        } else if k == 5 {
            AQUA
        } else if k == 6 {
            MAROON
        } else {
            TEAL
        },
    }
}

/// The balls whose disc holds `pos`.
pub open spec fn holds_point(pos: Point) -> spec_fn(Ball) -> bool {
    |b: Ball| b.contains_spec(pos.x as int, pos.y as int)
}

/// The velocity of a ball launched by a drag from `down` to `up`: the drag
/// backwards, as it is while neither of its coordinates exceeds
/// `MAX_LAUNCH_SPEED`, else scaled so that the larger of them is
/// `MAX_LAUNCH_SPEED`.
pub open spec fn launch_velocity(down: Point, up: Point) -> (i32, i32) {
    let dx = down.x - up.x;
    let dy = down.y - up.y;
    if magnitude(dx) > MAX_LAUNCH_SPEED || magnitude(dy) > MAX_LAUNCH_SPEED {
        let longer = if magnitude(dx) > magnitude(dy) { magnitude(dx) } else { magnitude(dy) };
        (saturate(quot(dx * MAX_LAUNCH_SPEED, longer)), saturate(quot(dy * MAX_LAUNCH_SPEED, longer)))
    } else {
        (saturate(dx), saturate(dy))
    }
}

/// The aim line of a drag from `down` to `pos`: from `down`, `ARROW_LENGTH`
/// long, along the launch, which runs from `pos` towards `down`. A drag
/// straight up or down shows the line against the launch, and one that has
/// not left `down` shows none.
pub open spec fn aim_line(down: Point, pos: Point) -> Option<Line> {
    let dx = down.x - pos.x;
    let dy = down.y - pos.y;
    if dx == 0 && dy == 0 {
        None
    } else if dx == 0 {
        Some(
            Line {
                p0: down,
                p1: Point {
                    x: down.x,
                    y: saturate(if dy > 0 { down.y - ARROW_LENGTH } else { down.y + ARROW_LENGTH }),
                },
            },
        )
    } else {
        let len = fine_length(dx * dx + dy * dy);
        Some(
            Line {
                p0: down,
                p1: Point {
                    x: saturate(down.x + quot(dx * (ARROW_LENGTH * FINE), len)),
                    y: saturate(down.y + quot(dy * (ARROW_LENGTH * FINE), len)),
                },
            },
        )
    }
}

impl World {
    /// Index of the first ball whose disc holds `pos`; the number of balls
    /// where none does.
    pub open spec fn ball_at(self, pos: Point) -> int {
        first_index(self.balls, holds_point(pos))
    }

    /// The world with the first ball that holds `selector` put down at
    /// `target`.
    pub open spec fn with_ball_moved(self, selector: Point, target: Point) -> World {
        let k = self.ball_at(selector);
        if k < self.balls.len() {
            World { balls: self.balls.update(k, self.balls[k].moved_to(target)), ..self }
        } else {
            self
        }
    }

    /// The world with the first ball that holds `pos` woken.
    pub open spec fn with_ball_woken(self, pos: Point) -> World {
        let k = self.ball_at(pos);
        if k < self.balls.len() {
            World { balls: self.balls.update(k, Ball { resting: false, ..self.balls[k] }), ..self }
        } else {
            self
        }
    }

    /// The world without the first ball that holds `pos`.
    pub open spec fn with_ball_deleted(self, pos: Point) -> World {
        World { balls: without_first(self.balls, holds_point(pos)), ..self }
    }

    /// The world with the attractor set or cleared.
    pub open spec fn with_attractor(self, pos: Option<Point>) -> World {
        World { gravity_point: pos, ..self }
    }

    /// The world with a launch begun at `pos`.
    pub open spec fn spawn_begun(self, pos: Point, color: Color) -> World {
        World {
            preview: BallPreview { mouse_down_pos: Some(pos), color: Some(color), ..self.preview },
            ..self
        }
    }

    /// The world with the launch aimed by a pointer at `pos`; nothing
    /// changes while no launch is under way.
    pub open spec fn spawn_aimed(self, pos: Point) -> World {
        match self.preview.mouse_down_pos {
            Some(down) => World {
                preview: BallPreview { arrow: aim_line(down, pos), ..self.preview },
                ..self
            },
            None => self,
        }
    }

    /// A launch is under way: both its anchor and its colour are known.
    pub open spec fn spawning(self) -> bool {
        self.preview.mouse_down_pos is Some && self.preview.color is Some
    }

    /// The ball that a release of the pointer at `pos` launches.
    pub open spec fn launched(self, pos: Point) -> Ball {
        let down = self.preview.mouse_down_pos->0;
        let v = launch_velocity(down, pos);
        Ball {
            x: down.x,
            y: down.y,
            vx: v.0,
            vy: v.1,
            radius: DEFAULT_BALL_SIZE,
            color: self.preview.color->0,
            resting: false,
            terminal_velocity: DEFAULT_BALL_SIZE,
        }
    }

    /// The world after the pointer is released at `pos`: the launched ball
    /// stands behind the others and the preview is gone; nothing changes
    /// while no launch is under way.
    pub open spec fn spawn_committed(self, pos: Point) -> World {
        if self.spawning() {
            World { balls: self.balls.push(self.launched(pos)), preview: BallPreview::empty(), ..self }
        } else {
            self
        }
    }

    /// The world with the launch given up.
    pub open spec fn spawn_cancelled(self) -> World {
        World { preview: BallPreview::empty(), ..self }
    }
}

/// The world after the attraction tool has seen the event: while the tool
/// is armed, the right button sets the attractor where it goes down or is
/// dragged, and clears it where it comes up.
pub open spec fn after_attraction_tool(world: World, event: Event) -> World {
    if !world.params.attraction_tool {
        world
    } else {
        match event {
            Event::MouseDown(e) => if e.button == MouseButton::Right {
                world.with_attractor(Some(e.pos))
            } else {
                world
            },
            Event::MouseUp(e) => if e.button == MouseButton::Right {
                world.with_attractor(None)
            } else {
                world
            },
            Event::MouseMove(e) => if e.buttons.right {
                world.with_attractor(Some(e.pos))
            } else {
                world
            },
            _ => world,
        }
    }
}

/// The world after the move tool has seen the event: while the tool is
/// armed, a drag with the left button carries the first ball under the
/// pointer along, and the release of that button wakes the first ball
/// under the pointer.
pub open spec fn after_move_tool(world: World, event: Event) -> World {
    if !world.params.move_tool {
        world
    } else {
        match event {
            Event::MouseUp(e) => if e.button == MouseButton::Left {
                world.with_ball_woken(e.pos)
            } else {
                world
            },
            Event::MouseMove(e) => if e.buttons.left {
                world.with_ball_moved(e.pos, e.pos)
            } else {
                world
            },
            _ => world,
        }
    }
}

/// The world after the delete tool has seen the event: while the tool is
/// armed, the right button going down deletes the first ball under the
/// pointer.
pub open spec fn after_delete_tool(world: World, event: Event) -> World {
    if !world.params.delete_tool {
        world
    } else {
        match event {
            Event::MouseDown(e) => if e.button == MouseButton::Right {
                world.with_ball_deleted(e.pos)
            } else {
                world
            },
            _ => world,
        }
    }
}

/// The world after the spawn tool has seen the event: while the tool is
/// armed, the left button going down begins a launch in the next colour of
/// the palette, a drag with it aims, and its release launches.
pub open spec fn after_spawn_tool(world: World, event: Event) -> World {
    if !world.params.spawn_tool {
        world
    } else {
        match event {
            Event::MouseDown(e) => if e.button == MouseButton::Left {
                world.spawn_begun(e.pos, palette((world.balls.len() % (PALETTE_SIZE as nat)) as int))
            } else {
                world
            },
            Event::MouseUp(e) => if e.button == MouseButton::Left {
                world.spawn_committed(e.pos)
            } else {
                world
            },
            Event::MouseMove(e) => if e.buttons.left {
                world.spawn_aimed(e.pos)
            } else {
                world
            },
            _ => world,
        }
    }
}

/// The `k`-th colour of the palette.
pub fn palette_color(k: usize) -> (c: Color)
    requires
        k < PALETTE_SIZE,
    ensures
        c == palette(k as int),
{
    let rgba = if k == 0 {
        RED
    } else if k == 1 {
        GREEN
    } else if k == 2 {
        SILVER
    } else if k == 3 {
        YELLOW
    } else if k == 4 {
        PURPLE
    } else if k == 5 {
        AQUA
    } else if k == 6 {
        MAROON
    } else {
        TEAL
    };
    Color::from_rgba32_u32(rgba)
}

/// The velocity of a ball launched by a drag from `down` to `up`. Neither
/// of its coordinates exceeds `MAX_LAUNCH_SPEED`, and neither points
/// against the drag backwards.
pub fn launch(down: Point, up: Point) -> (v: (i32, i32))
    ensures
        v == launch_velocity(down, up),
        magnitude(v.0 as int) <= MAX_LAUNCH_SPEED,
        magnitude(v.1 as int) <= MAX_LAUNCH_SPEED,
        down.x >= up.x ==> v.0 >= 0,
        down.x <= up.x ==> v.0 <= 0,
        down.y >= up.y ==> v.1 >= 0,
        down.y <= up.y ==> v.1 <= 0,
{
    let dx: i64 = down.x as i64 - up.x as i64;
    let dy: i64 = down.y as i64 - up.y as i64;
    let ax: i64 = if dx < 0 { -dx } else { dx };
    let ay: i64 = if dy < 0 { -dy } else { dy };
    let top: i64 = MAX_LAUNCH_SPEED as i64;
    if ax > top || ay > top {
        let longer: i64 = if ax > ay { ax } else { ay };
        proof {
            lemma_quot_scaled(dx as int, top as int, longer as int);
            lemma_quot_scaled(dy as int, top as int, longer as int);
            lemma_quot_bounds(dx * top, longer as int);
            lemma_quot_bounds(dy * top, longer as int);
        }
        (narrow(((dx * top) / longer) as i128), narrow(((dy * top) / longer) as i128))
    } else {
        (narrow(dx as i128), narrow(dy as i128))
    }
}

/// The aim line of a drag from `down` to `pos`.
pub fn aim(down: Point, pos: Point) -> (line: Option<Line>)
    ensures
        line == aim_line(down, pos),
{
    let dx: i128 = down.x as i128 - pos.x as i128;
    let dy: i128 = down.y as i128 - pos.y as i128;
    if dx == 0 && dy == 0 {
        return None;
    }
    if dx == 0 {
        let y: i128 = if dy > 0 {
            down.y as i128 - ARROW_LENGTH as i128
        } else {
            down.y as i128 + ARROW_LENGTH as i128
        };
        return Some(Line::new(down, Point::new(down.x, narrow(y))));
    }
    let d2 = dot(dx, dy, dx, dy);
    assert(d2 > 0) by (nonlinear_arith)
        requires
            d2 == dx * dx + dy * dy,
            dx != 0,
    ;
    let len = fine_len(d2);
    let x = down.x as i128 + mul_quot(dx, ARROW_LENGTH as i128 * FINE, len);
    let y = down.y as i128 + mul_quot(dy, ARROW_LENGTH as i128 * FINE, len);
    Some(Line::new(down, Point::new(narrow(x), narrow(y))))
}

impl AppData {
    /// Finds the first ball whose disc holds `pos`.
    pub fn find_ball_at(&self, pos: Point) -> (k: usize)
        ensures
            k == self@.ball_at(pos),
            k <= self.balls@.len(),
    {
        let ghost wanted = holds_point(pos);
        let mut i: usize = 0;
        while i < self.balls.len()
            invariant
                i <= self.balls@.len(),
                wanted == holds_point(pos),
                forall|j: int| 0 <= j < i ==> !wanted(#[trigger] self.balls@[j]),
            decreases self.balls@.len() - i,
        {
            if self.balls[i].contains_point(pos) {
                proof {
                    lemma_first_index(self.balls@, wanted, i as int);
                }
                return i;
            }
            i += 1;
        }
        proof {
            lemma_first_index(self.balls@, wanted, i as int);
        }
        i
    }

    /// Puts the first ball that holds `selector_pos` down at `new_pos`,
    /// at a standstill and resting. Without such a ball nothing changes.
    pub fn move_ball_to(&mut self, selector_pos: Point, new_pos: Point)
        ensures
            final(self)@ == old(self)@.with_ball_moved(selector_pos, new_pos),
    {
        let k = self.find_ball_at(selector_pos);
        if k < self.balls.len() {
            let mut ball = self.balls[k];
            ball.move_ball(new_pos);
            self.balls.set(k, ball);
        }
    }

    /// Wakes the first ball that holds `pos`. Without such a ball nothing
    /// changes.
    pub fn wake_ball_at(&mut self, pos: Point)
        ensures
            final(self)@ == old(self)@.with_ball_woken(pos),
    {
        let k = self.find_ball_at(pos);
        if k < self.balls.len() {
            let mut ball = self.balls[k];
            ball.resting = false;
            self.balls.set(k, ball);
        }
    }

    /// Deletes the first ball that holds `selector_pos`. Without such a
    /// ball nothing changes.
    pub fn delete_ball_at(&mut self, selector_pos: Point)
        ensures
            final(self)@ == old(self)@.with_ball_deleted(selector_pos),
    {
        let k = self.find_ball_at(selector_pos);
        if k < self.balls.len() {
            self.balls.remove(k);
        }
    }

    /// Sets the attractor, or clears it.
    pub fn set_attractor(&mut self, pos: Option<Point>)
        ensures
            final(self)@ == old(self)@.with_attractor(pos),
    {
        self.gravity_point = pos;
    }

    /// Begins a launch at `pos` in the given colour.
    pub fn begin_spawn(&mut self, pos: Point, color: Color)
        ensures
            final(self)@ == old(self)@.spawn_begun(pos, color),
    {
        self.preview.mouse_down_pos = Some(pos);
        self.preview.color = Some(color);
    }

    /// Aims the launch with the pointer at `pos`.
    pub fn update_spawn_aim(&mut self, pos: Point)
        ensures
            final(self)@ == old(self)@.spawn_aimed(pos),
    {
        if let Some(down) = self.preview.mouse_down_pos {
            self.preview.arrow = aim(down, pos);
        }
    }

    /// Launches the ball with the pointer released at `pos`.
    pub fn commit_spawn(&mut self, pos: Point)
        ensures
            final(self)@ == old(self)@.spawn_committed(pos),
    {
        if let Some(down) = self.preview.mouse_down_pos {
            if let Some(color) = self.preview.color {
                let v = launch(down, pos);
                self.balls.push(Ball::new(down.x, down.y, v.0, v.1, DEFAULT_BALL_SIZE, color));
                self.preview = BallPreview::new();
            }
        }
    }

    /// Gives the launch up.
    pub fn cancel_spawn(&mut self)
        ensures
            final(self)@ == old(self)@.spawn_cancelled(),
    {
        self.preview = BallPreview::new();
    }
}

/// Lets the attraction tool see an event.
pub fn attraction_tool(event: &Event, data: &mut AppData)
    ensures
        final(data)@ == after_attraction_tool(old(data)@, *event),
{
    if !data.params.attraction_tool {
        return ;
    }
    match event {
        Event::MouseDown(e) => {
            if e.button == MouseButton::Right {
                data.set_attractor(Some(e.pos));
            }
        },
        Event::MouseUp(e) => {
            if e.button == MouseButton::Right {
                data.set_attractor(None);
            }
        },
        Event::MouseMove(e) => {
            if e.buttons.has_right() {
                data.set_attractor(Some(e.pos));
            }
        },
        _ => {},
    }
}

/// Lets the move tool see an event.
pub fn move_tool(event: &Event, data: &mut AppData)
    ensures
        final(data)@ == after_move_tool(old(data)@, *event),
{
    if !data.params.move_tool {
        return ;
    }
    match event {
        Event::MouseUp(e) => {
            if e.button == MouseButton::Left {
                data.wake_ball_at(e.pos);
            }
        },
        Event::MouseMove(e) => {
            if e.buttons.has_left() {
                data.move_ball_to(e.pos, e.pos);
            }
        },
        _ => {},
    }
}

/// Lets the delete tool see an event.
pub fn delete_tool(event: &Event, data: &mut AppData)
    ensures
        final(data)@ == after_delete_tool(old(data)@, *event),
{
    if !data.params.delete_tool {
        return ;
    }
    match event {
        Event::MouseDown(e) => {
            if e.button == MouseButton::Right {
                data.delete_ball_at(e.pos);
            }
        },
        _ => {},
    }
}

/// Lets the spawn tool see an event.
pub fn spawn_tool(event: &Event, data: &mut AppData)
    ensures
        final(data)@ == after_spawn_tool(old(data)@, *event),
{
    if !data.params.spawn_tool {
        return ;
    }
    match event {
        Event::MouseDown(e) => {
            if e.button == MouseButton::Left {
                let color = palette_color(data.balls.len() % PALETTE_SIZE);
                data.begin_spawn(e.pos, color);
            }
        },
        Event::MouseUp(e) => {
            if e.button == MouseButton::Left {
                data.commit_spawn(e.pos);
            }
        },
        Event::MouseMove(e) => {
            if e.buttons.has_left() {
                data.update_spawn_aim(e.pos);
            }
        },
        _ => {},
    }
}

} // verus!
