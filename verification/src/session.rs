//! The session around the world: the frame timer, the dispatch of events,
//! the menu, the first world, and what a frame draws.

use vstd::prelude::*;
use crate::appdata::{AppData, Params, World};
use crate::ball::Ball;
use crate::ball_preview::BallPreview;
use crate::event::Event;
use crate::geometry::{Color, Point, Rect, Size, BLACK, GREEN, OLIVE, RED, SILVER, WHITE, YELLOW};
use crate::obstacle::Obstacle;
use crate::scene::DrawOp;
use crate::tools::{
    after_attraction_tool, after_delete_tool, after_move_tool, after_spawn_tool, attraction_tool,
    delete_tool, move_tool, spawn_tool, DEFAULT_BALL_SIZE,
};

verus! {

/// Downward pull while gravity is on: a fifth of a unit a step.
pub const DEFAULT_GRAVITY: i32 = 200;

/// Time between two ticks of the frame timer, in milliseconds.
pub fn frame_millis(updates_per_second: u64) -> (millis: u64)
    requires
        updates_per_second > 0,
    ensures
        millis == 1000u64 / updates_per_second,
{
    1000 / updates_per_second
}

/// What the host is asked to do after an event.
#[derive(Clone, Copy, Debug, PartialEq, Eq, Structural)]
pub struct Reaction {
    /// Draw the surface again.
    pub repaint: bool,
    /// Start the frame timer again.
    pub restart_timer: bool,
    /// Report so many balls that the edge of the surface has put to rest.
    pub out_of_bounds: usize,
}

/// An entry of the menu.
#[derive(Clone, Copy, Debug, PartialEq, Eq, Structural)]
pub enum MenuItem {
    ZeroGravity,
    Walls,
    SpawnTool,
    MoveTool,
    AttractionTool,
    DeleteTool,
    Pause,
}

impl Params {
    /// The switches after a click on a menu entry: the entry's own switch
    /// flips. Of the two tools on one button only one can be armed, so a
    /// click on the entry of one disarms the other.
    pub open spec fn clicked(self, item: MenuItem) -> Params {
        match item {
            MenuItem::ZeroGravity => Params { zero_gravity: !self.zero_gravity, ..self },
            MenuItem::Walls => Params { walls: !self.walls, ..self },
            MenuItem::SpawnTool => Params { spawn_tool: !self.spawn_tool, move_tool: false, ..self },
            MenuItem::MoveTool => Params { move_tool: !self.move_tool, spawn_tool: false, ..self },
            MenuItem::AttractionTool => Params {
                attraction_tool: !self.attraction_tool,
                delete_tool: false,
                ..self
            },
            MenuItem::DeleteTool => Params {
                delete_tool: !self.delete_tool,
                attraction_tool: false,
                ..self
            },
            MenuItem::Pause => Params { paused: !self.paused, ..self },
        }
    }

    /// Applies a click on a menu entry.
    pub fn click(&mut self, item: MenuItem)
        ensures
            *final(self) == old(self).clicked(item),
    {
        match item {
            MenuItem::ZeroGravity => {
                self.zero_gravity = !self.zero_gravity;
            },
            MenuItem::Walls => {
                self.walls = !self.walls;
            },
            MenuItem::SpawnTool => {
                self.spawn_tool = !self.spawn_tool;
                self.move_tool = false;
            },
            MenuItem::MoveTool => {
                self.move_tool = !self.move_tool;
                self.spawn_tool = false;
            },
            MenuItem::AttractionTool => {
                self.attraction_tool = !self.attraction_tool;
                self.delete_tool = false;
            },
            MenuItem::DeleteTool => {
                self.delete_tool = !self.delete_tool;
                self.attraction_tool = false;
            },
            MenuItem::Pause => {
                self.paused = !self.paused;
            },
        }
    }
}

/// `o` is one of the walls.
pub open spec fn is_wall(walls: Option<Seq<Obstacle>>, o: Obstacle) -> bool {
    match walls {
        Some(w) => o == w[0] || o == w[1] || o == w[2] || o == w[3],
        None => false,
    }
}

/// What the first `k` obstacles draw: each its outline, the walls nothing.
pub open spec fn obstacles_drawn(obstacles: Seq<Obstacle>, walls: Option<Seq<Obstacle>>, k: int) -> Seq<
    DrawOp,
>
    decreases k,
{
    if k <= 0 {
        Seq::empty()
    } else if is_wall(walls, obstacles[k - 1]) {
        obstacles_drawn(obstacles, walls, k - 1)
    } else {
        obstacles_drawn(obstacles, walls, k - 1).push(obstacles[k - 1].drawn())
    }
}

/// What the balls draw: each its disc.
pub open spec fn balls_drawn(balls: Seq<Ball>) -> Seq<DrawOp> {
    Seq::new(balls.len(), |i: int| balls[i].drawn())
}

/// The world as a session on a surface of the given size begins with it.
pub open spec fn initial_world(size: Size) -> World {
    let white = Color { rgba: WHITE };
    let red = Color { rgba: RED };
    World {
        obstacles: seq![
            Obstacle::spanned(Point { x: 200_000, y: 200_000 }, Point { x: 300_000, y: 300_000 }, red),
            Obstacle::spanned(Point { x: 50_000, y: 600_000 }, Point { x: 550_000, y: 610_000 }, red),
            Obstacle::spanned(Point { x: 50_000, y: 50_000 }, Point { x: 59_000, y: 59_000 }, red),
        ],
        balls: seq![
            Ball::started(100_000, 100_000, 21_000, -10_000, white),
            Ball::started(25_000, 15_000, -5_000, -3_000, Color { rgba: GREEN }),
            Ball::started(50_000, 50_000, 0, 15_000, Color { rgba: SILVER }),
            Ball::started(220_000, 110_000, 0, 5_000, Color { rgba: YELLOW }),
            Ball::started(400_000, 500_000, -10_000, 1_000, Color { rgba: OLIVE }),
        ],
        size,
        preview: BallPreview::empty(),
        gravity_point: None,
        gravity_tuple: (0, DEFAULT_GRAVITY),
        border_wall: None,
        params: Params::initial(),
    }
}

impl Ball {
    /// A ball of the default size in motion.
    pub open spec fn started(x: int, y: int, vx: int, vy: int, color: Color) -> Ball {
        Ball {
            x: x as i32,
            y: y as i32,
            vx: vx as i32,
            vy: vy as i32,
            radius: DEFAULT_BALL_SIZE,
            color,
            resting: false,
            terminal_velocity: DEFAULT_BALL_SIZE,
        }
    }
}

impl World {
    /// The world with its constant pull as the gravity switch asks: none
    /// while gravity is off, the default one when it is on again.
    pub open spec fn gravity_synced(self) -> World {
        if self.params.zero_gravity && self.gravity_tuple != (0i32, 0i32) {
            World { gravity_tuple: (0, 0), ..self }
        } else if !self.params.zero_gravity && self.gravity_tuple == (0i32, 0i32) {
            World { gravity_tuple: (0, DEFAULT_GRAVITY), ..self }
        } else {
            self
        }
    }

    /// The world with its walls as the walls switch asks: put up where
    /// they are missing, taken down where they are not wanted.
    pub open spec fn walls_synced(self) -> World {
        if self.params.walls && self.border_wall is None {
            self.with_border_wall()
        } else if !self.params.walls && self.border_wall is Some {
            self.with_no_wall()
        } else {
            self
        }
    }

    /// The world on a surface of the given size: as it is where it has
    /// that size, else resized.
    pub open spec fn sized(self, surface: Size) -> World {
        if self.size != surface {
            self.resized(surface)
        } else {
            self
        }
    }

    /// The world after a tick of the frame timer on a surface of the given
    /// size: it takes that size, moves on by one step unless paused, and
    /// then follows its gravity and walls switches.
    pub open spec fn ticked(self, surface: Size) -> World {
        let sized = self.sized(surface);
        let moved = if sized.params.paused { sized } else { sized.stepped() };
        moved.gravity_synced().walls_synced()
    }

    /// How many balls the edge of the surface puts to rest at a tick of
    /// the frame timer on a surface of the given size.
    pub open spec fn ticked_strays(self, surface: Size) -> nat {
        if self.params.paused {
            0
        } else {
            self.sized(surface).strays()
        }
    }

    /// The world after the four tools have seen the event: the attraction
    /// tool first, then the move, the delete and the spawn tool.
    pub open spec fn after_tools(self, event: Event) -> World {
        after_spawn_tool(
            after_delete_tool(after_move_tool(after_attraction_tool(self, event), event), event),
            event,
        )
    }

    /// The world after an event. A tick of the timer moves it on. A
    /// pointer that moves while it is not over the surface ends the launch
    /// and the attraction. Else the tools see the event, unless the world
    /// is paused.
    pub open spec fn after_event(self, event: Event, surface: Size, hot: bool) -> World {
        let seen = if event is Timer { self.ticked(surface) } else { self };
        if event is MouseMove && !hot {
            seen.spawn_cancelled().with_attractor(None)
        } else if seen.params.paused {
            seen
        } else {
            seen.after_tools(event)
        }
    }

    /// What the host is asked to do after an event on a surface of the
    /// given size: when the surface comes up, to draw and to start the
    /// timer; at each tick, to start the timer again and, unless paused, to
    /// draw and to report the balls that the edge has put to rest.
    pub open spec fn reaction(self, event: Event, surface: Size) -> Reaction {
        match event {
            Event::WindowConnected => Reaction { repaint: true, restart_timer: true, out_of_bounds: 0 },
            Event::Timer => Reaction {
                repaint: !self.params.paused,
                restart_timer: true,
                out_of_bounds: self.ticked_strays(surface) as usize,
            },
            _ => Reaction { repaint: false, restart_timer: false, out_of_bounds: 0 },
        }
    }

    /// What a frame draws on a surface of the given size: the black
    /// background, the obstacles that are no walls, the balls, and the
    /// preview of a launch.
    pub open spec fn drawn(self, surface: Size) -> Seq<DrawOp> {
        seq![
            DrawOp::FillRect(
                Rect { x0: 0, y0: 0, x1: surface.width, y1: surface.height },
                Color { rgba: BLACK },
            ),
        ] + obstacles_drawn(self.obstacles, self.border_wall, self.obstacles.len() as int)
            + balls_drawn(self.balls) + self.preview.drawn(DEFAULT_BALL_SIZE)
    }
}

/// The world that a session on a surface of the given size begins with.
pub fn get_new_appdata(size: Size) -> (data: AppData)
    ensures
        data@ == initial_world(size),
{
    let mut data = AppData::new(size, (0, DEFAULT_GRAVITY));
    let red = Color::from_rgba32_u32(RED);
    data.add_ball(Ball::new(100_000, 100_000, 21_000, -10_000, DEFAULT_BALL_SIZE, Color::from_rgba32_u32(WHITE)));
    data.add_ball(Ball::new(25_000, 15_000, -5_000, -3_000, DEFAULT_BALL_SIZE, Color::from_rgba32_u32(GREEN)));
    data.add_ball(Ball::new(50_000, 50_000, 0, 15_000, DEFAULT_BALL_SIZE, Color::from_rgba32_u32(SILVER)));
    data.add_ball(Ball::new(220_000, 110_000, 0, 5_000, DEFAULT_BALL_SIZE, Color::from_rgba32_u32(YELLOW)));
    data.add_ball(Ball::new(400_000, 500_000, -10_000, 1_000, DEFAULT_BALL_SIZE, Color::from_rgba32_u32(OLIVE)));
    data.add_obstacle(Obstacle::new(Point::new(200_000, 200_000), Point::new(300_000, 300_000), red));
    data.add_obstacle(Obstacle::new(Point::new(50_000, 600_000), Point::new(550_000, 610_000), red));
    data.add_obstacle(Obstacle::new(Point::new(50_000, 50_000), Point::new(59_000, 59_000), red));
    assert(data@.balls =~= initial_world(size).balls);
    assert(data@.obstacles =~= initial_world(size).obstacles);
    data
}

impl AppData {
    /// Pauses the world, or lets it run.
    pub fn set_paused(&mut self, paused: bool)
        ensures
            final(self)@ == (World { params: Params { paused, ..old(self)@.params }, ..old(self)@ }),
    {
        self.params.paused = paused;
    }

    /// Switches the walls on or off, and puts them up or takes them down
    /// accordingly.
    pub fn set_walls_enabled(&mut self, walls: bool)
        ensures
            final(self)@ == (World { params: Params { walls, ..old(self)@.params }, ..old(self)@ })
                .walls_synced(),
    {
        self.params.walls = walls;
        self.sync_walls();
    }

    /// Switches gravity off or on, and sets the constant pull accordingly.
    pub fn set_zero_gravity(&mut self, zero_gravity: bool)
        ensures
            final(self)@ == (World { params: Params { zero_gravity, ..old(self)@.params }, ..old(self)@ })
                .gravity_synced(),
    {
        self.params.zero_gravity = zero_gravity;
        self.sync_gravity();
    }

    /// Makes the constant pull follow the gravity switch.
    pub fn sync_gravity(&mut self)
        ensures
            final(self)@ == old(self)@.gravity_synced(),
    {
        let still = self.gravity_tuple.0 == 0 && self.gravity_tuple.1 == 0;
        if self.params.zero_gravity && !still {
            self.gravity_tuple = (0, 0);
        } else if !self.params.zero_gravity && still {
            self.gravity_tuple = (0, DEFAULT_GRAVITY);
        }
    }

    /// Makes the walls follow the walls switch.
    pub fn sync_walls(&mut self)
        ensures
            final(self)@ == old(self)@.walls_synced(),
    {
        if self.params.walls && self.border_wall.is_none() {
            self.set_border_wall();
        } else if !self.params.walls && self.border_wall.is_some() {
            self.remove_wall();
        }
    }

    /// Handles a tick of the frame timer on a surface of the given size.
    /// Returns how many balls the edge of the surface has put to rest.
    pub fn tick(&mut self, surface: Size) -> (strays: usize)
        ensures
            final(self)@ == old(self)@.ticked(surface),
            strays == old(self)@.ticked_strays(surface),
    {
        if self.size != surface {
            self.set_size(surface);
        }
        let strays = if !self.params.paused { self.update() } else { 0 };
        self.sync_gravity();
        self.sync_walls();
        strays
    }

    /// Handles an event. `surface` is the size of the surface as the host
    /// has it, and `hot` tells whether the pointer is over it.
    pub fn handle_event(&mut self, event: &Event, surface: Size, hot: bool) -> (reaction: Reaction)
        ensures
            final(self)@ == old(self)@.after_event(*event, surface, hot),
            reaction == old(self)@.reaction(*event, surface),
    {
        let mut reaction = match event {
            Event::WindowConnected => Reaction { repaint: true, restart_timer: true, out_of_bounds: 0 },
            Event::Timer => Reaction {
                repaint: !self.params.paused,
                restart_timer: true,
                out_of_bounds: 0,
            },
            _ => Reaction { repaint: false, restart_timer: false, out_of_bounds: 0 },
        };
        match event {
            Event::Timer => {
                reaction.out_of_bounds = self.tick(surface);
            },
            Event::MouseMove(_) => {
                if !hot {
                    self.cancel_spawn();
                    self.set_attractor(None);
                    return reaction;
                }
            },
            _ => {},
        }
        if self.params.paused {
            return reaction;
        }
        attraction_tool(event, self);
        move_tool(event, self);
        delete_tool(event, self);
        spawn_tool(event, self);
        reaction
    }

    /// Whether `obstacle` is one of the walls.
    fn is_border(&self, obstacle: &Obstacle) -> (wall: bool)
        ensures
            wall == is_wall(self@.border_wall, *obstacle),
    {
        match &self.border_wall {
            Some(w) => obstacle.equals(&w[0]) || obstacle.equals(&w[1]) || obstacle.equals(&w[2])
                || obstacle.equals(&w[3]),
            None => false,
        }
    }

    /// Lists what a frame draws on a surface of the given size.
    pub fn paint(&self, surface: Size) -> (scene: Vec<DrawOp>)
        ensures
            scene@ == self@.drawn(surface),
    {
        let mut scene: Vec<DrawOp> = Vec::new();
        scene.push(DrawOp::FillRect(Rect::new(0, 0, surface.width, surface.height), Color::from_rgba32_u32(BLACK)));
        let ghost background = scene@;
        let mut k: usize = 0;
        while k < self.obstacles.len()
            invariant
                k <= self.obstacles@.len(),
                scene@ == background + obstacles_drawn(self@.obstacles, self@.border_wall, k as int),
            decreases self.obstacles@.len() - k,
        {
            let obstacle = self.obstacles[k];
            if !self.is_border(&obstacle) {
                obstacle.paint(&mut scene);
            }
            assert(scene@ =~= background + obstacles_drawn(self@.obstacles, self@.border_wall, k + 1));
            k += 1;
        }
        let ghost behind = scene@;
        let mut i: usize = 0;
        while i < self.balls.len()
            invariant
                i <= self.balls@.len(),
                scene@ == behind + balls_drawn(self.balls@.subrange(0, i as int)),
            decreases self.balls@.len() - i,
        {
            let ball = self.balls[i];
            ball.paint(&mut scene);
            assert(scene@ =~= behind + balls_drawn(self.balls@.subrange(0, i + 1)));
            i += 1;
        }
        assert(self.balls@.subrange(0, i as int) =~= self.balls@);
        self.preview.paint(&mut scene, DEFAULT_BALL_SIZE);
        scene
    }
}

} // verus!
