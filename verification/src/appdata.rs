//! The world: its bodies, its settings, and the step that moves it on.

use vstd::prelude::*;
use crate::ball::Ball;
use crate::ball_preview::BallPreview;
use crate::fixed::{narrow, saturate};
use crate::geometry::{Color, Point, Size, RED};
use crate::obstacle::Obstacle;
use crate::search::{lemma_first_index, without_first};

verus! {

/// The switches of a session.
#[derive(Clone, Copy, Debug, PartialEq, Eq, Structural)]
pub struct Params {
    pub zero_gravity: bool,
    pub walls: bool,
    pub delete_tool: bool,
    pub spawn_tool: bool,
    pub attraction_tool: bool,
    pub move_tool: bool,
    pub paused: bool,
}

impl Params {
    /// The switches as a session starts: gravity and walls on, the spawn
    /// and attraction tools armed, running.
    pub open spec fn initial() -> Params {
        Params {
            zero_gravity: false,
            walls: true,
            delete_tool: false,
            spawn_tool: true,
            attraction_tool: true,
            move_tool: false,
            paused: false,
        }
    }

    pub fn new() -> (p: Params)
        ensures
            p == Params::initial(),
    {
        Params {
            zero_gravity: false,
            walls: true,
            delete_tool: false,
            spawn_tool: true,
            attraction_tool: true,
            move_tool: false,
            paused: false,
        }
    }
}

/// Thickness of the walls that stand around the surface: a hundred units.
pub const WALL_THICKNESS: i32 = 100_000;

/// The world as a value: what [`AppData`] holds, its collections as
/// sequences.
pub struct World {
    pub obstacles: Seq<Obstacle>,
    pub balls: Seq<Ball>,
    pub size: Size,
    pub preview: BallPreview,
    pub gravity_point: Option<Point>,
    pub gravity_tuple: (i32, i32),
    pub border_wall: Option<Seq<Obstacle>>,
    pub params: Params,
}

/// The four walls around a surface: below, to the right, to the left and
/// above, each `WALL_THICKNESS` thick and as long as its side.
pub open spec fn borders(size: Size) -> Seq<Obstacle> {
    let w = size.width;
    let h = size.height;
    let red = Color { rgba: RED };
    seq![
        Obstacle::spanned(Point { x: 0, y: h }, Point { x: w, y: saturate(h + WALL_THICKNESS) }, red),
        Obstacle::spanned(Point { x: w, y: 0 }, Point { x: saturate(w + WALL_THICKNESS), y: h }, red),
        Obstacle::spanned(Point { x: saturate(-WALL_THICKNESS), y: 0 }, Point { x: 0, y: h }, red),
        Obstacle::spanned(Point { x: 0, y: saturate(-WALL_THICKNESS) }, Point { x: w, y: 0 }, red),
    ]
}

/// The obstacles that equal `obstacle`.
pub open spec fn same_obstacle(obstacle: Obstacle) -> spec_fn(Obstacle) -> bool {
    |o: Obstacle| o == obstacle
}

/// The balls that agree with `ball` in place, velocity, radius and colour.
pub open spec fn same_ball(ball: Ball) -> spec_fn(Ball) -> bool {
    |b: Ball| ball.equals_spec(b)
}

/// `s` after the first `k` of `gone` were taken out of it one after the
/// other, each where it first stood.
pub open spec fn stripped(s: Seq<Obstacle>, gone: Seq<Obstacle>, k: int) -> Seq<Obstacle>
    decreases k,
{
    if k <= 0 {
        s
    } else {
        without_first(stripped(s, gone, k - 1), same_obstacle(gone[k - 1]))
    }
}

impl World {
    /// The world with one more obstacle, behind the others.
    pub open spec fn with_obstacle(self, obstacle: Obstacle) -> World {
        World { obstacles: self.obstacles.push(obstacle), ..self }
    }

    /// The world without the first obstacle that equals `obstacle`.
    pub open spec fn without_obstacle(self, obstacle: Obstacle) -> World {
        World { obstacles: without_first(self.obstacles, same_obstacle(obstacle)), ..self }
    }

    /// The world with one more ball, behind the others.
    pub open spec fn with_ball(self, ball: Ball) -> World {
        World { balls: self.balls.push(ball), ..self }
    }

    /// The world without the first ball that agrees with `ball` in place,
    /// velocity, radius and colour.
    pub open spec fn without_ball(self, ball: Ball) -> World {
        World { balls: without_first(self.balls, same_ball(ball)), ..self }
    }

    /// The obstacles that are no walls: all of them where no walls stand.
    pub open spec fn without_walls(self) -> Seq<Obstacle> {
        match self.border_wall {
            Some(walls) => stripped(self.obstacles, walls, walls.len() as int),
            None => self.obstacles,
        }
    }

    /// The world with walls around its surface as it is now; walls that
    /// stood before are gone.
    pub open spec fn with_border_wall(self) -> World {
        World {
            obstacles: self.without_walls() + borders(self.size),
            border_wall: Some(borders(self.size)),
            ..self
        }
    }

    /// The world with its walls taken down.
    pub open spec fn with_no_wall(self) -> World {
        World { obstacles: self.without_walls(), border_wall: None, ..self }
    }

    /// The world on a surface of another size, with walls around it.
    pub open spec fn resized(self, size: Size) -> World {
        (World { size, ..self }).with_border_wall()
    }
}

impl View for AppData {
    type V = World;

    open spec fn view(&self) -> World {
        World {
            obstacles: self.obstacles@,
            balls: self.balls@,
            size: self.size,
            preview: self.preview,
            gravity_point: self.gravity_point,
            gravity_tuple: self.gravity_tuple,
            border_wall: match self.border_wall {
                Some(walls) => Some(walls@),
                None => None,
            },
            params: self.params,
        }
    }
}

/// The world and the state of the session around it.
#[derive(Debug, PartialEq)]
pub struct AppData {
    pub obstacles: Vec<Obstacle>,
    pub balls: Vec<Ball>,
    pub size: Size,
    pub preview: BallPreview,
    pub gravity_point: Option<Point>,
    pub gravity_tuple: (i32, i32),
    pub border_wall: Option<[Obstacle; 4]>,
    pub params: Params,
}

impl Clone for AppData {
    fn clone(&self) -> (data: AppData)
        ensures
            data@ == self@,
    {
        let obstacles = self.obstacles.clone();
        let balls = self.balls.clone();
        assert(obstacles@ =~= self.obstacles@);
        assert(balls@ =~= self.balls@);
        AppData {
            obstacles,
            balls,
            size: self.size,
            preview: self.preview,
            gravity_point: self.gravity_point,
            gravity_tuple: self.gravity_tuple,
            border_wall: self.border_wall,
            params: self.params,
        }
    }
}

impl AppData {
    /// An empty world of the given size under the given constant pull.
    pub fn new(size: Size, gravity_tuple: (i32, i32)) -> (data: AppData)
        ensures
            data.obstacles@ == Seq::<Obstacle>::empty(),
            data.balls@ == Seq::<Ball>::empty(),
            data.size == size,
            data.preview == BallPreview::empty(),
            data.gravity_point == None::<Point>,
            data.gravity_tuple == gravity_tuple,
            data.border_wall is None,
            data.params == Params::initial(),
    {
        AppData {
            obstacles: Vec::new(),
            balls: Vec::new(),
            size,
            preview: BallPreview::new(),
            gravity_point: None,
            gravity_tuple,
            border_wall: None,
            params: Params::new(),
        }
    }

    /// Gives the surface another size and puts walls around it.
    pub fn set_size(&mut self, size: Size)
        ensures
            final(self)@ == old(self)@.resized(size),
    {
        self.size = size;
        self.set_border_wall();
    }

    /// Adds an obstacle behind the others.
    pub fn add_obstacle(&mut self, obstacle: Obstacle)
        ensures
            final(self)@ == old(self)@.with_obstacle(obstacle),
    {
        self.obstacles.push(obstacle);
    }

    /// Removes the first obstacle that equals `obstacle`, if there is one.
    pub fn remove_obstacle(&mut self, obstacle: Obstacle)
        ensures
            final(self)@ == old(self)@.without_obstacle(obstacle),
    {
        let ghost wanted = same_obstacle(obstacle);
        let mut i: usize = 0;
        while i < self.obstacles.len()
            invariant
                *self == *old(self),
                i <= self.obstacles@.len(),
                wanted == same_obstacle(obstacle),
                forall|j: int| 0 <= j < i ==> !wanted(#[trigger] self.obstacles@[j]),
            decreases self.obstacles@.len() - i,
        {
            if obstacle.equals(&self.obstacles[i]) {
                proof {
                    lemma_first_index(self.obstacles@, wanted, i as int);
                }
                self.obstacles.remove(i);
                return ;
            }
            i += 1;
        }
        proof {
            lemma_first_index(self.obstacles@, wanted, i as int);
        }

    }

    /// Removes the first ball that agrees with `ball` in place, velocity,
    /// radius and colour, if there is one.
    pub fn remove_ball(&mut self, ball: Ball)
        ensures
            final(self)@ == old(self)@.without_ball(ball),
    {
        let ghost wanted = same_ball(ball);
        let mut i: usize = 0;
        while i < self.balls.len()
            invariant
                *self == *old(self),
                i <= self.balls@.len(),
                wanted == same_ball(ball),
                forall|j: int| 0 <= j < i ==> !wanted(#[trigger] self.balls@[j]),
            decreases self.balls@.len() - i,
        {
            if ball.equals(&self.balls[i]) {
                proof {
                    lemma_first_index(self.balls@, wanted, i as int);
                }
                self.balls.remove(i);
                return ;
            }
            i += 1;
        }
        proof {
            lemma_first_index(self.balls@, wanted, i as int);
        }
    }

    /// Adds a ball behind the others.
    pub fn add_ball(&mut self, ball: Ball)
        ensures
            final(self)@ == old(self)@.with_ball(ball),
    {
        self.balls.push(ball);
    }

    /// Takes the walls out of the obstacles, each where it first stands.
    fn strip_walls(&mut self)
        ensures
            final(self)@ == (World { obstacles: old(self)@.without_walls(), ..old(self)@ }),
    {
        if let Some(walls) = self.border_wall {
            let mut k: usize = 0;
            while k < 4
                invariant
                    k <= 4,
                    self.border_wall == Some(walls),
                    self@ == (World { obstacles: stripped(old(self)@.obstacles, walls@, k as int), ..old(self)@ }),
                decreases 4 - k,
            {
                self.remove_obstacle(walls[k]);
                k += 1;
            }
        }
    }

    /// Puts walls around the surface as it is now, in place of any that
    /// stood before.
    pub fn set_border_wall(&mut self)
        ensures
            final(self)@ == old(self)@.with_border_wall(),
    {
        let w = self.size.width;
        let h = self.size.height;
        let red = Color::from_rgba32_u32(RED);
        let walls = [
            Obstacle::new(Point::new(0, h), Point::new(w, narrow(h as i128 + WALL_THICKNESS as i128)), red),
            Obstacle::new(Point::new(w, 0), Point::new(narrow(w as i128 + WALL_THICKNESS as i128), h), red),
            Obstacle::new(Point::new(-WALL_THICKNESS, 0), Point::new(0, h), red),
            Obstacle::new(Point::new(0, -WALL_THICKNESS), Point::new(w, 0), red),
        ];
        assert(walls@ =~= borders(self.size));
        self.strip_walls();
        let mut k: usize = 0;
        while k < 4
            invariant
                k <= 4,
                walls@ == borders(old(self).size),
                self@ == (World {
                    obstacles: old(self)@.without_walls() + walls@.subrange(0, k as int),
                    ..old(self)@
                }),
            decreases 4 - k,
        {
            self.add_obstacle(walls[k]);
            assert(walls@.subrange(0, k as int).push(walls@[k as int]) =~= walls@.subrange(
                0,
                k + 1,
            ));
            k += 1;
        }
        assert(walls@.subrange(0, 4) =~= walls@);
        self.border_wall = Some(walls);
    }

    /// Takes the walls down, if any stand.
    pub fn remove_wall(&mut self)
        ensures
            final(self)@ == old(self)@.with_no_wall(),
    {
        self.strip_walls();
        self.border_wall = None;
    }
}

} // verus!
