//! One step of the simulation.

use vstd::prelude::*;
use crate::appdata::{AppData, World};
use crate::ball::Ball;
use crate::collision::{are_balls_overlapping, overlapping, resolve_ball_overlap, resolved_pair};
use crate::obstacle::Obstacle;

verus! {

/// The ball after it has met the first `k` obstacles, one after the other.
pub open spec fn met_obstacles(ball: Ball, obstacles: Seq<Obstacle>, k: int) -> Ball
    decreases k,
{
    if k <= 0 {
        ball
    } else {
        obstacles[k - 1].collided(met_obstacles(ball, obstacles, k - 1))
    }
}

/// The balls after the one at `i` has met the first `k` of the others, one
/// after the other: each collision of an overlapping pair is resolved for
/// both of its balls before the next pair is looked at.
pub open spec fn met_neighbours(balls: Seq<Ball>, i: int, k: int) -> Seq<Ball>
    decreases k,
{
    if k <= 0 {
        balls
    } else {
        let before = met_neighbours(balls, i, k - 1);
        if i != k - 1 && overlapping(before[i], before[k - 1]) {
            let pair = resolved_pair(before[i], before[k - 1]);
            before.update(i, pair.0).update(k - 1, pair.1)
        } else {
            before
        }
    }
}

impl World {
    /// The ball one step later in this world, collisions apart.
    pub open spec fn moved(self, ball: Ball) -> Ball {
        ball.updated(self.size, self.params.walls, self.gravity_point, self.gravity_tuple)
    }

    /// The balls after the turn of the one at `i`: it moves, meets every
    /// obstacle in order, and then every other ball in order. A ball that
    /// rests as its turn comes has none.
    pub open spec fn turn(self, balls: Seq<Ball>, i: int) -> Seq<Ball> {
        if balls[i].resting {
            balls
        } else {
            let ball = met_obstacles(self.moved(balls[i]), self.obstacles, self.obstacles.len() as int);
            met_neighbours(balls.update(i, ball), i, balls.len() as int)
        }
    }

    /// The balls after the first `k` of them have had their turns, in
    /// order: a later ball meets the earlier ones where their turns have
    /// left them.
    pub open spec fn turns(self, balls: Seq<Ball>, k: int) -> Seq<Ball>
        decreases k,
    {
        if k <= 0 {
            balls
        } else {
            self.turn(self.turns(balls, k - 1), k - 1)
        }
    }

    /// How many of the first `k` balls the edge of the surface puts to rest
    /// in their turns.
    pub open spec fn halted(self, balls: Seq<Ball>, k: int) -> nat
        decreases k,
    {
        if k <= 0 {
            0
        } else {
            let before = self.turns(balls, k - 1);
            let one: nat = if !before[k - 1].resting && self.moved(before[k - 1]).resting {
                1
            } else {
                0
            };
            self.halted(balls, k - 1) + one
        }
    }

    /// How many balls the edge of the surface puts to rest in the next
    /// step.
    pub open spec fn strays(self) -> nat {
        self.halted(self.balls, self.balls.len() as int)
    }

    /// The world one step later: every ball has had its turn.
    pub open spec fn stepped(self) -> World {
        World { balls: self.turns(self.balls, self.balls.len() as int), ..self }
    }
}

/// Meeting other balls keeps the number of balls.
pub proof fn lemma_met_neighbours_len(balls: Seq<Ball>, i: int, k: int)
    requires
        0 <= i < balls.len(),
        k <= balls.len(),
    ensures
        met_neighbours(balls, i, k).len() == balls.len(),
    decreases k,
{
    if k > 0 {
        lemma_met_neighbours_len(balls, i, k - 1);
    }
}

impl AppData {
    /// Lets the ball at `i` meet every obstacle, in order.
    fn meet_obstacles(&mut self, i: usize)
        requires
            i < old(self).balls@.len(),
        ensures
            final(self)@ == (World {
                balls: old(self)@.balls.update(
                    i as int,
                    met_obstacles(
                        old(self)@.balls[i as int],
                        old(self)@.obstacles,
                        old(self)@.obstacles.len() as int,
                    ),
                ),
                ..old(self)@
            }),
    {
        let mut k: usize = 0;
        assert(self.balls@ =~= old(self)@.balls.update(i as int, old(self)@.balls[i as int]));
        while k < self.obstacles.len()
            invariant
                k <= self.obstacles@.len(),
                i < self.balls@.len(),
                i < old(self)@.balls.len(),
                self@ == (World {
                    balls: old(self)@.balls.update(
                        i as int,
                        met_obstacles(old(self)@.balls[i as int], old(self)@.obstacles, k as int),
                    ),
                    ..old(self)@
                }),
            decreases self.obstacles@.len() - k,
        {
            let obstacle = self.obstacles[k];
            obstacle.collide(&mut self.balls, i);
            assert(self.balls@ =~= old(self)@.balls.update(
                i as int,
                met_obstacles(old(self)@.balls[i as int], old(self)@.obstacles, k + 1),
            ));
            k += 1;
        }
    }

    /// Lets the ball at `i` meet every other ball, in order.
    fn meet_neighbours(&mut self, i: usize)
        requires
            i < old(self).balls@.len(),
        ensures
            final(self)@ == (World {
                balls: met_neighbours(old(self)@.balls, i as int, old(self)@.balls.len() as int),
                ..old(self)@
            }),
    {
        let n = self.balls.len();
        let mut j: usize = 0;
        while j < n
            invariant
                j <= n,
                i < n,
                n == self.balls@.len(),
                n == old(self)@.balls.len(),
                self@ == (World { balls: met_neighbours(old(self)@.balls, i as int, j as int), ..old(self)@ }),
            decreases n - j,
        {
            if i != j {
                if are_balls_overlapping(&self.balls[i], &self.balls[j]) {
                    resolve_ball_overlap(&mut self.balls, i, j);
                }
            }
            j += 1;
        }
    }

    /// Moves the world on by one step: each ball that does not rest moves
    /// in its turn, meets the obstacles and then the other balls. Returns
    /// how many balls the edge of the surface has put to rest.
    pub fn update(&mut self) -> (strays: usize)
        ensures
            final(self)@ == old(self)@.stepped(),
            strays == old(self)@.strays(),
    {
        let n = self.balls.len();
        let mut strays: usize = 0;
        let mut i: usize = 0;
        while i < n
            invariant
                i <= n,
                n == self.balls@.len(),
                n == old(self)@.balls.len(),
                self@ == (World { balls: old(self)@.turns(old(self)@.balls, i as int), ..old(self)@ }),
                strays == old(self)@.halted(old(self)@.balls, i as int),
                strays <= i,
            decreases n - i,
        {
            let ghost before = self.balls@;
            let mut ball = self.balls[i];
            if !ball.resting {
                ball.update(&*self);
                if ball.resting {
                    strays += 1;
                }
                self.balls.set(i, ball);
                self.meet_obstacles(i);
                let ghost met = met_obstacles(
                    old(self)@.moved(before[i as int]),
                    self.obstacles@,
                    self.obstacles@.len() as int,
                );
                assert(self.balls@ =~= before.update(i as int, met));
                self.meet_neighbours(i);
                proof {
                    lemma_met_neighbours_len(before.update(i as int, met), i as int, n as int);
                }
            }
            i += 1;
        }
        strays
    }
}

} // verus!
