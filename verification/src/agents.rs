//! Prey agents: position, energy and reproduction bookkeeping, sensing,
//! and movement over the toroidal grid.
//!
//! A prey's decisions are made by a small feedforward neural network that
//! it owns. The network's parameters are floating point and its
//! evaluation cannot stand in this verified library; the host keeps one
//! network per prey and hands the chosen action (the argmax index of the
//! network's output over the sense vector) to [`Prey::take_step`]. The
//! sense vector itself is built here, by [`Prey::look`].
//!
//! All position arithmetic wraps on the flat row-major index modulo
//! `width * height` — a wrap that can cross row boundaries near grid
//! edges. That flat-index wrap is the simulation's defined semantics, not
//! an accident; it is preserved exactly.

use crate::grid::Grid;
use vstd::prelude::*;

verus! {

/// The destination of one move from `pos` on a torus of `n` cells with
/// rows of `width`: action 0 stays, 1 moves east (+1), 2 moves west (-1),
/// 3 moves south (+width), and any other action moves north (-width).
/// Subtractions are written as additions of `n - x` so the operand stays
/// non-negative before the modulo.
pub open spec fn move_dest(pos: int, action: int, width: int, n: int) -> int {
    if action == 0 {
        pos
    } else if action == 1 {
        (pos + 1) % n
    } else if action == 2 {
        (pos + n - 1) % n
    } else if action == 3 {
        (pos + width) % n
    } else {
        (pos + n - width) % n
    }
}

/// The four cells sensed at ray distance `i` from `pos`: east, west,
/// south, north, each on the flat index modulo `n`.
pub open spec fn ray_at(g: Seq<i8>, width: int, n: int, pos: int, i: int) -> Seq<i8> {
    seq![
        g[(pos + i) % n],
        g[(pos + n - i) % n],
        g[(pos + i * width) % n],
        g[(pos + i * (n - width)) % n],
    ]
}

/// The whole sense vector out to ray distance `k`: the four directions'
/// cells at distances 1 through `k`, in that order.
pub open spec fn look_spec(g: Seq<i8>, width: int, n: int, pos: int, k: int) -> Seq<i8>
    decreases k,
{
    if k <= 0 {
        Seq::empty()
    } else {
        look_spec(g, width, n, pos, k - 1) + ray_at(g, width, n, pos, k)
    }
}

/// The sense vector has exactly four entries per ray distance, so a
/// network whose input width is `4 * view_distance + 1` receives it
/// plus one trailing energy value.
pub proof fn lemma_look_spec_len(g: Seq<i8>, width: int, n: int, pos: int, k: int)
    requires
        k >= 0,
    ensures
        look_spec(g, width, n, pos, k).len() == 4 * k,
    decreases k,
{
    if k > 0 {
        lemma_look_spec_len(g, width, n, pos, k - 1);
    }
}

/// The prey after one step with the chosen `action`: the previous
/// position is recorded, energy drops by one — clamped at zero, an
/// exhausted agent is never decremented further — and the position moves
/// as `move_dest` says.
pub open spec fn stepped(p: Prey, action: usize, width: int, n: int) -> Prey {
    Prey {
        position: move_dest(p.position as int, action as int, width, n) as usize,
        prev_position: p.position,
        view_distance: p.view_distance,
        energy: if p.energy == 0 {
            0usize
        } else {
            (p.energy - 1) as usize
        },
        split_count: p.split_count,
    }
}

/// A prey agent. The neural network that picks its actions lives with
/// the host, outside this library, keyed to this agent.
#[derive(Clone, Copy, PartialEq, Eq, Structural, Debug)]
pub struct Prey {
    pub position: usize,
    pub prev_position: usize,
    pub view_distance: usize,
    pub energy: usize,
    pub split_count: usize,
}

impl Prey {
    /// A freshly placed prey: both positions at `position`, a full energy
    /// store, and no reproduction progress.
    pub fn new(position: usize, view_distance: usize, max_energy: usize) -> (p: Prey)
        ensures
            p.position == position,
            p.prev_position == position,
            p.view_distance == view_distance,
            p.energy == max_energy,
            p.split_count == 0,
    {
        Prey {
            position,
            prev_position: position,
            view_distance,
            energy: max_energy,
            split_count: 0,
        }
    }

    /// Build the sense vector: for each ray distance from 1 to the view
    /// distance, the cell states east, west, south and north of the
    /// current position, with flat-index toroidal wrap.
    pub fn look(&self, grid: &Grid) -> (out: Vec<i8>)
        requires
            grid.wf(),
            self.position < grid.width * grid.height,
            self.view_distance <= grid.width * grid.height,
            (self.view_distance + 1) * (grid.width * grid.height) <= usize::MAX,
        ensures
            out@ == look_spec(
                grid.ternary@,
                grid.width as int,
                (grid.width * grid.height) as int,
                self.position as int,
                self.view_distance as int,
            ),
            out@.len() == 4 * self.view_distance,
    {
        proof {
            lemma_look_spec_len(
                grid.ternary@,
                grid.width as int,
                (grid.width * grid.height) as int,
                self.position as int,
                self.view_distance as int,
            );
        }
        let max_pos = grid.width * grid.height;
        let mut out: Vec<i8> = Vec::new();
        let mut i: usize = 1;
        while i <= self.view_distance
            invariant
                grid.wf(),
                max_pos == grid.width * grid.height,
                self.position < max_pos,
                self.view_distance <= max_pos,
                (self.view_distance + 1) * max_pos <= usize::MAX,
                1 <= i,
                i <= self.view_distance + 1,
                out@ == look_spec(
                    grid.ternary@,
                    grid.width as int,
                    max_pos as int,
                    self.position as int,
                    i as int - 1,
                ),
            decreases self.view_distance + 1 - i,
        {
            proof {
                assert(grid.width <= max_pos && i * max_pos <= self.view_distance * max_pos
                    && i <= i * max_pos && i * grid.width <= i * max_pos && i * (max_pos
                    - grid.width) <= i * max_pos && self.view_distance * max_pos + max_pos == (
                self.view_distance + 1) * max_pos && 2 * max_pos <= (self.view_distance + 1)
                    * max_pos) by (nonlinear_arith)
                    requires
                        1 <= i <= self.view_distance,
                        1 <= grid.width,
                        1 <= grid.height,
                        max_pos == grid.width * grid.height,
                ;
            }
            out.push(grid.ternary[(self.position + i) % max_pos]);
            out.push(grid.ternary[(self.position + max_pos - i) % max_pos]);
            out.push(grid.ternary[(self.position + i * grid.width) % max_pos]);
            out.push(grid.ternary[(self.position + i * (max_pos - grid.width)) % max_pos]);
            proof {
                assert(out@ =~= look_spec(
                    grid.ternary@,
                    grid.width as int,
                    max_pos as int,
                    self.position as int,
                    i as int,
                ));
            }
            i = i + 1;
        }
        out
    }

    /// Take one step with the chosen `action`: record the previous
    /// position, spend one unit of energy (clamped at zero), and move as
    /// `move_dest` says. The grid is only read, never written: every
    /// agent in a tick senses the same frozen grid.
    pub fn take_step(&mut self, grid: &Grid, action: usize)
        requires
            grid.wf(),
            old(self).position < grid.width * grid.height,
            2 * (grid.width * grid.height) <= usize::MAX,
        ensures
            *final(self) == stepped(
                *old(self),
                action,
                grid.width as int,
                (grid.width * grid.height) as int,
            ),
            final(self).position < grid.width * grid.height,
    {
        let max_pos = grid.width * grid.height;
        proof {
            assert(grid.width <= max_pos) by (nonlinear_arith)
                requires
                    1 <= grid.height,
                    max_pos == grid.width * grid.height,
            ;
        }
        self.prev_position = self.position;
        if self.energy > 0 {
            self.energy = self.energy - 1;
        }
        if action == 0 {
        } else if action == 1 {
            self.position = (self.position + 1) % max_pos;
        } else if action == 2 {
            self.position = (self.position + max_pos - 1) % max_pos;
        } else if action == 3 {
            self.position = (self.position + grid.width) % max_pos;
        } else {
            self.position = (self.position + max_pos - grid.width) % max_pos;
        }
    }
}

} // verus!
