//! A toroidal rectangular grid of ternary cells.
//!
//! Each cell holds one of three states, encoded as in the rest of the
//! simulation: `0` for an empty cell, `1` for a cell holding food, and
//! `-1` for a cell occupied by a prey agent. Cells are stored row-major
//! in a flat vector; all neighbour arithmetic wraps on the flat index.
//!
//! Spawn probabilities are fixed-point fractions: a probability `p` is
//! given as a `u32` and means `p / 2^32`.

use crate::rng::random_u32;
use vstd::prelude::*;

verus! {

/// A cell value is one of the three legal states: empty (0), food (1),
/// or prey (-1).
pub open spec fn valid_cell(c: i8) -> bool {
    c == 0 || c == 1 || c == -1
}

/// The cell state that one uniform draw `r` produces when a grid is
/// seeded: prey when the draw falls below `prob_prey`, food when it falls
/// in the top `prob_food` values; on a middle draw the cell keeps its
/// old value. Both probabilities are fixed-point fractions of `2^32`.
pub open spec fn cell_from_draw(r: u32, old_cell: i8, prob_prey: u32, prob_food: u32) -> i8 {
    if r < prob_prey {
        -1i8
    } else if r > u32::MAX - prob_food {
        1i8
    } else {
        old_cell
    }
}

/// An all-empty grid of `n` cells.
pub open spec fn all_empty(n: nat) -> Seq<i8> {
    Seq::new(n, |i: int| 0i8)
}

/// Grid `g1` is what seeding `g0` with the uniform draws `draws` makes:
/// one draw per cell, each cell as `cell_from_draw` says.
pub open spec fn seeded_from(
    g0: Seq<i8>,
    g1: Seq<i8>,
    draws: Seq<u32>,
    prob_prey: u32,
    prob_food: u32,
) -> bool {
    &&& draws.len() == g0.len()
    &&& g1.len() == g0.len()
    &&& forall|i: int|
        0 <= i < g0.len() ==> g1[i] == cell_from_draw(draws[i], g0[i], prob_prey, prob_food)
}

/// The byte for an empty cell: `.`
pub const BYTE_EMPTY: u8 = 46;

/// The byte for a food cell: `X`
pub const BYTE_FOOD: u8 = 88;

/// The byte for a prey cell: `O`
pub const BYTE_PREY: u8 = 79;

/// The byte for a cell in no legal state: `_`
pub const BYTE_OTHER: u8 = 95;

/// A newline byte.
pub const BYTE_NEWLINE: u8 = 10;

/// A space byte.
pub const BYTE_SPACE: u8 = 32;

/// The character cell `c` is rendered as: `.` empty, `X` food, `O` prey.
pub open spec fn cell_byte(c: i8) -> u8 {
    if c == 0 {
        BYTE_EMPTY
    } else if c == 1 {
        BYTE_FOOD
    } else if c == -1 {
        BYTE_PREY
    } else {
        BYTE_OTHER
    }
}

/// The rendering of the first `k` cells of a grid of the given width:
/// a newline before each row, then each cell's character followed by a
/// space.
pub open spec fn render_prefix(g: Seq<i8>, width: int, k: int) -> Seq<u8>
    decreases k,
{
    if k <= 0 {
        Seq::empty()
    } else {
        let row_break: Seq<u8> = if (k - 1) % width == 0 {
            seq![BYTE_NEWLINE]
        } else {
            Seq::empty()
        };
        render_prefix(g, width, k - 1) + row_break + seq![cell_byte(g[k - 1]), BYTE_SPACE]
    }
}

pub struct Grid {
    pub width: usize,
    pub height: usize,
    pub ternary: Vec<i8>,
}

impl Grid {
    /// A well-formed grid: positive dimensions, a flat cell vector of
    /// length `width * height`, and every cell in a legal state.
    pub open spec fn wf(self) -> bool {
        &&& self.width >= 1
        &&& self.height >= 1
        &&& self.width * self.height <= usize::MAX
        &&& self.ternary@.len() == self.width * self.height
        &&& forall|i: int| 0 <= i < self.ternary@.len() ==> valid_cell(self.ternary@[i])
    }

    /// Build a grid of the given dimensions, seeded from an all-empty
    /// grid with one uniform draw per cell as `cell_from_draw` says; with
    /// both probabilities zero the grid is left entirely empty.
    pub fn new(width: usize, height: usize, prob_prey: u32, prob_food: u32) -> (g: Grid)
        requires
            width >= 1,
            height >= 1,
            width * height <= usize::MAX,
        ensures
            g.wf(),
            g.width == width,
            g.height == height,
            prob_prey == 0 && prob_food == 0 ==> forall|i: int|
                0 <= i < g.ternary@.len() ==> g.ternary@[i] == 0,
            exists|draws: Seq<u32>|
                #[trigger] seeded_from(
                    all_empty((width * height) as nat),
                    g.ternary@,
                    draws,
                    prob_prey,
                    prob_food,
                ),
    {
        let n = width * height;
        let mut ternary: Vec<i8> = Vec::new();
        while ternary.len() < n
            invariant
                ternary@.len() <= n,
                forall|i: int| 0 <= i < ternary@.len() ==> ternary@[i] == 0,
            decreases n - ternary@.len(),
        {
            ternary.push(0);
        }
        let mut grid = Grid { width, height, ternary };
        let ghost zeros = all_empty((width * height) as nat);
        proof {
            assert(grid.ternary@ =~= zeros);
        }
        if prob_prey > 0 || prob_food > 0 {
            grid.fill_random_grid(prob_prey, prob_food);
            proof {
                let draws = choose|draws: Seq<u32>|
                    #[trigger] seeded_from(zeros, grid.ternary@, draws, prob_prey, prob_food);
                assert forall|i: int| 0 <= i < grid.ternary@.len() implies valid_cell(
                    grid.ternary@[i],
                ) by {
                    assert(grid.ternary@[i] == cell_from_draw(
                        draws[i],
                        zeros[i],
                        prob_prey,
                        prob_food,
                    ));
                }
            }
        } else {
            proof {
                let draws = Seq::new(zeros.len(), |i: int| 0u32);
                assert(seeded_from(zeros, grid.ternary@, draws, prob_prey, prob_food));
            }
        }
        grid
    }

    /// Seed every cell from its own entry in `draws`, as `cell_from_draw`
    /// says: a low draw writes prey, a high draw writes food, and a
    /// middle draw leaves the cell's old value in place. This is the
    /// deterministic half of random seeding: it is verified for every
    /// possible sequence of draws.
    pub fn fill_from_draws(&mut self, draws: &Vec<u32>, prob_prey: u32, prob_food: u32)
        requires
            draws@.len() == old(self).ternary@.len(),
        ensures
            final(self).width == old(self).width,
            final(self).height == old(self).height,
            seeded_from(
                old(self).ternary@,
                final(self).ternary@,
                draws@,
                prob_prey,
                prob_food,
            ),
    {
        let n = self.ternary.len();
        let mut pos: usize = 0;
        while pos < n
            invariant
                n == self.ternary@.len(),
                draws@.len() == n,
                pos <= n,
                self.width == old(self).width,
                self.height == old(self).height,
                forall|i: int|
                    0 <= i < pos ==> self.ternary@[i] == cell_from_draw(
                        draws@[i],
                        old(self).ternary@[i],
                        prob_prey,
                        prob_food,
                    ),
                forall|i: int| pos <= i < n ==> self.ternary@[i] == old(self).ternary@[i],
            decreases n - pos,
        {
            let r = draws[pos];
            if r < prob_prey {
                self.ternary.set(pos, -1);
            } else if r > u32::MAX - prob_food {
                self.ternary.set(pos, 1);
            }
            pos = pos + 1;
        }
    }

    /// Seed every cell independently at random, each from one fresh
    /// uniform draw: there is a sequence of draws whose deterministic
    /// meaning — `fill_from_draws`'s contract — the new grid carries.
    pub fn fill_random_grid(&mut self, prob_prey: u32, prob_food: u32)
        ensures
            final(self).width == old(self).width,
            final(self).height == old(self).height,
            exists|draws: Seq<u32>|
                #[trigger] seeded_from(
                    old(self).ternary@,
                    final(self).ternary@,
                    draws,
                    prob_prey,
                    prob_food,
                ),
    {
        let n = self.ternary.len();
        let mut draws: Vec<u32> = Vec::new();
        while draws.len() < n
            invariant
                draws@.len() <= n,
            decreases n - draws@.len(),
        {
            draws.push(random_u32());
        }
        self.fill_from_draws(&draws, prob_prey, prob_food);
        proof {
            assert(seeded_from(
                old(self).ternary@,
                self.ternary@,
                draws@,
                prob_prey,
                prob_food,
            ));
        }
    }

    /// Render the grid as printable bytes: one line per row, each cell as
    /// its character plus a space, with a leading and a trailing newline.
    /// The caller (outside the library) does the actual printing.
    pub fn show(&self) -> (out: Vec<u8>)
        requires
            self.wf(),
        ensures
            out@ == render_prefix(self.ternary@, self.width as int, self.ternary@.len() as int)
                + seq![BYTE_NEWLINE],
    {
        let n = self.ternary.len();
        let mut out: Vec<u8> = Vec::new();
        let mut i: usize = 0;
        while i < n
            invariant
                self.wf(),
                n == self.ternary@.len(),
                i <= n,
                out@ == render_prefix(self.ternary@, self.width as int, i as int),
            decreases n - i,
        {
            if i % self.width == 0 {
                out.push(BYTE_NEWLINE);
            }
            let c = self.ternary[i];
            let b: u8 = if c == 0 {
                BYTE_EMPTY
            } else if c == 1 {
                BYTE_FOOD
            } else if c == -1 {
                BYTE_PREY
            } else {
                BYTE_OTHER
            };
            out.push(b);
            out.push(BYTE_SPACE);
            proof {
                assert(out@ =~= render_prefix(self.ternary@, self.width as int, i + 1));
            }
            i = i + 1;
        }
        out.push(BYTE_NEWLINE);
        proof {
            assert(out@ =~= render_prefix(self.ternary@, self.width as int, n as int)
                + seq![BYTE_NEWLINE]);
        }
        out
    }
}

} // verus!
