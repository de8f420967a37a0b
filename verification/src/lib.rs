//! A cellular, agent-based evolutionary foraging simulation.
//!
//! A toroidal grid holds food and prey agents; each prey carries a small
//! feedforward neural network that maps local senses to a movement
//! decision. Agents that find enough food reproduce; agents that run out
//! of energy die.
//!
//! The networks hold floating-point weights, so they live with the host,
//! outside this verified library, one per prey and in the same order as
//! [`SimulationState::prey_list`]. Each tick, the host evaluates every
//! prey's network on the sense vector from [`agents::Prey::look`]
//! (plus the prey's energy) and hands the argmax indices to
//! [`take_step`]; the returned [`WorldReport`] tells the host which
//! networks to drop and which to clone-and-mutate for newborn prey.

pub mod agents;
pub mod grid;
pub mod laws;
mod rng;

use crate::agents::{stepped, Prey};
use crate::grid::{all_empty, seeded_from, valid_cell, Grid};
use crate::rng::random_below;
use vstd::prelude::*;

verus! {

/// Addition on `usize` clamped at `usize::MAX`, so that a counter can
/// never silently wrap.
pub open spec fn sat_add(a: usize, b: usize) -> usize {
    if a + b <= usize::MAX {
        (a + b) as usize
    } else {
        usize::MAX
    }
}

/// The start of a world update: a fresh grid in which exactly the food
/// of the previous grid survives; prey markers are re-derived later from
/// the live agents.
pub open spec fn keep_food(g: Seq<i8>) -> Seq<i8> {
    Seq::new(g.len(), |i: int| if g[i] == 1 { 1i8 } else { 0i8 })
}

/// One prey's share of the world update, on the grid built so far:
/// a reproduction event fires if its split count has reached the
/// threshold (the count resets at once); if the new grid still shows
/// food at its position it eats — split count up by one, energy up by
/// the species maximum, both clamped; its cell is then marked as prey;
/// it is dead if its energy ended at zero.
///
/// Returns the written grid, the updated prey, whether a reproduction
/// event fired, and whether the prey is dead.
pub open spec fn consume_step(g: Seq<i8>, p: Prey, max_split: usize, max_energy: usize) -> (
    Seq<i8>,
    Prey,
    bool,
    bool,
) {
    let split_event = p.split_count == max_split;
    let sc0 = if split_event {
        0usize
    } else {
        p.split_count
    };
    let on_food = g[p.position as int] == 1;
    let sc1 = if on_food {
        sat_add(sc0, 1)
    } else {
        sc0
    };
    let en1 = if on_food {
        sat_add(p.energy, max_energy)
    } else {
        p.energy
    };
    (
        g.update(p.position as int, -1i8),
        Prey {
            position: p.position,
            prev_position: p.prev_position,
            view_distance: p.view_distance,
            energy: en1,
            split_count: sc1,
        },
        split_event,
        en1 == 0,
    )
}

/// The first `k` prey pushed through [`consume_step`] in population
/// order, on a cumulatively written grid. Returns the grid, the prey
/// sequence with the first `k` entries updated, the reproduction events
/// as (parent index, parent's previous position) in order, and the dead
/// prey's indices in ascending order.
pub open spec fn world_consume(
    g: Seq<i8>,
    ps: Seq<Prey>,
    max_split: usize,
    max_energy: usize,
    k: int,
) -> (Seq<i8>, Seq<Prey>, Seq<(usize, usize)>, Seq<usize>)
    decreases k,
{
    if k <= 0 {
        (g, ps, Seq::<(usize, usize)>::empty(), Seq::<usize>::empty())
    } else {
        let w = world_consume(g, ps, max_split, max_energy, k - 1);
        let c = consume_step(w.0, ps[k - 1], max_split, max_energy);
        (
            c.0,
            w.1.update(k - 1, c.1),
            if c.2 {
                w.2.push((((k - 1) as usize), ps[k - 1].prev_position))
            } else {
                w.2
            },
            if c.3 {
                w.3.push((k - 1) as usize)
            } else {
                w.3
            },
        )
    }
}

/// Dead prey removed from the population: the last `k` recorded indices,
/// processed from the highest to the lowest so that the remaining
/// indices stay valid.
pub open spec fn remove_dead(ps: Seq<Prey>, dead: Seq<usize>, k: int) -> Seq<Prey>
    decreases k,
{
    if k <= 0 {
        ps
    } else {
        remove_dead(ps, dead, k - 1).remove(dead[dead.len() - k] as int)
    }
}

/// A newborn prey: both positions at `pos`, full energy, no reproduction
/// progress.
pub open spec fn fresh_prey(pos: usize, vd: usize, max_energy: usize) -> Prey {
    Prey { position: pos, prev_position: pos, view_distance: vd, energy: max_energy, split_count: 0 }
}

/// The first `k` reproduction events applied: each spawns a newborn prey
/// at its recorded position if and only if that cell is still empty (and
/// then marks it as prey); an event on an occupied cell is dropped.
/// The third component records which events spawned.
pub open spec fn world_spawn(
    g: Seq<i8>,
    ps: Seq<Prey>,
    pend: Seq<(usize, usize)>,
    vd: usize,
    max_energy: usize,
    k: int,
) -> (Seq<i8>, Seq<Prey>, Seq<bool>)
    decreases k,
{
    if k <= 0 {
        (g, ps, Seq::<bool>::empty())
    } else {
        let w = world_spawn(g, ps, pend, vd, max_energy, k - 1);
        let pos = pend[k - 1].1;
        if w.0[pos as int] == 0 {
            (
                w.0.update(pos as int, -1i8),
                w.1.push(fresh_prey(pos, vd, max_energy)),
                w.2.push(true),
            )
        } else {
            (w.0, w.1, w.2.push(false))
        }
    }
}

/// Food regrowth: every empty cell whose flag is set becomes food; every
/// other cell is unchanged.
pub open spec fn regrow(g: Seq<i8>, flags: Seq<bool>) -> Seq<i8> {
    Seq::new(g.len(), |i: int| if g[i] == 0 && flags[i] { 1i8 } else { g[i] })
}

/// One whole world update, given the per-cell regrowth flags: keep the
/// food, push every prey through consumption in order, remove the dead,
/// apply the reproduction events, regrow food. Returns the final grid,
/// the final population, the reproduction events, the removed indices,
/// and the per-event spawn outcomes.
pub open spec fn world_update_spec(
    g: Seq<i8>,
    ps: Seq<Prey>,
    cfg: SimulationConfig,
    flags: Seq<bool>,
) -> (Seq<i8>, Seq<Prey>, Seq<(usize, usize)>, Seq<usize>, Seq<bool>) {
    let g1 = keep_food(g);
    let w = world_consume(g1, ps, cfg.max_split_count_prey, cfg.max_energy_prey, ps.len() as int);
    let ps3 = remove_dead(w.1, w.3, w.3.len() as int);
    let sp = world_spawn(
        w.0,
        ps3,
        w.2,
        cfg.view_distance_prey,
        cfg.max_energy_prey,
        w.2.len() as int,
    );
    (regrow(sp.0, flags), sp.1, w.2, w.3, sp.2)
}

/// Every prey stepped with its own action against the same frozen grid.
pub open spec fn stepped_all(ps: Seq<Prey>, actions: Seq<usize>, width: int, n: int) -> Seq<Prey> {
    Seq::new(ps.len(), |i: int| stepped(ps[i], actions[i], width, n))
}

/// The initial population read off a freshly seeded grid: one newborn
/// prey per prey-marked cell among the first `k` cells, in cell order.
pub open spec fn prey_from_cells(g: Seq<i8>, cfg: SimulationConfig, k: int) -> Seq<Prey>
    decreases k,
{
    if k <= 0 {
        Seq::<Prey>::empty()
    } else {
        let rest = prey_from_cells(g, cfg, k - 1);
        if g[k - 1] == -1 {
            rest.push(fresh_prey((k - 1) as usize, cfg.view_distance_prey, cfg.max_energy_prey))
        } else {
            rest
        }
    }
}

/// The run's parameters, immutable after creation. Probabilities are
/// fixed-point fractions of `2^32`. The predator fields are reserved
/// configuration: no predator agent type exists, and nothing in the
/// simulation reads them.
#[derive(Clone, Copy, PartialEq, Eq, Structural, Debug)]
pub struct SimulationConfig {
    pub prob_prey: u32,
    pub prob_food: u32,
    pub grid_width: usize,
    pub grid_height: usize,
    pub max_energy_prey: usize,
    pub max_energy_predator: usize,
    pub view_distance_prey: usize,
    pub view_distance_predator: usize,
    pub max_split_count_prey: usize,
    pub max_split_count_predator: usize,
    pub energy_gain_predator: usize,
}

/// The default configuration of a fresh simulation: a 32 by 32 torus,
/// prey seeded at probability 0.05 and food at 0.1 (as fixed-point
/// fractions of `2^32`), and small energy and reproduction parameters.
pub open spec fn default_config() -> SimulationConfig {
    SimulationConfig {
        prob_prey: 214748365u32,
        prob_food: 429496730u32,
        grid_width: 32usize,
        grid_height: 32usize,
        max_energy_prey: 10usize,
        max_energy_predator: 10usize,
        view_distance_prey: 3usize,
        view_distance_predator: 3usize,
        max_split_count_prey: 2usize,
        max_split_count_predator: 2usize,
        energy_gain_predator: 10usize,
    }
}

/// A prey that fits its world: both positions index the grid, and its
/// view distance is the configured one.
pub open spec fn prey_ok(p: Prey, n: int, vd: usize) -> bool {
    &&& p.position < n
    &&& p.prev_position < n
    &&& p.view_distance == vd
}

/// One reproduction event as reported to the host: the parent's index in
/// the pre-update population, the cell where the newborn was to appear,
/// and whether it did.
#[derive(Clone, Copy, PartialEq, Eq, Structural, Debug)]
pub struct PendingBirth {
    pub parent: usize,
    pub position: usize,
    pub spawned: bool,
}

/// What one world update did to the population, for the host to mirror
/// on its side (it keeps one neural network per prey): which population
/// indices were removed (ascending, indices into the pre-update
/// population), and each reproduction event in order.
pub struct WorldReport {
    pub removed: Vec<usize>,
    pub births: Vec<PendingBirth>,
}

/// The report `r` faithfully describes the events `pend`, removals
/// `dead` and spawn outcomes `spawned` of one world update.
pub open spec fn report_matches(
    r: WorldReport,
    pend: Seq<(usize, usize)>,
    dead: Seq<usize>,
    spawned: Seq<bool>,
) -> bool {
    &&& r.removed@ == dead
    &&& r.births@.len() == pend.len()
    &&& spawned.len() == pend.len()
    &&& forall|j: int|
        0 <= j < pend.len() ==> (#[trigger] r.births@[j]).parent == pend[j].0
            && r.births@[j].position == pend[j].1 && r.births@[j].spawned == spawned[j]
}

/// The state (`g1`, `ps1`) and report `r` are exactly what one world
/// update with regrowth flags `flags` makes of the state (`g0`, `ps0`).
pub open spec fn world_outcome_matches(
    g0: Seq<i8>,
    ps0: Seq<Prey>,
    cfg: SimulationConfig,
    flags: Seq<bool>,
    g1: Seq<i8>,
    ps1: Seq<Prey>,
    r: WorldReport,
) -> bool {
    let o = world_update_spec(g0, ps0, cfg, flags);
    &&& flags.len() == g0.len()
    &&& g1 == o.0
    &&& ps1 == o.1
    &&& report_matches(r, o.2, o.3, o.4)
}

/// The whole simulation: configuration, current grid, live population,
/// and a run flag that only a host's presentation layer reads.
pub struct SimulationState {
    pub config: SimulationConfig,
    pub grid: Grid,
    pub prey_list: Vec<Prey>,
    pub running: bool,
}

impl SimulationState {
    /// A well-formed simulation: the grid is well formed and of the
    /// configured dimensions, every prey indexes it, and the dimensions
    /// leave room for the sensing and movement arithmetic.
    pub open spec fn wf(self) -> bool {
        let n = self.grid.width * self.grid.height;
        &&& self.grid.wf()
        &&& self.grid.width == self.config.grid_width
        &&& self.grid.height == self.config.grid_height
        &&& self.config.view_distance_prey <= n
        &&& (self.config.view_distance_prey + 2) * n <= usize::MAX
        &&& forall|i: int|
            0 <= i < self.prey_list@.len() ==> prey_ok(
                #[trigger] self.prey_list@[i],
                n as int,
                self.config.view_distance_prey,
            )
    }

    /// Step every prey with its own chosen action, all against the same
    /// frozen pre-tick grid: the grid is untouched, and each prey moves
    /// as if it were alone on it.
    pub fn step_agents(&mut self, actions: &Vec<usize>)
        requires
            old(self).wf(),
            actions@.len() == old(self).prey_list@.len(),
        ensures
            final(self).wf(),
            final(self).grid == old(self).grid,
            final(self).config == old(self).config,
            final(self).running == old(self).running,
            final(self).prey_list@ == stepped_all(
                old(self).prey_list@,
                actions@,
                old(self).grid.width as int,
                (old(self).grid.width * old(self).grid.height) as int,
            ),
    {
        proof {
            let n = self.grid.width * self.grid.height;
            assert(2 * n <= (self.config.view_distance_prey + 2) * n) by (nonlinear_arith)
                requires
                    n >= 0,
            ;
        }
        let n_prey = self.prey_list.len();
        let mut i: usize = 0;
        while i < n_prey
            invariant
                old(self).wf(),
                n_prey == old(self).prey_list@.len(),
                actions@.len() == n_prey,
                i <= n_prey,
                self.grid == old(self).grid,
                self.config == old(self).config,
                self.running == old(self).running,
                self.prey_list@.len() == n_prey,
                2 * (self.grid.width * self.grid.height) <= usize::MAX,
                forall|j: int| i <= j < n_prey ==> self.prey_list@[j] == old(self).prey_list@[j],
                forall|j: int|
                    0 <= j < i ==> self.prey_list@[j] == stepped(
                        old(self).prey_list@[j],
                        actions@[j],
                        old(self).grid.width as int,
                        (old(self).grid.width * old(self).grid.height) as int,
                    ),
            decreases n_prey - i,
        {
            let mut p = self.prey_list[i];
            p.take_step(&self.grid, actions[i]);
            self.prey_list.set(i, p);
            i = i + 1;
        }
        proof {
            assert(self.prey_list@ =~= stepped_all(
                old(self).prey_list@,
                actions@,
                old(self).grid.width as int,
                (old(self).grid.width * old(self).grid.height) as int,
            ));
            assert forall|j: int| 0 <= j < self.prey_list@.len() implies prey_ok(
                #[trigger] self.prey_list@[j],
                (self.grid.width * self.grid.height) as int,
                self.config.view_distance_prey,
            ) by {
                assert(prey_ok(
                    old(self).prey_list@[j],
                    (self.grid.width * self.grid.height) as int,
                    self.config.view_distance_prey,
                ));
            }
        }
    }

    /// One world update with the given regrowth flags (one per cell):
    /// exactly [`world_update_spec`], phase by phase. This is the
    /// deterministic core of [`SimulationState::update_grid`], verified
    /// for every possible flag sequence.
    pub fn update_world(&mut self, flags: &Vec<bool>) -> (r: WorldReport)
        requires
            old(self).wf(),
            flags@.len() == old(self).grid.ternary@.len(),
        ensures
            final(self).wf(),
            final(self).config == old(self).config,
            final(self).running == old(self).running,
            final(self).grid.width == old(self).grid.width,
            final(self).grid.height == old(self).grid.height,
            world_outcome_matches(
                old(self).grid.ternary@,
                old(self).prey_list@,
                old(self).config,
                flags@,
                final(self).grid.ternary@,
                final(self).prey_list@,
                r,
            ),
            forall|a: int|
                0 <= a < r.removed@.len() ==> #[trigger] r.removed@[a]
                    < old(self).prey_list@.len(),
            forall|a: int, b: int|
                #![trigger r.removed@[a], r.removed@[b]]
                0 <= a < b < r.removed@.len() ==> r.removed@[a] < r.removed@[b],
            forall|a: int|
                0 <= a < r.births@.len() ==> (#[trigger] r.births@[a]).parent
                    < old(self).prey_list@.len(),
    {
        let width = self.config.grid_width;
        let height = self.config.grid_height;
        let n = width * height;
        let max_split = self.config.max_split_count_prey;
        let max_energy = self.config.max_energy_prey;
        let vd = self.config.view_distance_prey;
        let ghost g0 = self.grid.ternary@;
        let ghost ps0 = self.prey_list@;

        // Phase 1 and 2: a fresh grid that keeps only the food.
        let mut grid = Grid::new(width, height, 0, 0);
        let mut pos: usize = 0;
        while pos < n
            invariant
                n == width * height,
                g0.len() == n,
                grid.width == width,
                grid.height == height,
                grid.ternary@.len() == n,
                pos <= n,
                self.grid.ternary@ == g0,
                forall|i: int| 0 <= i < pos ==> grid.ternary@[i] == keep_food(g0)[i],
                forall|i: int| pos <= i < n ==> grid.ternary@[i] == 0,
            decreases n - pos,
        {
            if self.grid.ternary[pos] == 1 {
                grid.ternary.set(pos, 1);
            }
            pos = pos + 1;
        }
        proof {
            assert(grid.ternary@ =~= keep_food(g0));
        }
        let ghost g1 = grid.ternary@;
        proof {
            assert forall|a: int| 0 <= a < g1.len() implies valid_cell(#[trigger] g1[a]) by {
                assert(g1[a] == keep_food(g0)[a]);
            }
        }

        // Phase 3: each prey in order reproduces, eats, marks its cell,
        // and is recorded for removal if exhausted.
        let n_prey = self.prey_list.len();
        proof {
            assert(ps0.len() <= usize::MAX);
            lemma_consume_props(g1, ps0, max_split, max_energy, ps0.len() as int, n as int, vd);
        }
        let mut pend: Vec<(usize, usize)> = Vec::new();
        let mut dead: Vec<usize> = Vec::new();
        let mut i: usize = 0;
        while i < n_prey
            invariant
                n_prey == ps0.len(),
                i <= n_prey,
                g1.len() == n,
                forall|a: int| 0 <= a < g1.len() ==> valid_cell(#[trigger] g1[a]),
                forall|j: int| 0 <= j < ps0.len() ==> prey_ok(#[trigger] ps0[j], n as int, vd),
                self.config == old(self).config,
                self.running == old(self).running,
                max_split == self.config.max_split_count_prey,
                max_energy == self.config.max_energy_prey,
                self.prey_list@.len() == n_prey,
                grid.width == width,
                grid.height == height,
                (grid.ternary@, self.prey_list@, pend@, dead@) == world_consume(
                    g1,
                    ps0,
                    max_split,
                    max_energy,
                    i as int,
                ),
            decreases n_prey - i,
        {
            proof {
                lemma_consume_props(g1, ps0, max_split, max_energy, i as int, n as int, vd);
                assert(self.prey_list@[i as int] == ps0[i as int]);
            }
            let mut p = self.prey_list[i];
            if p.split_count == max_split {
                pend.push((i, p.prev_position));
                p.split_count = 0;
            }
            if grid.ternary[p.position] == 1 {
                p.split_count = if p.split_count < usize::MAX {
                    p.split_count + 1
                } else {
                    usize::MAX
                };
                p.energy = if p.energy <= usize::MAX - max_energy {
                    p.energy + max_energy
                } else {
                    usize::MAX
                };
            }
            grid.ternary.set(p.position, -1);
            if p.energy == 0 {
                dead.push(i);
            }
            self.prey_list.set(i, p);
            i = i + 1;
            proof {
                assert((grid.ternary@, self.prey_list@, pend@, dead@) =~= world_consume(
                    g1,
                    ps0,
                    max_split,
                    max_energy,
                    i as int,
                ));
            }
        }
        let ghost w = world_consume(g1, ps0, max_split, max_energy, ps0.len() as int);
        proof {
            lemma_consume_props(g1, ps0, max_split, max_energy, ps0.len() as int, n as int, vd);
        }

        // Phase 4: remove the dead, from the highest index down.
        let n_dead = dead.len();
        let mut j: usize = 0;
        while j < n_dead
            invariant
                n_dead == w.3.len(),
                j <= n_dead,
                dead@ == w.3,
                w.1.len() == ps0.len(),
                n_dead <= ps0.len(),
                forall|a: int| 0 <= a < w.3.len() ==> #[trigger] w.3[a] < ps0.len(),
                forall|a: int, b: int|
                    #![trigger w.3[a], w.3[b]]
                    0 <= a < b < w.3.len() ==> w.3[a] < w.3[b],
                self.config == old(self).config,
                self.running == old(self).running,
                self.prey_list@ == remove_dead(w.1, w.3, j as int),
                self.prey_list@.len() == ps0.len() - j,
            decreases n_dead - j,
        {
            let idx = dead[n_dead - 1 - j];
            proof {
                if j > 0 {
                    lemma_strict_gap(w.3, (w.3.len() - 1 - j) as int, (w.3.len() - 1) as int);
                }
            }
            self.prey_list.remove(idx);
            j = j + 1;
        }
        let ghost ps3 = remove_dead(w.1, w.3, w.3.len() as int);
        proof {
            lemma_remove_dead_props(w.1, w.3, w.3.len() as int, n as int, vd);
        }

        // Phase 5: apply the reproduction events in order; each spawns
        // only into a still-empty cell.
        proof {
            lemma_spawn_props(w.0, ps3, w.2, vd, max_energy, w.2.len() as int, n as int);
        }
        let mut births: Vec<PendingBirth> = Vec::new();
        let n_pend = pend.len();
        let mut k: usize = 0;
        while k < n_pend
            invariant
                n_pend == w.2.len(),
                k <= n_pend,
                pend@ == w.2,
                forall|a: int|
                    0 <= a < w.2.len() ==> 0 <= (#[trigger] w.2[a]).0 < ps0.len() && w.2[a].1 < n,
                forall|a: int| 0 <= a < ps3.len() ==> prey_ok(#[trigger] ps3[a], n as int, vd),
                w.0.len() == n,
                forall|a: int| 0 <= a < w.0.len() ==> valid_cell(#[trigger] w.0[a]),
                self.config == old(self).config,
                self.running == old(self).running,
                vd == self.config.view_distance_prey,
                max_energy == self.config.max_energy_prey,
                grid.width == width,
                grid.height == height,
                grid.ternary@ == world_spawn(w.0, ps3, w.2, vd, max_energy, k as int).0,
                self.prey_list@ == world_spawn(w.0, ps3, w.2, vd, max_energy, k as int).1,
                grid.ternary@.len() == n,
                births@.len() == k,
                forall|a: int|
                    0 <= a < k ==> (#[trigger] births@[a]).parent == w.2[a].0
                        && births@[a].position == w.2[a].1 && births@[a].spawned == world_spawn(
                        w.0,
                        ps3,
                        w.2,
                        vd,
                        max_energy,
                        k as int,
                    ).2[a],
            decreases n_pend - k,
        {
            proof {
                lemma_spawn_props(w.0, ps3, w.2, vd, max_energy, k as int, n as int);
                lemma_spawn_props(w.0, ps3, w.2, vd, max_energy, k as int + 1, n as int);
            }
            let ghost sp_prev = world_spawn(w.0, ps3, w.2, vd, max_energy, k as int);
            let ev = pend[k];
            let spawned: bool;
            if grid.ternary[ev.1] == 0 {
                self.prey_list.push(Prey::new(ev.1, vd, max_energy));
                grid.ternary.set(ev.1, -1);
                spawned = true;
            } else {
                spawned = false;
            }
            births.push(PendingBirth { parent: ev.0, position: ev.1, spawned });
            k = k + 1;
            proof {
                let sp = world_spawn(w.0, ps3, w.2, vd, max_energy, k as int);
                assert(ev == w.2[k as int - 1]);
                assert(sp == ({
                    let pos = w.2[k as int - 1].1;
                    if sp_prev.0[pos as int] == 0 {
                        (
                            sp_prev.0.update(pos as int, -1i8),
                            sp_prev.1.push(fresh_prey(pos, vd, max_energy)),
                            sp_prev.2.push(true),
                        )
                    } else {
                        (sp_prev.0, sp_prev.1, sp_prev.2.push(false))
                    }
                }));
                assert(spawned == (sp_prev.0[ev.1 as int] == 0));
                assert(grid.ternary@ == sp.0);
                assert(self.prey_list@ == sp.1);
                assert(births@[k as int - 1].spawned == sp.2[k as int - 1]);
            }
        }
        let ghost sp = world_spawn(w.0, ps3, w.2, vd, max_energy, w.2.len() as int);
        proof {
            lemma_spawn_props(w.0, ps3, w.2, vd, max_energy, w.2.len() as int, n as int);
        }

        // Phase 6: food regrowth on the flagged empty cells.
        let ghost g4 = grid.ternary@;
        let mut pos2: usize = 0;
        while pos2 < n
            invariant
                n == g4.len(),
                flags@.len() == n,
                pos2 <= n,
                grid.width == width,
                grid.height == height,
                grid.ternary@.len() == n,
                forall|a: int| 0 <= a < pos2 ==> grid.ternary@[a] == regrow(g4, flags@)[a],
                forall|a: int| pos2 <= a < n ==> grid.ternary@[a] == g4[a],
            decreases n - pos2,
        {
            if grid.ternary[pos2] == 0 && flags[pos2] {
                grid.ternary.set(pos2, 1);
            }
            pos2 = pos2 + 1;
        }
        proof {
            assert(grid.ternary@ =~= regrow(g4, flags@));
        }

        // Phase 7: commit the new grid.
        self.grid = grid;
        proof {
            assert forall|a: int| 0 <= a < self.grid.ternary@.len() implies valid_cell(
                #[trigger] self.grid.ternary@[a],
            ) by {
                assert(valid_cell(g4[a]));
            }
        }
        WorldReport { removed: dead, births }
    }

    /// One world update with fresh random regrowth: each cell draws
    /// independently, and an empty cell regrows food with probability
    /// exactly one over the number of cells. The deterministic meaning
    /// of the flags is [`SimulationState::update_world`]'s contract.
    pub fn update_grid(&mut self) -> (r: WorldReport)
        requires
            old(self).wf(),
        ensures
            final(self).wf(),
            final(self).config == old(self).config,
            final(self).running == old(self).running,
            final(self).grid.width == old(self).grid.width,
            final(self).grid.height == old(self).grid.height,
            exists|flags: Seq<bool>|
                #[trigger] world_outcome_matches(
                    old(self).grid.ternary@,
                    old(self).prey_list@,
                    old(self).config,
                    flags,
                    final(self).grid.ternary@,
                    final(self).prey_list@,
                    r,
                ),
            forall|a: int|
                0 <= a < r.removed@.len() ==> #[trigger] r.removed@[a]
                    < old(self).prey_list@.len(),
            forall|a: int, b: int|
                #![trigger r.removed@[a], r.removed@[b]]
                0 <= a < b < r.removed@.len() ==> r.removed@[a] < r.removed@[b],
            forall|a: int|
                0 <= a < r.births@.len() ==> (#[trigger] r.births@[a]).parent
                    < old(self).prey_list@.len(),
    {
        let n = self.grid.ternary.len();
        let mut flags: Vec<bool> = Vec::new();
        while flags.len() < n
            invariant
                flags@.len() <= n,
                n == self.grid.ternary@.len(),
                self == old(self),
            decreases n - flags@.len(),
        {
            flags.push(random_below(n) == 0);
        }
        let r = self.update_world(&flags);
        proof {
            assert(world_outcome_matches(
                old(self).grid.ternary@,
                old(self).prey_list@,
                old(self).config,
                flags@,
                self.grid.ternary@,
                self.prey_list@,
                r,
            ));
        }
        r
    }
}

/// Build a fresh simulation from the default configuration: the grid is
/// seeded at random with prey and food — one uniform draw per cell, as
/// `cell_from_draw` says, over an all-empty grid — and the population
/// holds exactly one newborn prey per prey-marked cell, in cell order.
pub fn fresh_start() -> (s: SimulationState)
    ensures
        s.wf(),
        s.config == default_config(),
        s.running == false,
        s.prey_list@ == prey_from_cells(s.grid.ternary@, s.config, s.grid.ternary@.len() as int),
        exists|draws: Seq<u32>|
            #[trigger] seeded_from(
                all_empty((s.config.grid_width * s.config.grid_height) as nat),
                s.grid.ternary@,
                draws,
                s.config.prob_prey,
                s.config.prob_food,
            ),
{
    let config = SimulationConfig {
        prob_prey: 214748365,
        prob_food: 429496730,
        grid_width: 32,
        grid_height: 32,
        max_energy_prey: 10,
        max_energy_predator: 10,
        view_distance_prey: 3,
        view_distance_predator: 3,
        max_split_count_prey: 2,
        max_split_count_predator: 2,
        energy_gain_predator: 10,
    };
    let grid = Grid::new(config.grid_width, config.grid_height, config.prob_prey, config.prob_food);
    let mut prey_list: Vec<Prey> = Vec::new();
    let n = grid.ternary.len();
    let mut pos: usize = 0;
    while pos < n
        invariant
            n == grid.ternary@.len(),
            grid.wf(),
            pos <= n,
            config == default_config(),
            grid.width == config.grid_width,
            grid.height == config.grid_height,
            prey_list@ == prey_from_cells(grid.ternary@, config, pos as int),
            forall|i: int|
                0 <= i < prey_list@.len() ==> prey_ok(
                    #[trigger] prey_list@[i],
                    n as int,
                    config.view_distance_prey,
                ),
        decreases n - pos,
    {
        if grid.ternary[pos] == -1 {
            prey_list.push(Prey::new(pos, config.view_distance_prey, config.max_energy_prey));
        }
        pos = pos + 1;
    }
    SimulationState { config, grid, prey_list, running: false }
}

/// Advance the simulation by one tick: every prey steps with its chosen
/// action against the frozen pre-tick grid, then the world updates —
/// reproduction, death, random food regrowth, and a rebuilt grid. The
/// actions come from the host, one per prey in population order: each is
/// the argmax index of that prey's network output on its sense vector.
pub fn take_step(state: &mut SimulationState, actions: &Vec<usize>) -> (r: WorldReport)
    requires
        old(state).wf(),
        actions@.len() == old(state).prey_list@.len(),
    ensures
        final(state).wf(),
        final(state).config == old(state).config,
        final(state).running == old(state).running,
        exists|flags: Seq<bool>|
            #[trigger] world_outcome_matches(
                old(state).grid.ternary@,
                stepped_all(
                    old(state).prey_list@,
                    actions@,
                    old(state).grid.width as int,
                    (old(state).grid.width * old(state).grid.height) as int,
                ),
                old(state).config,
                flags,
                final(state).grid.ternary@,
                final(state).prey_list@,
                r,
            ),
            forall|a: int|
                0 <= a < r.removed@.len() ==> #[trigger] r.removed@[a]
                    < old(state).prey_list@.len(),
            forall|a: int, b: int|
                #![trigger r.removed@[a], r.removed@[b]]
                0 <= a < b < r.removed@.len() ==> r.removed@[a] < r.removed@[b],
            forall|a: int|
                0 <= a < r.births@.len() ==> (#[trigger] r.births@[a]).parent
                    < old(state).prey_list@.len(),
{
    state.step_agents(actions);
    state.update_grid()
}

/// Toggle the run flag. The simulation itself never reads this flag —
/// [`take_step`] always advances when called — it only carries a host's
/// pause state between its controls.
pub fn negate_running(state: &mut SimulationState)
    ensures
        final(state).running == !old(state).running,
        final(state).config == old(state).config,
        final(state).grid == old(state).grid,
        final(state).prey_list == old(state).prey_list,
{
    state.running = !state.running;
}

/// Facts that one pass of [`world_consume`] guarantees: the grid keeps
/// its length and validity, the prey beyond the processed prefix are
/// untouched, positions and view distances never change, the recorded
/// events point at processed prey and carry their previous positions,
/// and the dead indices are processed indices in strictly ascending
/// order.
pub proof fn lemma_consume_props(
    g: Seq<i8>,
    ps: Seq<Prey>,
    max_split: usize,
    max_energy: usize,
    k: int,
    n: int,
    vd: usize,
)
    requires
        0 <= k <= ps.len(),
        ps.len() <= usize::MAX,
        g.len() == n,
        forall|i: int| 0 <= i < ps.len() ==> prey_ok(#[trigger] ps[i], n, vd),
        forall|i: int| 0 <= i < g.len() ==> valid_cell(#[trigger] g[i]),
    ensures
        ({
            let w = world_consume(g, ps, max_split, max_energy, k);
            &&& w.0.len() == n
            &&& forall|i: int| 0 <= i < w.0.len() ==> valid_cell(#[trigger] w.0[i])
            &&& w.1.len() == ps.len()
            &&& forall|i: int| k <= i < ps.len() ==> w.1[i] == ps[i]
            &&& forall|i: int| 0 <= i < ps.len() ==> prey_ok(#[trigger] w.1[i], n, vd)
            &&& forall|i: int|
                0 <= i < ps.len() ==> (#[trigger] w.1[i]).position == ps[i].position
                    && w.1[i].prev_position == ps[i].prev_position
            &&& w.3.len() <= k
            &&& forall|j: int|
                0 <= j < w.2.len() ==> 0 <= (#[trigger] w.2[j]).0 < k
                    && w.2[j].1 == ps[w.2[j].0 as int].prev_position && w.2[j].1 < n
            &&& forall|j: int| 0 <= j < w.3.len() ==> 0 <= #[trigger] w.3[j] < k
            &&& forall|a: int, b: int|
                #![trigger w.3[a], w.3[b]]
                0 <= a < b < w.3.len() ==> w.3[a] < w.3[b]
        }),
    decreases k,
{
    if k > 0 {
        lemma_consume_props(g, ps, max_split, max_energy, k - 1, n, vd);
        let w0 = world_consume(g, ps, max_split, max_energy, k - 1);
        let c = consume_step(w0.0, ps[k - 1], max_split, max_energy);
        let w = world_consume(g, ps, max_split, max_energy, k);
        assert(prey_ok(ps[k - 1], n, vd));
        assert forall|i: int| 0 <= i < w.0.len() implies valid_cell(#[trigger] w.0[i]) by {
            if i != ps[k - 1].position {
                assert(w.0[i] == w0.0[i]);
            }
        }
        assert forall|i: int| 0 <= i < ps.len() implies prey_ok(#[trigger] w.1[i], n, vd)
            && w.1[i].position == ps[i].position && w.1[i].prev_position == ps[i].prev_position by {
            if i != k - 1 {
                assert(w.1[i] == w0.1[i]);
            }
        }
        assert forall|j: int|
            0 <= j < w.2.len() implies 0 <= (#[trigger] w.2[j]).0 < k && w.2[j].1 == ps[w.2[j].0 as int].prev_position
                && w.2[j].1 < n by {
            if j < w0.2.len() {
                assert(w.2[j] == w0.2[j]);
            } else {
                assert(0 <= k - 1 <= usize::MAX);
                assert(w.2[j] == (((k - 1) as usize), ps[k - 1].prev_position));
                assert((w.2[j].0) as int == k - 1);
            }
        }
        assert forall|j: int| 0 <= j < w.3.len() implies 0 <= #[trigger] w.3[j] < k by {
            if j < w0.3.len() {
                assert(w.3[j] == w0.3[j]);
            }
        }
        assert forall|a: int, b: int|
            #![trigger w.3[a], w.3[b]]
            0 <= a < b < w.3.len() implies w.3[a] < w.3[b] by {
            if b < w0.3.len() {
                assert(w0.3[a] < w0.3[b]);
            } else {
                assert(0 <= k - 1 <= usize::MAX);
                assert(w.3[b] == (k - 1) as usize);
                assert(w.3[a] == w0.3[a] && w0.3[a] < k - 1);
            }
        }
    }
}

/// In a strictly ascending sequence, an index `b - a` places further
/// along is at least `b - a` larger.
pub proof fn lemma_strict_gap(s: Seq<usize>, a: int, b: int)
    requires
        0 <= a <= b < s.len(),
        forall|x: int, y: int| #![trigger s[x], s[y]] 0 <= x < y < s.len() ==> s[x] < s[y],
    ensures
        s[a] + (b - a) <= s[b],
    decreases b - a,
{
    if a < b {
        lemma_strict_gap(s, a + 1, b);
    }
}

/// Removing the recorded dead keeps every surviving prey well placed and
/// shortens the population by exactly the number removed.
pub proof fn lemma_remove_dead_props(ps: Seq<Prey>, dead: Seq<usize>, k: int, n: int, vd: usize)
    requires
        0 <= k <= dead.len(),
        dead.len() <= ps.len(),
        forall|a: int| 0 <= a < dead.len() ==> #[trigger] dead[a] < ps.len(),
        forall|x: int, y: int|
            #![trigger dead[x], dead[y]]
            0 <= x < y < dead.len() ==> dead[x] < dead[y],
        forall|i: int| 0 <= i < ps.len() ==> prey_ok(#[trigger] ps[i], n, vd),
    ensures
        remove_dead(ps, dead, k).len() == ps.len() - k,
        forall|i: int|
            0 <= i < remove_dead(ps, dead, k).len() ==> prey_ok(
                #[trigger] remove_dead(ps, dead, k)[i],
                n,
                vd,
            ),
    decreases k,
{
    if k > 0 {
        lemma_remove_dead_props(ps, dead, k - 1, n, vd);
        let prev = remove_dead(ps, dead, k - 1);
        let idx = dead[dead.len() - k] as int;
        if k > 1 {
            lemma_strict_gap(dead, dead.len() - k, dead.len() - 1);
        }
        assert(idx < prev.len());
        assert forall|i: int| 0 <= i < prev.remove(idx).len() implies prey_ok(
            #[trigger] prev.remove(idx)[i],
            n,
            vd,
        ) by {
            if i < idx {
                assert(prev.remove(idx)[i] == prev[i]);
            } else {
                assert(prev.remove(idx)[i] == prev[i + 1]);
            }
        }
    }
}

/// Facts that applying reproduction events guarantees: the grid keeps
/// its length and validity, the population only grows — by newborn prey
/// on event cells — and every prey stays well placed.
pub proof fn lemma_spawn_props(
    g: Seq<i8>,
    ps: Seq<Prey>,
    pend: Seq<(usize, usize)>,
    vd: usize,
    max_energy: usize,
    k: int,
    n: int,
)
    requires
        0 <= k <= pend.len(),
        g.len() == n,
        forall|j: int| 0 <= j < pend.len() ==> (#[trigger] pend[j]).1 < n,
        forall|i: int| 0 <= i < ps.len() ==> prey_ok(#[trigger] ps[i], n, vd),
        forall|i: int| 0 <= i < g.len() ==> valid_cell(#[trigger] g[i]),
    ensures
        ({
            let sp = world_spawn(g, ps, pend, vd, max_energy, k);
            &&& sp.0.len() == n
            &&& forall|i: int| 0 <= i < sp.0.len() ==> valid_cell(#[trigger] sp.0[i])
            &&& sp.1.len() >= ps.len()
            &&& forall|i: int| 0 <= i < sp.1.len() ==> prey_ok(#[trigger] sp.1[i], n, vd)
            &&& sp.2.len() == k
        }),
    decreases k,
{
    if k > 0 {
        lemma_spawn_props(g, ps, pend, vd, max_energy, k - 1, n);
    }
}

} // verus!
