//! The simulation's general laws, stated and proved once and for all:
//! toroidal index arithmetic stays in range, energy falls by exactly one
//! per tick when no food is eaten, reproduction fires exactly at the
//! threshold, and food is conserved when nothing regrows and nothing is
//! eaten.

use crate::agents::{move_dest, stepped, Prey};
use crate::grid::valid_cell;
use crate::{
    keep_food, prey_ok, regrow, stepped_all, world_consume, world_spawn, world_update_spec,
    SimulationState,
};
use vstd::arithmetic::div_mod::{
    lemma_mod_add_multiples_vanish, lemma_mod_division_less_than_divisor, lemma_small_mod,
};
use vstd::prelude::*;

verus! {

/// Toroidal wrap stays in range: on a torus of `n` cells, both the
/// forward index `(pos + i) % n` and the backward index
/// `(pos + n - i) % n` are valid cell indices for any offset `i` in
/// `[0, n)`; and sensing past the last cell wraps to the start of the
/// grid: from the last cell, the forward index at offset `i >= 1` is
/// exactly `i - 1`, so offset 1 reaches cell 0.
pub proof fn lemma_toroidal_wrap(pos: int, i: int, n: int)
    requires
        n >= 1,
        0 <= pos < n,
        0 <= i < n,
    ensures
        0 <= (pos + i) % n < n,
        0 <= (pos + n - i) % n < n,
        pos == n - 1 && i >= 1 ==> (pos + i) % n == i - 1,
{
    lemma_mod_division_less_than_divisor(pos + i, n);
    lemma_mod_division_less_than_divisor(pos + n - i, n);
    if pos == n - 1 && i >= 1 {
        lemma_mod_add_multiples_vanish(i - 1, n);
        lemma_small_mod((i - 1) as nat, n as nat);
    }
}

/// Every move lands on the torus: whatever the action, the destination
/// is a valid cell index.
pub proof fn lemma_move_dest_bounds(pos: int, action: int, width: int, n: int)
    requires
        n >= 1,
        0 <= pos < n,
        0 <= width,
    ensures
        0 <= move_dest(pos, action, width, n) < n,
{
    lemma_mod_division_less_than_divisor(pos + 1, n);
    lemma_mod_division_less_than_divisor(pos + n - 1, n);
    lemma_mod_division_less_than_divisor(pos + width, n);
    lemma_mod_division_less_than_divisor(pos + n - width, n);
}

/// On a grid without food nothing is eaten: the consumption pass leaves
/// every energy unchanged, resets exactly the split counts that reached
/// the threshold, never writes food, and records as dead exactly the
/// prey whose energy is zero.
pub proof fn lemma_consume_no_food(
    g: Seq<i8>,
    ps: Seq<Prey>,
    max_split: usize,
    max_energy: usize,
    k: int,
    n: int,
    vd: usize,
)
    requires
        0 <= k <= ps.len(),
        ps.len() <= usize::MAX,
        g.len() == n,
        forall|i: int| 0 <= i < ps.len() ==> prey_ok(#[trigger] ps[i], n, vd),
        forall|i: int| 0 <= i < g.len() ==> valid_cell(#[trigger] g[i]),
        forall|i: int| 0 <= i < g.len() ==> g[i] != 1,
    ensures
        ({
            let w = world_consume(g, ps, max_split, max_energy, k);
            &&& w.0.len() == n
            &&& w.1.len() == ps.len()
            &&& forall|i: int| 0 <= i < w.0.len() ==> #[trigger] w.0[i] != 1
            &&& forall|i: int|
                0 <= i < ps.len() ==> (#[trigger] w.1[i]).energy == ps[i].energy
                    && w.1[i].split_count == (if i < k && ps[i].split_count == max_split {
                    0usize
                } else {
                    ps[i].split_count
                })
            &&& forall|i: int| 0 <= i < k ==> (ps[i].energy == 0 <==> w.3.contains(i as usize))
            &&& forall|j: int| 0 <= j < w.3.len() ==> 0 <= #[trigger] w.3[j] < k
        }),
    decreases k,
{
    crate::lemma_consume_props(g, ps, max_split, max_energy, k, n, vd);
    if k > 0 {
        lemma_consume_no_food(g, ps, max_split, max_energy, k - 1, n, vd);
        crate::lemma_consume_props(g, ps, max_split, max_energy, k - 1, n, vd);
        let w0 = world_consume(g, ps, max_split, max_energy, k - 1);
        let w = world_consume(g, ps, max_split, max_energy, k);
        assert(prey_ok(ps[k - 1], n, vd));
        assert(w0.0[ps[k - 1].position as int] != 1);
        assert forall|i: int| 0 <= i < w.0.len() implies #[trigger] w.0[i] != 1 by {
            if i != ps[k - 1].position {
                assert(w.0[i] == w0.0[i]);
            }
        }
        assert forall|i: int|
            0 <= i < ps.len() implies (#[trigger] w.1[i]).energy == ps[i].energy
                && w.1[i].split_count == (if i < k && ps[i].split_count == max_split {
                0usize
            } else {
                ps[i].split_count
            }) by {
            if i != k - 1 {
                assert(w.1[i] == w0.1[i]);
            }
        }
        assert forall|i: int|
            0 <= i < k implies (ps[i].energy == 0 <==> w.3.contains(i as usize)) by {
            if i < k - 1 {
                if ps[i].energy == 0 {
                    assert(w0.3.contains(i as usize));
                    let j = choose|j: int| 0 <= j < w0.3.len() && w0.3[j] == i as usize;
                    assert(w.3[j] == i as usize);
                } else {
                    if w.3.contains(i as usize) {
                        let j = choose|j: int| 0 <= j < w.3.len() && w.3[j] == i as usize;
                        if j < w0.3.len() {
                            assert(w0.3.contains(i as usize));
                        }
                    }
                }
            } else {
                if ps[k - 1].energy == 0 {
                    assert(w.3[w.3.len() - 1] == (k - 1) as usize);
                } else {
                    if w.3.contains(i as usize) {
                        let j = choose|j: int| 0 <= j < w.3.len() && w.3[j] == i as usize;
                        if j < w0.3.len() {
                            assert(0 <= w0.3[j] < k - 1);
                        }
                    }
                }
            }
        }
    }
}

/// Spawning only appends: every prey that entered the spawn pass keeps
/// its index and its fields; newborns follow behind.
pub proof fn lemma_spawn_prefix(
    g: Seq<i8>,
    ps: Seq<Prey>,
    pend: Seq<(usize, usize)>,
    vd: usize,
    max_energy: usize,
    k: int,
)
    requires
        0 <= k <= pend.len(),
    ensures
        world_spawn(g, ps, pend, vd, max_energy, k).1.len() >= ps.len(),
        forall|i: int|
            0 <= i < ps.len() ==> world_spawn(g, ps, pend, vd, max_energy, k).1[i] == ps[i],
    decreases k,
{
    if k > 0 {
        lemma_spawn_prefix(g, ps, pend, vd, max_energy, k - 1);
    }
}

/// Energy monotonicity: on a grid without food, one tick lowers every
/// prey's energy by exactly one, clamped at zero — the world-update pass
/// adds nothing back — and schedules for removal exactly the prey whose
/// energy ran out. When no prey is exhausted after stepping, nothing is
/// removed: every prey keeps its index ahead of any newborns, with
/// exactly one less energy than before the tick. Energy is an unsigned
/// count and can never go below zero.
pub proof fn lemma_energy_monotone(s: SimulationState, actions: Seq<usize>)
    requires
        s.wf(),
        actions.len() == s.prey_list@.len(),
        forall|i: int| 0 <= i < s.grid.ternary@.len() ==> s.grid.ternary@[i] != 1,
    ensures
        ({
            let n = (s.grid.width * s.grid.height) as int;
            let ps1 = stepped_all(s.prey_list@, actions, s.grid.width as int, n);
            let w = world_consume(
                keep_food(s.grid.ternary@),
                ps1,
                s.config.max_split_count_prey,
                s.config.max_energy_prey,
                ps1.len() as int,
            );
            &&& forall|i: int|
                0 <= i < ps1.len() ==> (#[trigger] ps1[i]).energy == (
                if s.prey_list@[i].energy == 0 {
                    0usize
                } else {
                    (s.prey_list@[i].energy - 1) as usize
                })
            &&& forall|i: int| 0 <= i < ps1.len() ==> (#[trigger] w.1[i]).energy == ps1[i].energy
            &&& forall|i: int|
                0 <= i < ps1.len() ==> (s.prey_list@[i].energy <= 1 <==> w.3.contains(i as usize))
            &&& (forall|i: int| 0 <= i < ps1.len() ==> (#[trigger] ps1[i]).energy >= 1) ==> ({
                let sp = world_spawn(
                    w.0,
                    crate::remove_dead(w.1, w.3, w.3.len() as int),
                    w.2,
                    s.config.view_distance_prey,
                    s.config.max_energy_prey,
                    w.2.len() as int,
                );
                &&& w.3.len() == 0
                &&& sp.1.len() >= ps1.len()
                &&& forall|i: int|
                    0 <= i < ps1.len() ==> (#[trigger] sp.1[i]).energy == ps1[i].energy
            })
        }),
{
    let n = (s.grid.width * s.grid.height) as int;
    let g1 = keep_food(s.grid.ternary@);
    let ps1 = stepped_all(s.prey_list@, actions, s.grid.width as int, n);
    vstd::std_specs::vec::axiom_spec_len(&s.prey_list);
    assert(s.prey_list.len() == s.prey_list@.len());
    assert(n >= 1) by (nonlinear_arith)
        requires
            s.grid.width >= 1,
            s.grid.height >= 1,
            n == (s.grid.width * s.grid.height) as int,
    ;
    assert forall|i: int| 0 <= i < ps1.len() implies prey_ok(
        #[trigger] ps1[i],
        n,
        s.config.view_distance_prey,
    ) by {
        assert(prey_ok(s.prey_list@[i], n, s.config.view_distance_prey));
        lemma_move_dest_bounds(
            s.prey_list@[i].position as int,
            actions[i] as int,
            s.grid.width as int,
            n,
        );
        assert(ps1[i] == stepped(s.prey_list@[i], actions[i], s.grid.width as int, n));
    }
    assert forall|i: int| 0 <= i < g1.len() implies #[trigger] g1[i] != 1 && valid_cell(g1[i]) by {
        assert(s.grid.ternary@[i] != 1);
    }
    lemma_consume_no_food(
        g1,
        ps1,
        s.config.max_split_count_prey,
        s.config.max_energy_prey,
        ps1.len() as int,
        n,
        s.config.view_distance_prey,
    );
    let w = world_consume(
        g1,
        ps1,
        s.config.max_split_count_prey,
        s.config.max_energy_prey,
        ps1.len() as int,
    );
    assert forall|i: int| 0 <= i < ps1.len() implies (#[trigger] ps1[i]).energy == (
    if s.prey_list@[i].energy == 0 {
        0usize
    } else {
        (s.prey_list@[i].energy - 1) as usize
    }) by {
        assert(ps1[i] == stepped(s.prey_list@[i], actions[i], s.grid.width as int, n));
    }
    assert forall|i: int|
        0 <= i < ps1.len() implies (s.prey_list@[i].energy <= 1 <==> w.3.contains(
        i as usize,
    )) by {
        assert(ps1[i].energy == 0 <==> w.3.contains(i as usize));
        assert(ps1[i].energy == 0 <==> s.prey_list@[i].energy <= 1);
    }
    if forall|i: int| 0 <= i < ps1.len() ==> (#[trigger] ps1[i]).energy >= 1 {
        if w.3.len() > 0 {
            let idx = w.3[0];
            assert(w.3.contains(idx));
            assert(ps1[idx as int].energy == 0);
            assert(false);
        }
        assert(crate::remove_dead(w.1, w.3, w.3.len() as int) == w.1);
        lemma_spawn_prefix(
            w.0,
            w.1,
            w.2,
            s.config.view_distance_prey,
            s.config.max_energy_prey,
            w.2.len() as int,
        );
        crate::lemma_consume_props(
            g1,
            ps1,
            s.config.max_split_count_prey,
            s.config.max_energy_prey,
            ps1.len() as int,
            n,
            s.config.view_distance_prey,
        );
        let sp = world_spawn(
            w.0,
            w.1,
            w.2,
            s.config.view_distance_prey,
            s.config.max_energy_prey,
            w.2.len() as int,
        );
        assert(w.1.len() == ps1.len());
        assert(sp.1.len() >= ps1.len());
        assert forall|i: int|
            0 <= i < ps1.len() implies (#[trigger] sp.1[i]).energy == ps1[i].energy by {
            assert(sp.1[i] == w.1[i]);
            assert(w.1[i].energy == ps1[i].energy);
        }
    }
}

/// The consumption pass records a reproduction event for exactly the
/// prey whose split count stands at the threshold, carrying the prey's
/// previous position, and resets that prey's split count — to zero, or
/// to one if the prey also ate this very pass.
pub proof fn lemma_consume_events(
    g: Seq<i8>,
    ps: Seq<Prey>,
    max_split: usize,
    max_energy: usize,
    k: int,
    n: int,
    vd: usize,
)
    requires
        0 <= k <= ps.len(),
        ps.len() <= usize::MAX,
        g.len() == n,
        forall|i: int| 0 <= i < ps.len() ==> prey_ok(#[trigger] ps[i], n, vd),
        forall|i: int| 0 <= i < g.len() ==> valid_cell(#[trigger] g[i]),
    ensures
        ({
            let w = world_consume(g, ps, max_split, max_energy, k);
            &&& forall|i: int|
                0 <= i < k && (#[trigger] ps[i]).split_count == max_split ==> exists|j: int|
                    0 <= j < w.2.len() && w.2[j] == (i as usize, ps[i].prev_position)
            &&& forall|i: int|
                0 <= i < k && (#[trigger] ps[i]).split_count == max_split
                    ==> w.1[i].split_count <= 1
        }),
    decreases k,
{
    crate::lemma_consume_props(g, ps, max_split, max_energy, k, n, vd);
    if k > 0 {
        lemma_consume_events(g, ps, max_split, max_energy, k - 1, n, vd);
        crate::lemma_consume_props(g, ps, max_split, max_energy, k - 1, n, vd);
        let w0 = world_consume(g, ps, max_split, max_energy, k - 1);
        let w = world_consume(g, ps, max_split, max_energy, k);
        assert forall|i: int|
            0 <= i < k && (#[trigger] ps[i]).split_count == max_split implies exists|j: int|
                0 <= j < w.2.len() && w.2[j] == (i as usize, ps[i].prev_position) by {
            if i < k - 1 {
                let j = choose|j: int|
                    0 <= j < w0.2.len() && w0.2[j] == (i as usize, ps[i].prev_position);
                assert(w.2[j] == (i as usize, ps[i].prev_position));
            } else {
                assert(w.2[w.2.len() - 1] == ((k - 1) as usize, ps[k - 1].prev_position));
            }
        }
        assert forall|i: int|
            0 <= i < k && (#[trigger] ps[i]).split_count == max_split implies w.1[i].split_count
                <= 1 by {
            if i < k - 1 {
                assert(w.1[i] == w0.1[i]);
            }
        }
    }
}

/// Reproduction threshold: a prey whose split count has reached the
/// configured maximum has, on the next world update, a reproduction
/// event recorded at its previous position, and its split count is reset
/// regardless of whether the spawn succeeds (it can stand at one if the
/// prey ate in the same update). Each recorded event spawns a newborn at
/// its position if and only if that cell is still empty when the event's
/// turn comes, and is dropped otherwise.
pub proof fn lemma_reproduction_threshold(s: SimulationState, flags: Seq<bool>, i: int)
    requires
        s.wf(),
        0 <= i < s.prey_list@.len(),
        s.prey_list@[i].split_count == s.config.max_split_count_prey,
    ensures
        ({
            let g1 = keep_food(s.grid.ternary@);
            let w = world_consume(
                g1,
                s.prey_list@,
                s.config.max_split_count_prey,
                s.config.max_energy_prey,
                s.prey_list@.len() as int,
            );
            let ps3 = crate::remove_dead(w.1, w.3, w.3.len() as int);
            &&& exists|j: int|
                0 <= j < w.2.len() && w.2[j] == (i as usize, s.prey_list@[i].prev_position)
            &&& w.1[i].split_count <= 1
            &&& forall|j: int|
                0 <= j < w.2.len() ==> {
                    let before = world_spawn(
                        w.0,
                        ps3,
                        w.2,
                        s.config.view_distance_prey,
                        s.config.max_energy_prey,
                        j,
                    );
                    let after = world_spawn(
                        w.0,
                        ps3,
                        w.2,
                        s.config.view_distance_prey,
                        s.config.max_energy_prey,
                        j + 1,
                    );
                    &&& after.2[j] == (before.0[(#[trigger] w.2[j]).1 as int] == 0)
                    &&& (after.2[j] ==> after.1 == before.1.push(
                        crate::fresh_prey(
                            w.2[j].1,
                            s.config.view_distance_prey,
                            s.config.max_energy_prey,
                        ),
                    ))
                    &&& (!after.2[j] ==> after.1 == before.1)
                }
        }),
{
    let g0 = s.grid.ternary@;
    let g1 = keep_food(g0);
    let ps = s.prey_list@;
    let n = (s.grid.width * s.grid.height) as int;
    vstd::std_specs::vec::axiom_spec_len(&s.prey_list);
    assert forall|a: int| 0 <= a < g1.len() implies valid_cell(#[trigger] g1[a]) by {
        assert(valid_cell(g0[a]));
    }
    lemma_consume_events(
        g1,
        ps,
        s.config.max_split_count_prey,
        s.config.max_energy_prey,
        ps.len() as int,
        n,
        s.config.view_distance_prey,
    );
    let ms = s.config.max_split_count_prey;
    let me = s.config.max_energy_prey;
    let vd = s.config.view_distance_prey;
    crate::lemma_consume_props(g1, ps, ms, me, ps.len() as int, n, vd);
    let w = world_consume(g1, ps, ms, me, ps.len() as int);
    let ps3 = crate::remove_dead(w.1, w.3, w.3.len() as int);
    assert forall|j: int| 0 <= j < w.2.len() implies ({
        let before = world_spawn(w.0, ps3, w.2, vd, me, j);
        let after = world_spawn(w.0, ps3, w.2, vd, me, j + 1);
        &&& after.2[j] == (before.0[(#[trigger] w.2[j]).1 as int] == 0)
        &&& (after.2[j] ==> after.1 == before.1.push(crate::fresh_prey(w.2[j].1, vd, me)))
        &&& (!after.2[j] ==> after.1 == before.1)
    }) by {
        let before = world_spawn(w.0, ps3, w.2, vd, me, j);
        let after = world_spawn(w.0, ps3, w.2, vd, me, j + 1);
        assert(after == ({
            let pos = w.2[j].1;
            if before.0[pos as int] == 0 {
                (
                    before.0.update(pos as int, -1i8),
                    before.1.push(crate::fresh_prey(pos, vd, me)),
                    before.2.push(true),
                )
            } else {
                (before.0, before.1, before.2.push(false))
            }
        }));
        assert(before.2.len() == j) by {
            lemma_spawn_len(w.0, ps3, w.2, vd, me, j);
        }
    }
}

/// The length of the spawn outcome record equals the number of events
/// applied.
pub proof fn lemma_spawn_len(
    g: Seq<i8>,
    ps: Seq<Prey>,
    pend: Seq<(usize, usize)>,
    vd: usize,
    max_energy: usize,
    k: int,
)
    requires
        0 <= k <= pend.len(),
    ensures
        world_spawn(g, ps, pend, vd, max_energy, k).2.len() == k,
    decreases k,
{
    if k > 0 {
        lemma_spawn_len(g, ps, pend, vd, max_energy, k - 1);
    }
}

/// The number of food cells on a grid.
pub open spec fn count_food(g: Seq<i8>) -> nat
    decreases g.len(),
{
    if g.len() == 0 {
        0nat
    } else {
        count_food(g.drop_last()) + (if g.last() == 1 {
            1nat
        } else {
            0nat
        })
    }
}

/// Writing a non-food value over a non-food cell does not change the
/// food count.
pub proof fn lemma_count_food_update(g: Seq<i8>, i: int, v: i8)
    requires
        0 <= i < g.len(),
        g[i] != 1,
        v != 1,
    ensures
        count_food(g.update(i, v)) == count_food(g),
    decreases g.len(),
{
    if i == g.len() - 1 {
        assert(g.update(i, v).drop_last() =~= g.drop_last());
        assert(g.update(i, v).last() == v);
    } else {
        assert(g.update(i, v).drop_last() =~= g.drop_last().update(i, v));
        lemma_count_food_update(g.drop_last(), i, v);
        assert(g.update(i, v).last() == g.last());
    }
}

/// Keeping the food of a grid keeps exactly its food count.
pub proof fn lemma_count_keep_food(g: Seq<i8>)
    ensures
        count_food(keep_food(g)) == count_food(g),
    decreases g.len(),
{
    if g.len() > 0 {
        assert(keep_food(g).drop_last() =~= keep_food(g.drop_last()));
        lemma_count_keep_food(g.drop_last());
        assert(keep_food(g).last() == (if g.last() == 1 {
            1i8
        } else {
            0i8
        }));
    }
}

/// The consumption pass only writes prey markers; if no prey stands on a
/// food cell, the food count is unchanged, and every cell either keeps
/// its value or becomes a prey marker.
pub proof fn lemma_consume_count(
    g: Seq<i8>,
    ps: Seq<Prey>,
    max_split: usize,
    max_energy: usize,
    k: int,
    n: int,
    vd: usize,
)
    requires
        0 <= k <= ps.len(),
        ps.len() <= usize::MAX,
        g.len() == n,
        forall|i: int| 0 <= i < ps.len() ==> prey_ok(#[trigger] ps[i], n, vd),
        forall|i: int| 0 <= i < g.len() ==> valid_cell(#[trigger] g[i]),
        forall|i: int|
            0 <= i < ps.len() ==> g[(#[trigger] ps[i]).position as int] != 1,
    ensures
        ({
            let w = world_consume(g, ps, max_split, max_energy, k);
            &&& count_food(w.0) == count_food(g)
            &&& forall|c: int| 0 <= c < n ==> ((#[trigger] w.0[c]) == g[c] || w.0[c] == -1)
        }),
    decreases k,
{
    crate::lemma_consume_props(g, ps, max_split, max_energy, k, n, vd);
    if k > 0 {
        lemma_consume_count(g, ps, max_split, max_energy, k - 1, n, vd);
        crate::lemma_consume_props(g, ps, max_split, max_energy, k - 1, n, vd);
        let w0 = world_consume(g, ps, max_split, max_energy, k - 1);
        let w = world_consume(g, ps, max_split, max_energy, k);
        let pos = ps[k - 1].position as int;
        assert(prey_ok(ps[k - 1], n, vd));
        assert(w0.0[pos] == g[pos] || w0.0[pos] == -1);
        assert(w0.0[pos] != 1);
        lemma_count_food_update(w0.0, pos, -1i8);
        assert forall|c: int|
            0 <= c < n implies ((#[trigger] w.0[c]) == g[c] || w.0[c] == -1) by {
            if c != pos {
                assert(w.0[c] == w0.0[c]);
            }
        }
    }
}

/// Spawning writes prey markers only over empty cells, so the food count
/// is unchanged.
pub proof fn lemma_spawn_count(
    g: Seq<i8>,
    ps: Seq<Prey>,
    pend: Seq<(usize, usize)>,
    vd: usize,
    max_energy: usize,
    k: int,
    n: int,
)
    requires
        0 <= k <= pend.len(),
        g.len() == n,
        forall|j: int| 0 <= j < pend.len() ==> (#[trigger] pend[j]).1 < n,
    ensures
        count_food(world_spawn(g, ps, pend, vd, max_energy, k).0) == count_food(g),
        world_spawn(g, ps, pend, vd, max_energy, k).0.len() == n,
    decreases k,
{
    if k > 0 {
        lemma_spawn_count(g, ps, pend, vd, max_energy, k - 1, n);
        let w0 = world_spawn(g, ps, pend, vd, max_energy, k - 1);
        let pos = pend[k - 1].1 as int;
        if w0.0[pos] == 0 {
            lemma_count_food_update(w0.0, pos, -1i8);
        }
    }
}

/// Food conservation: with regrowth switched off and no prey standing on
/// a food cell, one world update leaves the total number of food cells
/// exactly as it was.
pub proof fn lemma_food_conserved(s: SimulationState, flags: Seq<bool>)
    requires
        s.wf(),
        flags.len() == s.grid.ternary@.len(),
        forall|i: int| 0 <= i < flags.len() ==> !flags[i],
        forall|i: int|
            0 <= i < s.prey_list@.len() ==> s.grid.ternary@[(
            #[trigger] s.prey_list@[i]).position as int] != 1,
    ensures
        count_food(world_update_spec(s.grid.ternary@, s.prey_list@, s.config, flags).0)
            == count_food(s.grid.ternary@),
{
    let g0 = s.grid.ternary@;
    let g1 = keep_food(g0);
    let ps = s.prey_list@;
    let n = (s.grid.width * s.grid.height) as int;
    let ms = s.config.max_split_count_prey;
    let me = s.config.max_energy_prey;
    let vd = s.config.view_distance_prey;
    vstd::std_specs::vec::axiom_spec_len(&s.prey_list);
    lemma_count_keep_food(g0);
    assert forall|a: int| 0 <= a < g1.len() implies valid_cell(#[trigger] g1[a]) by {
        assert(valid_cell(g0[a]));
    }
    assert forall|i: int|
        0 <= i < ps.len() implies g1[(#[trigger] ps[i]).position as int] != 1 by {
        assert(prey_ok(ps[i], n, vd));
        assert(g0[ps[i].position as int] != 1);
    }
    lemma_consume_count(g1, ps, ms, me, ps.len() as int, n, vd);
    crate::lemma_consume_props(g1, ps, ms, me, ps.len() as int, n, vd);
    let w = world_consume(g1, ps, ms, me, ps.len() as int);
    let ps3 = crate::remove_dead(w.1, w.3, w.3.len() as int);
    lemma_spawn_count(w.0, ps3, w.2, vd, me, w.2.len() as int, n);
    let sp = world_spawn(w.0, ps3, w.2, vd, me, w.2.len() as int);
    assert(regrow(sp.0, flags) =~= sp.0);
}

} // verus!
