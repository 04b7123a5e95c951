//! The world and its tick pipeline: structure-of-arrays entity state, a
//! spatial index rebuilt every tick, a predator phase, and an agent phase
//! of sensing, decision, physics, metabolism, interaction and evolution.
//! A dead agent's slot is reborn in place; food and predators teleport
//! rather than despawn.

use vstd::prelude::*;

verus! {

use vstd::pervasive::VecAdditionalExecFns;
use crate::brain::{Brain, all_bounded, output_spec};
use crate::constants::{
    AGENT_COUNT,
    AGENT_SPEED_MODIFIER,
    BASE_MUTATION_RATE,
    BIAS_COUNT,
    BATTLE_COST,
    DEATH_SENTINEL,
    DEFAULT_PREDATOR_SPEED,
    DEFAULT_REPRODUCTION_THRESHOLD,
    EAT_RADIUS,
    ENERGY_CAP,
    FOOD_COUNT,
    FOOD_ENERGY,
    GRID_CELL_SIZE,
    HEARING_RADIUS,
    INPUT_COUNT,
    INPUT_LIMIT,
    INPUT_WEIGHTS,
    MAX_AGENTS,
    MAX_COORD,
    MAX_ENERGY_ABS,
    MAX_FOOD,
    MAX_GRID_CELLS,
    MAX_PREDATORS,
    MAX_PREDATOR_SPEED,
    MAX_RATE,
    MAX_TERRAIN,
    MAX_THRESHOLD_ABS,
    MOVE_COST,
    MUD_COUNT,
    OFFSPRING_ENERGY,
    OUTPUT_WEIGHTS,
    PARENT_COST,
    PREDATOR_COUNT,
    PREDATOR_KILL_RADIUS,
    PREDATOR_SCAN_SENTINEL,
    PREDATOR_SEPARATION_PUSH,
    PREDATOR_SEPARATION_RADIUS,
    ROCK_COUNT,
    SCALE,
    SENSE_SENTINEL,
    STARTING_ENERGY,
    TOURNAMENT_SIZE,
    TRIBE_COUNT,
    TURN_SPEED,
    TWO_PI_MILLI,
    VIEW_LIMIT,
    WARRIOR_THRESHOLD,
    WHISKER_LEN,
    WHISKER_OFFSET,
    ZOOM_MAX,
    ZOOM_MIN,
};
use crate::fixed::{
    bearing_sin,
    bearing_sin_spec,
    clamp_i64,
    clamp_spec,
    cos_approx,
    cos_fp,
    dist_milli,
    dist_spec,
    lemma_sdiv_bound,
    norm_angle,
    norm_angle_spec,
    sdiv,
    sdiv_spec,
    sin_approx,
    sin_fp,
    sq,
};
use crate::rng::Rng;
use crate::spatial_grid::{SpatialGrid, inserted};

/// A point within the machine coordinate limit.
pub open spec fn pt_bounded(p: (i64, i64)) -> bool {
    0 <= p.0 <= MAX_COORD && 0 <= p.1 <= MAX_COORD
}

/// A point within the current world rectangle.
pub open spec fn pt_in_world(p: (i64, i64), w: i64, h: i64) -> bool {
    0 <= p.0 <= w && 0 <= p.1 <= h
}

pub open spec fn all_pts_bounded(s: Seq<(i64, i64)>) -> bool {
    forall|k: int| 0 <= k < s.len() ==> pt_bounded(#[trigger] s[k])
}

/// A circle (center and radius) within the machine coordinate limit.
pub open spec fn circle_bounded(c: (i64, i64, i64)) -> bool {
    0 <= c.0 <= MAX_COORD && 0 <= c.1 <= MAX_COORD && 0 <= c.2 <= MAX_COORD
}

pub open spec fn all_circles_bounded(s: Seq<(i64, i64, i64)>) -> bool {
    forall|k: int| 0 <= k < s.len() ==> circle_bounded(#[trigger] s[k])
}

/// Strictly inside the circle `c`.
pub open spec fn in_circle(c: (i64, i64, i64), px: int, py: int) -> bool {
    sq(px - c.0) + sq(py - c.1) < sq(c.2 as int)
}

/// Inside at least one of the circles.
pub open spec fn hits_circle(cs: Seq<(i64, i64, i64)>, px: int, py: int) -> bool {
    exists|k: int| 0 <= k < cs.len() && in_circle(#[trigger] cs[k], px, py)
}

/// The distance from `(x, y)` to the point `p`.
pub open spec fn pt_dist(x: int, y: int, p: (i64, i64)) -> int {
    dist_spec(x, y, p.0 as int, p.1 as int)
}

/// The running (index, distance) result of the nearest-point scan over
/// the first `k` points: strict improvement only, so ties go to the
/// earliest index, and nothing at or beyond the sentinel is ever picked.
pub open spec fn scan_nearest(
    pts: Seq<(i64, i64)>,
    x: int,
    y: int,
    sentinel: int,
    k: int,
) -> (int, int)
    decreases k,
{
    if k <= 0 {
        (0, sentinel)
    } else {
        let prev = scan_nearest(pts, x, y, sentinel, k - 1);
        if pt_dist(x, y, pts[k - 1]) < prev.1 {
            (k - 1, pt_dist(x, y, pts[k - 1]))
        } else {
            prev
        }
    }
}

/// The distance to the nearest other living agent among the first `k`
/// slots, at the sentinel when none is nearer.
pub open spec fn scan_other_living(
    pts: Seq<(i64, i64)>,
    energies: Seq<i64>,
    i: int,
    x: int,
    y: int,
    k: int,
) -> int
    decreases k,
{
    if k <= 0 {
        SENSE_SENTINEL as int
    } else {
        let prev = scan_other_living(pts, energies, i, x, y, k - 1);
        if k - 1 != i && energies[k - 1] > 0 && pt_dist(x, y, pts[k - 1]) < prev {
            pt_dist(x, y, pts[k - 1])
        } else {
            prev
        }
    }
}

/// A normalized distance input: the distance over the world width,
/// capped at one (and one when the world has no width).
pub open spec fn norm_dist_spec(d: int, width: int) -> int {
    if width <= 0 {
        SCALE as int
    } else {
        clamp_spec(sdiv_spec(d * SCALE, width), 0, SCALE as int)
    }
}

/// Whether a whisker ray of fixed length at heading `ang` from `(x, y)`
/// touches the world edge or a rock.
pub open spec fn whisker_spec(
    rocks: Seq<(i64, i64, i64)>,
    x: int,
    y: int,
    w: int,
    h: int,
    ang: int,
) -> int {
    let rx = x + sdiv_spec(cos_approx(ang) * WHISKER_LEN, SCALE as int);
    let ry = y + sdiv_spec(sin_approx(ang) * WHISKER_LEN, SCALE as int);
    if rx < 0 || rx > w || ry < 0 || ry > h || hits_circle(rocks, rx, ry) {
        SCALE as int
    } else {
        0
    }
}

/// The heard volume over the first `k` agent slots: every other agent
/// within the hearing radius contributes its voice, faded linearly
/// with distance.
pub open spec fn hearing_spec(
    positions: Seq<(i64, i64)>,
    voices: Seq<i64>,
    i: int,
    x: int,
    y: int,
    k: int,
) -> int
    decreases k,
{
    if k <= 0 {
        0
    } else {
        hearing_spec(positions, voices, i, x, y, k - 1) + hearing_term(
            positions,
            voices,
            i,
            x,
            y,
            k - 1,
        )
    }
}

pub open spec fn hearing_term(
    positions: Seq<(i64, i64)>,
    voices: Seq<i64>,
    i: int,
    x: int,
    y: int,
    j: int,
) -> int {
    if j != i && pt_dist(x, y, positions[j]) < HEARING_RADIUS {
        sdiv_spec(voices[j] * (HEARING_RADIUS - pt_dist(x, y, positions[j])), HEARING_RADIUS as int)
    } else {
        0
    }
}

/// The sum of the first `k` energies.
pub open spec fn sum_energy(s: Seq<i64>, k: int) -> int
    decreases k,
{
    if k <= 0 {
        0
    } else {
        sum_energy(s, k - 1) + s[k - 1]
    }
}

/// How many of the first `k` agents carry tribe tag `t`.
pub open spec fn count_tribe(s: Seq<u8>, t: int, k: int) -> int
    decreases k,
{
    if k <= 0 {
        0
    } else {
        count_tribe(s, t, k - 1) + if s[k - 1] == t {
            1int
        } else {
            0int
        }
    }
}

pub struct Simulation {
    pub positions: Vec<(i64, i64)>,
    pub angles: Vec<i64>,
    pub energies: Vec<i64>,
    pub brains: Vec<Brain>,
    pub tribes: Vec<u8>,
    pub voices: Vec<i64>,
    pub food: Vec<(i64, i64)>,
    pub predators: Vec<(i64, i64)>,
    pub rocks: Vec<(i64, i64, i64)>,
    pub mud: Vec<(i64, i64, i64)>,
    pub width: i64,
    pub height: i64,
    pub mutation_rate: i64,
    pub predator_speed: i64,
    pub reproduction_threshold: i64,
    pub view_x: i64,
    pub view_y: i64,
    pub zoom: i64,
    pub grid: SpatialGrid,
    pub rng: Rng,
}

/// The nearest-food scan an agent at slot `i` performs: index and
/// distance, ties to the earliest slot, the sentinel when nothing is
/// nearer.
pub open spec fn slot_food_scan(s: Simulation, i: int) -> (int, int) {
    scan_nearest(
        s.food@,
        s.positions@[i].0 as int,
        s.positions@[i].1 as int,
        SENSE_SENTINEL as int,
        s.food@.len() as int,
    )
}

/// The nearest-predator scan an agent at slot `i` performs.
pub open spec fn slot_pred_scan(s: Simulation, i: int) -> (int, int) {
    scan_nearest(
        s.predators@,
        s.positions@[i].0 as int,
        s.positions@[i].1 as int,
        SENSE_SENTINEL as int,
        s.predators@.len() as int,
    )
}

/// Whether the agent at slot `i` stands in a mud patch.
pub open spec fn slot_in_mud(s: Simulation, i: int) -> bool {
    hits_circle(s.mud@, s.positions@[i].0 as int, s.positions@[i].1 as int)
}

/// The eleven-entry sensing vector the agent at slot `i` assembles:
/// normalized food and predator distances and bearing sines, its energy,
/// the distance to the nearest other living agent, the three whiskers,
/// the heard volume and the mud flag.
pub open spec fn agent_inputs_spec(s: Simulation, i: int) -> Seq<i64> {
    let x = s.positions@[i].0 as int;
    let y = s.positions@[i].1 as int;
    let a = s.angles@[i] as int;
    let food = slot_food_scan(s, i);
    let pred = slot_pred_scan(s, i);
    let friend_d = scan_other_living(s.positions@, s.energies@, i, x, y, s.positions@.len() as int);
    let heard = hearing_spec(s.positions@, s.voices@, i, x, y, s.positions@.len() as int);
    seq![
        norm_dist_spec(food.1, s.width as int) as i64,
        (if food.1 < SENSE_SENTINEL {
            bearing_sin_spec(
                s.food@[food.0].0 - x,
                s.food@[food.0].1 - y,
                food.1,
                sin_approx(a),
                cos_approx(a),
            )
        } else {
            0
        }) as i64,
        norm_dist_spec(pred.1, s.width as int) as i64,
        (if pred.1 < SENSE_SENTINEL {
            bearing_sin_spec(
                s.predators@[pred.0].0 - x,
                s.predators@[pred.0].1 - y,
                pred.1,
                sin_approx(a),
                cos_approx(a),
            )
        } else {
            0
        }) as i64,
        clamp_spec(sdiv_spec(s.energies@[i] as int, 100), -(INPUT_LIMIT as int), INPUT_LIMIT as int) as i64,
        clamp_spec(sdiv_spec(friend_d, 200), 0, SCALE as int) as i64,
        whisker_spec(s.rocks@, x, y, s.width as int, s.height as int, norm_angle_spec(a - WHISKER_OFFSET)) as i64,
        whisker_spec(s.rocks@, x, y, s.width as int, s.height as int, a) as i64,
        whisker_spec(s.rocks@, x, y, s.width as int, s.height as int, norm_angle_spec(a + WHISKER_OFFSET)) as i64,
        clamp_spec(heard, 0, SCALE as int) as i64,
        (if slot_in_mud(s, i) {
            SCALE
        } else {
            0i64
        }),
    ]
}

/// Output `k` of the controller at slot `i` on this tick's sensing.
pub open spec fn slot_out(s: Simulation, i: int, k: int) -> int {
    output_spec(s.brains@[i], agent_inputs_spec(s, i), k)
}

/// The heading after this tick's turn, wrapped into one turn.
pub open spec fn slot_heading(s: Simulation, i: int) -> int {
    norm_angle_spec(s.angles@[i] + sdiv_spec(slot_out(s, i, 0) * TURN_SPEED, SCALE as int))
}

/// The voice level emitted this tick: the third output, floored at zero.
pub open spec fn slot_voice(s: Simulation, i: int) -> int {
    if slot_out(s, i, 2) > 0 {
        slot_out(s, i, 2)
    } else {
        0
    }
}

/// This tick's speed: throttle mapped from [-1, 1] to [0, 3], slowed to
/// three tenths in mud.
pub open spec fn slot_speed(s: Simulation, i: int) -> int {
    let sp = sdiv_spec((slot_out(s, i, 1) + SCALE) * AGENT_SPEED_MODIFIER, SCALE as int);
    if slot_in_mud(s, i) {
        sdiv_spec(sp * 300, SCALE as int)
    } else {
        sp
    }
}

/// The position after this tick's move: the candidate one speed-step
/// along the new heading, rejected wholesale when it lands inside a rock,
/// then clamped to the world bounds.
pub open spec fn slot_moved(s: Simulation, i: int) -> (i64, i64) {
    let x = s.positions@[i].0 as int;
    let y = s.positions@[i].1 as int;
    let nx = x + sdiv_spec(cos_approx(slot_heading(s, i)) * slot_speed(s, i), SCALE as int);
    let ny = y + sdiv_spec(sin_approx(slot_heading(s, i)) * slot_speed(s, i), SCALE as int);
    let kept = if hits_circle(s.rocks@, nx, ny) {
        (x, y)
    } else {
        (nx, ny)
    };
    (
        clamp_spec(kept.0, 0, s.width as int) as i64,
        clamp_spec(kept.1, 0, s.height as int) as i64,
    )
}

/// This tick's metabolic cost: speed times the move cost, tripled in
/// mud, plus a tenth of the voice level.
pub open spec fn slot_cost(s: Simulation, i: int) -> int {
    let base = sdiv_spec(slot_speed(s, i) * MOVE_COST, SCALE as int);
    (if slot_in_mud(s, i) {
        3 * base
    } else {
        base
    }) + sdiv_spec(slot_voice(s, i), 10)
}

/// The slot's energy after metabolism and feeding: the cost comes off,
/// and a meal within the eat radius adds the food energy, capped.
pub open spec fn slot_energy_fed(s: Simulation, i: int) -> int {
    let e1 = s.energies@[i] - slot_cost(s, i);
    if slot_food_scan(s, i).1 < EAT_RADIUS {
        if e1 + FOOD_ENERGY > ENERGY_CAP {
            ENERGY_CAP as int
        } else {
            e1 + FOOD_ENERGY
        }
    } else {
        e1
    }
}

/// The slot's energy after the predator encounter: within the kill
/// radius a warrior pays the battle cost, anyone else is marked dead.
pub open spec fn slot_energy_after(s: Simulation, i: int) -> int {
    let e2 = slot_energy_fed(s, i);
    if slot_pred_scan(s, i).1 < PREDATOR_KILL_RADIUS {
        if e2 > WARRIOR_THRESHOLD {
            e2 - BATTLE_COST
        } else {
            DEATH_SENTINEL as int
        }
    } else {
        e2
    }
}

/// Every parameter of a bred child lies within the mutation range of the
/// corresponding parameter of one of its two parents.
pub open spec fn bred_brain_rel(a: Brain, b: Brain, c: Brain, rate: i64) -> bool {
    &&& c.wf()
    &&& forall|k: int|
        0 <= k < INPUT_WEIGHTS ==> ((a.weights_input@[k] - rate <= #[trigger] c.weights_input@[k]
            <= a.weights_input@[k] + rate) || (b.weights_input@[k] - rate <= c.weights_input@[k]
            <= b.weights_input@[k] + rate))
    &&& forall|k: int|
        0 <= k < OUTPUT_WEIGHTS ==> ((a.weights_output@[k] - rate
            <= #[trigger] c.weights_output@[k] <= a.weights_output@[k] + rate) || (
        b.weights_output@[k] - rate <= c.weights_output@[k] <= b.weights_output@[k] + rate))
    &&& forall|k: int|
        0 <= k < BIAS_COUNT ==> ((a.biases@[k] - rate <= #[trigger] c.biases@[k] <= a.biases@[k]
            + rate) || (b.biases@[k] - rate <= c.biases@[k] <= b.biases@[k] + rate))
}

/// A spawn coordinate: a parent coordinate plus a jitter, clamped into
/// the world extent on that axis.
pub open spec fn jittered(parent: int, jitter: int, limit: int) -> i64 {
    clamp_spec(parent + jitter, 0, limit) as i64
}

/// How a dead slot is reborn, up to the values of the random draws.
/// Either two distinct tournament-selected parents exist — both other
/// slots, both alive in the tournament's sense and both strictly above
/// the reproduction threshold — and the slot takes a bred controller,
/// the first parent's tribe, a spawn beside that parent clamped into the
/// world and the offspring energy while each parent pays the birth cost;
/// or the slot restarts fresh: a new random controller within the
/// initial weight range, a random in-world position, full starting
/// energy and a silent voice. When no qualifying pair of parents exists
/// the fresh branch is forced.
pub open spec fn rebirth_rel(pre: Simulation, post: Simulation, i: int) -> bool {
    let n = pre.positions@.len() as int;
    let t = pre.reproduction_threshold;
    ||| (exists|p1: int, p2: int|
        {
            &&& 0 <= p1 < n && 0 <= p2 < n
            &&& p1 != i && p2 != i && p1 != p2
            &&& #[trigger] pre.energies@[p1] > t && #[trigger] pre.energies@[p2] > t
            &&& pre.energies@[p1] > -SCALE && pre.energies@[p2] > -SCALE
            &&& post.tribes@ == pre.tribes@.update(i, pre.tribes@[p1])
            &&& (exists|jx: int, jy: int|
                #![trigger jittered(pre.positions@[p1].0 as int, jx, pre.width as int), jittered(pre.positions@[p1].1 as int, jy, pre.height as int)]
                -5000 <= jx <= 5000 && -5000 <= jy <= 5000 && post.positions@
                    == pre.positions@.update(
                    i,
                    (
                        jittered(pre.positions@[p1].0 as int, jx, pre.width as int),
                        jittered(pre.positions@[p1].1 as int, jy, pre.height as int),
                    ),
                ))
            &&& post.energies@ == pre.energies@.update(i, OFFSPRING_ENERGY).update(
                p1,
                (pre.energies@[p1] - PARENT_COST) as i64,
            ).update(p2, (pre.energies@[p2] - PARENT_COST) as i64)
            &&& post.voices@ == pre.voices@.update(i, slot_voice(pre, i) as i64)
            &&& bred_brain_rel(
                pre.brains@[p1],
                pre.brains@[p2],
                post.brains@[i],
                pre.mutation_rate,
            )
        }) || (
    {
        &&& post.tribes@ == pre.tribes@
        &&& post.energies@ == pre.energies@.update(i, STARTING_ENERGY)
        &&& post.voices@ == pre.voices@.update(i, 0i64)
        &&& pt_in_world(post.positions@[i], pre.width, pre.height)
        &&& post.positions@ == pre.positions@.update(i, post.positions@[i])
        &&& post.brains@[i].wf()
        &&& all_bounded(post.brains@[i].weights_input@, SCALE)
        &&& all_bounded(post.brains@[i].weights_output@, SCALE)
        &&& all_bounded(post.brains@[i].biases@, SCALE)
    })
}

/// What one slot's pass of the agent phase does to the world, up to the
/// values of the random draws: the heading turns and wraps; when the
/// slot's energy after metabolism, feeding and the predator encounter
/// stays positive it keeps its moved position, its new voice and its
/// energy, with its controller parameters untouched; otherwise it is
/// reborn as `rebirth_rel` says. A meal relocates exactly the eaten food
/// entry to a fresh in-world point; a warrior's victory relocates
/// exactly the defeated predator; nothing else in the world changes.
pub open spec fn agent_slot_rel(pre: Simulation, post: Simulation, i: int) -> bool {
    &&& post.width == pre.width
    &&& post.height == pre.height
    &&& post.mutation_rate == pre.mutation_rate
    &&& post.predator_speed == pre.predator_speed
    &&& post.reproduction_threshold == pre.reproduction_threshold
    &&& post.view_x == pre.view_x
    &&& post.view_y == pre.view_y
    &&& post.zoom == pre.zoom
    &&& post.grid == pre.grid
    &&& post.rocks@ == pre.rocks@
    &&& post.mud@ == pre.mud@
    &&& post.angles@ == pre.angles@.update(i, slot_heading(pre, i) as i64)
    &&& post.brains@.len() == pre.brains@.len()
    &&& forall|j: int|
        0 <= j < pre.brains@.len() && j != i ==> post.brains@[j] == pre.brains@[j]
    &&& (if slot_food_scan(pre, i).1 < EAT_RADIUS {
        exists|p: (i64, i64)|
            pt_in_world(p, pre.width, pre.height) && post.food@ == pre.food@.update(
                #[trigger] slot_food_scan(pre, i).0,
                p,
            )
    } else {
        post.food@ == pre.food@
    })
    &&& (if slot_pred_scan(pre, i).1 < PREDATOR_KILL_RADIUS && slot_energy_fed(pre, i)
        > WARRIOR_THRESHOLD {
        exists|p: (i64, i64)|
            pt_in_world(p, pre.width, pre.height) && post.predators@ == pre.predators@.update(
                #[trigger] slot_pred_scan(pre, i).0,
                p,
            )
    } else {
        post.predators@ == pre.predators@
    })
    &&& (if slot_energy_after(pre, i) > 0 {
        &&& post.energies@ == pre.energies@.update(i, slot_energy_after(pre, i) as i64)
        &&& post.positions@ == pre.positions@.update(i, slot_moved(pre, i))
        &&& post.voices@ == pre.voices@.update(i, slot_voice(pre, i) as i64)
        &&& post.tribes@ == pre.tribes@
        &&& post.brains@[i].weights_input@ == pre.brains@[i].weights_input@
        &&& post.brains@[i].weights_output@ == pre.brains@[i].weights_output@
        &&& post.brains@[i].biases@ == pre.brains@[i].biases@
    } else {
        rebirth_rel(pre, post, i)
    })
}

impl Simulation {
    /// Well-formed world state: the agent attribute arrays agree in
    /// length, every stored quantity sits in its documented range, and
    /// the index and the generator are in shape. Constructors establish
    /// it and every method preserves it.
    pub open spec fn wf(&self) -> bool {
        &&& self.angles@.len() == self.positions@.len()
        &&& self.energies@.len() == self.positions@.len()
        &&& self.brains@.len() == self.positions@.len()
        &&& self.tribes@.len() == self.positions@.len()
        &&& self.voices@.len() == self.positions@.len()
        &&& self.positions@.len() <= MAX_AGENTS
        &&& self.predators@.len() <= MAX_PREDATORS
        &&& self.food@.len() <= MAX_FOOD
        &&& self.rocks@.len() <= MAX_TERRAIN
        &&& self.mud@.len() <= MAX_TERRAIN
        &&& 0 <= self.width <= MAX_COORD
        &&& 0 <= self.height <= MAX_COORD
        &&& all_pts_bounded(self.positions@)
        &&& all_pts_bounded(self.food@)
        &&& all_pts_bounded(self.predators@)
        &&& all_circles_bounded(self.rocks@)
        &&& all_circles_bounded(self.mud@)
        &&& forall|k: int| 0 <= k < self.brains@.len() ==> (#[trigger] self.brains@[k]).wf()
        &&& forall|k: int|
            0 <= k < self.angles@.len() ==> 0 <= #[trigger] self.angles@[k] < TWO_PI_MILLI
        &&& forall|k: int|
            0 <= k < self.energies@.len() ==> -MAX_ENERGY_ABS <= #[trigger] self.energies@[k]
                <= ENERGY_CAP
        &&& forall|k: int| 0 <= k < self.voices@.len() ==> 0 <= #[trigger] self.voices@[k] <= SCALE
        &&& forall|k: int| 0 <= k < self.tribes@.len() ==> #[trigger] self.tribes@[k] < TRIBE_COUNT
        &&& 0 <= self.mutation_rate <= MAX_RATE
        &&& 0 <= self.predator_speed <= MAX_PREDATOR_SPEED
        &&& -MAX_THRESHOLD_ABS <= self.reproduction_threshold <= MAX_THRESHOLD_ABS
        &&& ZOOM_MIN <= self.zoom <= ZOOM_MAX
        &&& -VIEW_LIMIT <= self.view_x <= VIEW_LIMIT
        &&& -VIEW_LIMIT <= self.view_y <= VIEW_LIMIT
        &&& self.grid.wf()
    }

    /// A world with the given extent and seed and no entities: the
    /// starting point of the builder methods below.
    pub fn empty(width: i64, height: i64, seed: u64) -> (sim: Simulation)
        requires
            0 <= width <= MAX_COORD,
            0 <= height <= MAX_COORD,
        ensures
            sim.wf(),
            sim.positions@.len() == 0,
            sim.food@.len() == 0,
            sim.predators@.len() == 0,
            sim.rocks@.len() == 0,
            sim.mud@.len() == 0,
            sim.width == width,
            sim.height == height,
            sim.mutation_rate == BASE_MUTATION_RATE,
            sim.predator_speed == DEFAULT_PREDATOR_SPEED,
            sim.reproduction_threshold == DEFAULT_REPRODUCTION_THRESHOLD,
            sim.view_x == 0,
            sim.view_y == 0,
            sim.zoom == SCALE,
            sim.rng.state == seed,
    {
        proof {
            vstd::arithmetic::div_mod::lemma_div_is_ordered(
                width + GRID_CELL_SIZE - 1,
                MAX_COORD + GRID_CELL_SIZE - 1,
                GRID_CELL_SIZE as int,
            );
            vstd::arithmetic::div_mod::lemma_div_is_ordered(
                height + GRID_CELL_SIZE - 1,
                MAX_COORD + GRID_CELL_SIZE - 1,
                GRID_CELL_SIZE as int,
            );
            vstd::arithmetic::div_mod::lemma_div_pos_is_pos(
                width + GRID_CELL_SIZE - 1,
                GRID_CELL_SIZE as int,
            );
            vstd::arithmetic::div_mod::lemma_div_pos_is_pos(
                height + GRID_CELL_SIZE - 1,
                GRID_CELL_SIZE as int,
            );
            assert((100_099_999int) / 100_000int == 1000);
            assert(((width + GRID_CELL_SIZE - 1) as int / (GRID_CELL_SIZE as int)) * ((height
                + GRID_CELL_SIZE - 1) as int / (GRID_CELL_SIZE as int)) <= MAX_GRID_CELLS)
                by (nonlinear_arith)
                requires
                    0 <= (width + GRID_CELL_SIZE - 1) as int / (GRID_CELL_SIZE as int) <= 1000,
                    0 <= (height + GRID_CELL_SIZE - 1) as int / (GRID_CELL_SIZE as int) <= 1000,
            ;
        }
        let grid = SpatialGrid::new(width, height, GRID_CELL_SIZE);
        Simulation {
            positions: Vec::new(),
            angles: Vec::new(),
            energies: Vec::new(),
            brains: Vec::new(),
            tribes: Vec::new(),
            voices: Vec::new(),
            food: Vec::new(),
            predators: Vec::new(),
            rocks: Vec::new(),
            mud: Vec::new(),
            width,
            height,
            mutation_rate: BASE_MUTATION_RATE,
            predator_speed: DEFAULT_PREDATOR_SPEED,
            reproduction_threshold: DEFAULT_REPRODUCTION_THRESHOLD,
            view_x: 0,
            view_y: 0,
            zoom: SCALE,
            grid,
            rng: Rng::new(seed),
        }
    }

    /// Append an agent with the given state.
    pub fn add_agent(&mut self, x: i64, y: i64, angle: i64, energy: i64, tribe: u8, brain: Brain)
        requires
            old(self).wf(),
            old(self).positions@.len() < MAX_AGENTS,
            0 <= x <= old(self).width,
            0 <= y <= old(self).height,
            0 <= angle < TWO_PI_MILLI,
            DEATH_SENTINEL <= energy <= ENERGY_CAP,
            tribe < TRIBE_COUNT,
            brain.wf(),
        ensures
            final(self).wf(),
            final(self).positions@ == old(self).positions@.push((x, y)),
            final(self).angles@ == old(self).angles@.push(angle),
            final(self).energies@ == old(self).energies@.push(energy),
            final(self).tribes@ == old(self).tribes@.push(tribe),
            final(self).voices@ == old(self).voices@.push(0i64),
            final(self).brains@ == old(self).brains@.push(brain),
            *final(self) == (Simulation {
                positions: final(self).positions,
                angles: final(self).angles,
                energies: final(self).energies,
                brains: final(self).brains,
                tribes: final(self).tribes,
                voices: final(self).voices,
                ..*old(self)
            }),
    {
        self.positions.push((x, y));
        self.angles.push(angle);
        self.energies.push(energy);
        self.brains.push(brain);
        self.tribes.push(tribe);
        self.voices.push(0);
    }

    /// Append a food item.
    pub fn add_food(&mut self, x: i64, y: i64)
        requires
            old(self).wf(),
            old(self).food@.len() < MAX_FOOD,
            0 <= x <= old(self).width,
            0 <= y <= old(self).height,
        ensures
            final(self).wf(),
            final(self).food@ == old(self).food@.push((x, y)),
            *final(self) == (Simulation { food: final(self).food, ..*old(self) }),
    {
        self.food.push((x, y));
    }

    /// Append a predator.
    pub fn add_predator(&mut self, x: i64, y: i64)
        requires
            old(self).wf(),
            old(self).predators@.len() < MAX_PREDATORS,
            0 <= x <= old(self).width,
            0 <= y <= old(self).height,
        ensures
            final(self).wf(),
            final(self).predators@ == old(self).predators@.push((x, y)),
            *final(self) == (Simulation { predators: final(self).predators, ..*old(self) }),
    {
        self.predators.push((x, y));
    }

    /// Append a rock obstacle (hard collision).
    pub fn add_rock(&mut self, x: i64, y: i64, radius: i64)
        requires
            old(self).wf(),
            old(self).rocks@.len() < MAX_TERRAIN,
            0 <= x <= old(self).width,
            0 <= y <= old(self).height,
            0 <= radius <= MAX_COORD,
        ensures
            final(self).wf(),
            final(self).rocks@ == old(self).rocks@.push((x, y, radius)),
            *final(self) == (Simulation { rocks: final(self).rocks, ..*old(self) }),
    {
        self.rocks.push((x, y, radius));
    }

    /// Append a mud patch (soft speed and cost penalty).
    pub fn add_mud(&mut self, x: i64, y: i64, radius: i64)
        requires
            old(self).wf(),
            old(self).mud@.len() < MAX_TERRAIN,
            0 <= x <= old(self).width,
            0 <= y <= old(self).height,
            0 <= radius <= MAX_COORD,
        ensures
            final(self).wf(),
            final(self).mud@ == old(self).mud@.push((x, y, radius)),
            *final(self) == (Simulation { mud: final(self).mud, ..*old(self) }),
    {
        self.mud.push((x, y, radius));
    }

    pub fn set_mutation_rate(&mut self, rate: i64)
        requires
            old(self).wf(),
            0 <= rate <= MAX_RATE,
        ensures
            final(self).wf(),
            *final(self) == (Simulation { mutation_rate: rate, ..*old(self) }),
    {
        self.mutation_rate = rate;
    }

    pub fn set_predator_speed(&mut self, speed: i64)
        requires
            old(self).wf(),
            0 <= speed <= MAX_PREDATOR_SPEED,
        ensures
            final(self).wf(),
            *final(self) == (Simulation { predator_speed: speed, ..*old(self) }),
    {
        self.predator_speed = speed;
    }

    pub fn set_reproduction_threshold(&mut self, val: i64)
        requires
            old(self).wf(),
            -MAX_THRESHOLD_ABS <= val <= MAX_THRESHOLD_ABS,
        ensures
            final(self).wf(),
            *final(self) == (Simulation { reproduction_threshold: val, ..*old(self) }),
    {
        self.reproduction_threshold = val;
    }

    pub fn resize(&mut self, width: i64, height: i64)
        requires
            old(self).wf(),
            0 <= width <= MAX_COORD,
            0 <= height <= MAX_COORD,
        ensures
            final(self).wf(),
            *final(self) == (Simulation { width, height, ..*old(self) }),
    {
        self.width = width;
        self.height = height;
    }

    /// Shift the view by a screen offset, divided by the zoom; the view
    /// coordinates saturate at the view limit.
    pub fn pan(&mut self, dx: i64, dy: i64)
        requires
            old(self).wf(),
            -1_000_000_000 <= dx <= 1_000_000_000,
            -1_000_000_000 <= dy <= 1_000_000_000,
        ensures
            final(self).wf(),
            final(self).view_x == clamp_spec(
                old(self).view_x + sdiv_spec(dx * SCALE, old(self).zoom as int),
                -VIEW_LIMIT as int,
                VIEW_LIMIT as int,
            ),
            final(self).view_y == clamp_spec(
                old(self).view_y + sdiv_spec(dy * SCALE, old(self).zoom as int),
                -VIEW_LIMIT as int,
                VIEW_LIMIT as int,
            ),
            *final(self) == (Simulation {
                view_x: final(self).view_x,
                view_y: final(self).view_y,
                ..*old(self)
            }),
    {
        let sx = sdiv(dx * SCALE, self.zoom);
        let sy = sdiv(dy * SCALE, self.zoom);
        self.view_x = clamp_i64(self.view_x + sx, -VIEW_LIMIT, VIEW_LIMIT);
        self.view_y = clamp_i64(self.view_y + sy, -VIEW_LIMIT, VIEW_LIMIT);
    }

    /// Scale the zoom by a factor, clamped into [0.1, 5.0].
    pub fn zoom_at(&mut self, factor: i64)
        requires
            old(self).wf(),
            -1_000_000_000 <= factor <= 1_000_000_000,
        ensures
            final(self).wf(),
            final(self).zoom == clamp_spec(
                sdiv_spec(old(self).zoom * factor, SCALE as int),
                ZOOM_MIN as int,
                ZOOM_MAX as int,
            ),
            *final(self) == (Simulation { zoom: final(self).zoom, ..*old(self) }),
    {
        let z = self.zoom;
        proof {
            assert(-5_000_000_000_000int <= (z as int) * (factor as int)
                <= 5_000_000_000_000int) by (nonlinear_arith)
                requires
                    100 <= z as int <= 5000,
                    -1_000_000_000 <= factor as int <= 1_000_000_000,
            ;
        }
        self.zoom = clamp_i64(sdiv(z * factor, SCALE), ZOOM_MIN, ZOOM_MAX);
    }

    /// The truncated mean of all agents' energy; zero for an empty
    /// population.
    pub fn get_avg_energy(&self) -> (avg: i64)
        requires
            self.wf(),
        ensures
            self.energies@.len() == 0 ==> avg == 0,
            self.energies@.len() > 0 ==> avg == sdiv_spec(
                sum_energy(self.energies@, self.energies@.len() as int),
                self.energies@.len() as int,
            ),
    {
        let n = self.energies.len();
        if n == 0 {
            return 0;
        }
        let mut sum: i64 = 0;
        for k in 0..n
            invariant
                sum == sum_energy(self.energies@, k as int),
                -(k as int) * MAX_ENERGY_ABS <= sum <= (k as int) * MAX_ENERGY_ABS,
                n == self.energies@.len(),
                self.wf(),
        {
            proof {
                assert((k as int) * (MAX_ENERGY_ABS as int) + MAX_ENERGY_ABS == ((k as int) + 1) * (
                MAX_ENERGY_ABS as int)) by (nonlinear_arith);
                assert(((k as int) + 1) * (MAX_ENERGY_ABS as int) <= 100_000int * (
                MAX_ENERGY_ABS as int)) by (nonlinear_arith)
                    requires
                        (k as int) + 1 <= 100_000,
                ;
            }
            sum = sum + self.energies[k];
        }
        proof {
            assert((n as int) * (MAX_ENERGY_ABS as int) <= 100_000int * (MAX_ENERGY_ABS as int))
                by (nonlinear_arith)
                requires
                    n as int <= 100_000,
            ;
        }
        sdiv(sum, n as i64)
    }

    /// The population count of each of the four tribes.
    pub fn get_tribe_stats(&self) -> (stats: Vec<i32>)
        requires
            self.wf(),
        ensures
            stats@.len() == TRIBE_COUNT,
            forall|t: int|
                0 <= t < TRIBE_COUNT ==> #[trigger] stats@[t] == count_tribe(
                    self.tribes@,
                    t,
                    self.tribes@.len() as int,
                ),
    {
        let n = self.tribes.len();
        let mut c0: i32 = 0;
        let mut c1: i32 = 0;
        let mut c2: i32 = 0;
        let mut c3: i32 = 0;
        for k in 0..n
            invariant
                n == self.tribes@.len(),
                n <= MAX_AGENTS,
                c0 == count_tribe(self.tribes@, 0, k as int),
                c1 == count_tribe(self.tribes@, 1, k as int),
                c2 == count_tribe(self.tribes@, 2, k as int),
                c3 == count_tribe(self.tribes@, 3, k as int),
                0 <= c0 <= k,
                0 <= c1 <= k,
                0 <= c2 <= k,
                0 <= c3 <= k,
        {
            let t = self.tribes[k];
            if t == 0 {
                c0 = c0 + 1;
            } else if t == 1 {
                c1 = c1 + 1;
            } else if t == 2 {
                c2 = c2 + 1;
            } else if t == 3 {
                c3 = c3 + 1;
            }
        }
        let mut stats: Vec<i32> = Vec::new();
        stats.push(c0);
        stats.push(c1);
        stats.push(c2);
        stats.push(c3);
        stats
    }

    /// Replace the food supply's size: grow by appending uniformly random
    /// in-bounds positions, shrink by dropping the tail.
    pub fn set_food_count(&mut self, count: usize)
        requires
            old(self).wf(),
            count <= MAX_FOOD,
        ensures
            final(self).wf(),
            final(self).food@.len() == count,
            forall|k: int|
                0 <= k < count && k < old(self).food@.len() ==> final(self).food@[k] == old(
                    self,
                ).food@[k],
            forall|k: int|
                old(self).food@.len() <= k < count ==> pt_in_world(
                    #[trigger] final(self).food@[k],
                    old(self).width,
                    old(self).height,
                ),
            final(self).positions@ == old(self).positions@,
            final(self).energies@ == old(self).energies@,
            final(self).predators@ == old(self).predators@,
            final(self).width == old(self).width,
            final(self).height == old(self).height,
            *final(self) == (Simulation {
                food: final(self).food,
                rng: final(self).rng,
                ..*old(self)
            }),
    {
        let current = self.food.len();
        if count > current {
            let ghost food0 = self.food@;
            for _j in 0..count - current
                invariant
                    self.wf(),
                    self.food@.len() == current + _j,
                    self.food@.len() <= count,
                    count <= MAX_FOOD,
                    forall|k: int| 0 <= k < current ==> self.food@[k] == food0[k],
                    forall|k: int|
                        current <= k < self.food@.len() ==> pt_in_world(
                            #[trigger] self.food@[k],
                            self.width,
                            self.height,
                        ),
                    *self == (Simulation { food: self.food, rng: self.rng, ..*old(self) }),
            {
                let fx = rand_coord(&mut self.rng, self.width);
                let fy = rand_coord(&mut self.rng, self.height);
                self.food.push((fx, fy));
            }
        } else if count < current {
            self.food.truncate(count);
            proof {
                assert(self.food@ =~= old(self).food@.subrange(0, count as int));
            }
        }
    }
}


/// The index of the nearest point and its distance: ties go to the
/// earliest index, and a point at or beyond the sentinel never wins.
#[verifier::loop_isolation(false)]
fn nearest_point(points: &Vec<(i64, i64)>, x: i64, y: i64, sentinel: i64) -> (res: (usize, i64))
    requires
        all_pts_bounded(points@),
        0 <= x <= MAX_COORD,
        0 <= y <= MAX_COORD,
        0 < sentinel <= 1_000_000_000,
    ensures
        res.0 as int == scan_nearest(points@, x as int, y as int, sentinel as int, points@.len() as int).0,
        res.1 as int == scan_nearest(points@, x as int, y as int, sentinel as int, points@.len() as int).1,
        0 <= res.1 <= sentinel,
        res.1 == sentinel ==> res.0 == 0,
        res.1 < sentinel ==> res.0 < points@.len() && res.1 == pt_dist(
            x as int,
            y as int,
            points@[res.0 as int],
        ),
        forall|k: int|
            0 <= k < points@.len() ==> #[trigger] pt_dist(x as int, y as int, points@[k])
                >= res.1,
        forall|k: int|
            0 <= k < res.0 ==> #[trigger] pt_dist(x as int, y as int, points@[k]) > res.1,
{
    let n = points.len();
    let mut best: i64 = sentinel;
    let mut bi: usize = 0;
    for k in 0..n
        invariant
            bi as int == scan_nearest(points@, x as int, y as int, sentinel as int, k as int).0,
            best as int == scan_nearest(points@, x as int, y as int, sentinel as int, k as int).1,
            0 <= best <= sentinel,
            best == sentinel ==> bi == 0,
            best < sentinel ==> bi < k && best == pt_dist(x as int, y as int, points@[bi as int]),
            forall|j: int|
                0 <= j < k ==> #[trigger] pt_dist(x as int, y as int, points@[j]) >= best,
            forall|j: int| 0 <= j < bi ==> #[trigger] pt_dist(x as int, y as int, points@[j]) > best,
    {
        let p = points[k];
        let d = dist_milli(x, y, p.0, p.1);
        if d < best {
            best = d;
            bi = k;
        }
    }
    (bi, best)
}

/// The nearest living agent (energy strictly positive) to `(x, y)`, for
/// the predator phase; dead slots are invisible.
#[verifier::loop_isolation(false)]
fn nearest_living(
    positions: &Vec<(i64, i64)>,
    energies: &Vec<i64>,
    x: i64,
    y: i64,
) -> (res: (usize, i64))
    requires
        all_pts_bounded(positions@),
        energies@.len() == positions@.len(),
        0 <= x <= MAX_COORD,
        0 <= y <= MAX_COORD,
    ensures
        0 <= res.1 <= PREDATOR_SCAN_SENTINEL,
        res.1 == PREDATOR_SCAN_SENTINEL ==> res.0 == 0,
        res.1 < PREDATOR_SCAN_SENTINEL ==> res.0 < positions@.len() && energies@[res.0 as int] > 0
            && res.1 == pt_dist(x as int, y as int, positions@[res.0 as int]),
        forall|k: int|
            0 <= k < positions@.len() && energies@[k] > 0 ==> #[trigger] pt_dist(
                x as int,
                y as int,
                positions@[k],
            ) >= res.1,
{
    let n = positions.len();
    let mut best: i64 = PREDATOR_SCAN_SENTINEL;
    let mut bi: usize = 0;
    for k in 0..n
        invariant
            0 <= best <= PREDATOR_SCAN_SENTINEL,
            best == PREDATOR_SCAN_SENTINEL ==> bi == 0,
            best < PREDATOR_SCAN_SENTINEL ==> bi < k && energies@[bi as int] > 0 && best == pt_dist(
                x as int,
                y as int,
                positions@[bi as int],
            ),
            forall|j: int|
                0 <= j < k && energies@[j] > 0 ==> #[trigger] pt_dist(
                    x as int,
                    y as int,
                    positions@[j],
                ) >= best,
    {
        if energies[k] > 0 {
            let p = positions[k];
            let d = dist_milli(x, y, p.0, p.1);
            if d < best {
                best = d;
                bi = k;
            }
        }
    }
    (bi, best)
}

/// The distance to the nearest other living agent, and the total heard
/// volume: the voices of the other agents within the hearing radius,
/// faded with distance.
#[verifier::loop_isolation(false)]
fn friend_sense(
    positions: &Vec<(i64, i64)>,
    energies: &Vec<i64>,
    voices: &Vec<i64>,
    i: usize,
    x: i64,
    y: i64,
) -> (res: (i64, i64))
    requires
        all_pts_bounded(positions@),
        energies@.len() == positions@.len(),
        voices@.len() == positions@.len(),
        positions@.len() <= MAX_AGENTS,
        all_bounded(voices@, SCALE),
        forall|k: int| 0 <= k < voices@.len() ==> 0 <= #[trigger] voices@[k],
        0 <= x <= MAX_COORD,
        0 <= y <= MAX_COORD,
    ensures
        res.0 as int == scan_other_living(
            positions@,
            energies@,
            i as int,
            x as int,
            y as int,
            positions@.len() as int,
        ),
        0 <= res.0 <= SENSE_SENTINEL,
        res.1 == hearing_spec(
            positions@,
            voices@,
            i as int,
            x as int,
            y as int,
            positions@.len() as int,
        ),
        0 <= res.1 <= 1000 * positions@.len(),
{
    let n = positions.len();
    let mut best: i64 = SENSE_SENTINEL;
    let mut vol: i64 = 0;
    for j in 0..n
        invariant
            best as int == scan_other_living(
                positions@,
                energies@,
                i as int,
                x as int,
                y as int,
                j as int,
            ),
            0 <= best <= SENSE_SENTINEL,
            vol == hearing_spec(positions@, voices@, i as int, x as int, y as int, j as int),
            0 <= vol <= 1000 * (j as int),
    {
        if j != i {
            let p = positions[j];
            let d = dist_milli(x, y, p.0, p.1);
            if energies[j] > 0 && d < best {
                best = d;
            }
            if d < HEARING_RADIUS {
                let v = voices[j];
                proof {
                    assert(0 <= (v as int) * ((HEARING_RADIUS as int) - (d as int))
                        <= 1000 * (HEARING_RADIUS as int)) by (nonlinear_arith)
                        requires
                            0 <= v as int <= 1000,
                            0 < (HEARING_RADIUS as int) - (d as int) <= HEARING_RADIUS as int,
                    ;
                    lemma_sdiv_bound(
                        (v as int) * ((HEARING_RADIUS as int) - (d as int)),
                        HEARING_RADIUS as int,
                        1000,
                    );
                }
                let term = sdiv(v * (HEARING_RADIUS - d), HEARING_RADIUS);
                vol = vol + term;
            }
            proof {
                assert((1000int) * ((j as int) + 1) == 1000 * (j as int) + 1000)
                    by (nonlinear_arith);
            }
        }
    }
    (best, vol)
}

/// The normalized distance input for the controller.
fn norm_dist_input(d: i64, width: i64) -> (r: i64)
    requires
        0 <= d <= 3_000_000_000,
        0 <= width <= MAX_COORD,
    ensures
        r == norm_dist_spec(d as int, width as int),
        0 <= r <= SCALE,
{
    if width == 0 {
        SCALE
    } else {
        clamp_i64(sdiv(d * SCALE, width), 0, SCALE)
    }
}

/// One whisker reading: the world edge or a rock within the ray's reach.
fn whisker(rocks: &Vec<(i64, i64, i64)>, x: i64, y: i64, w: i64, h: i64, ang: i64) -> (r: i64)
    requires
        all_circles_bounded(rocks@),
        0 <= x <= MAX_COORD,
        0 <= y <= MAX_COORD,
        0 <= w <= MAX_COORD,
        0 <= h <= MAX_COORD,
        0 <= ang < TWO_PI_MILLI,
    ensures
        r == whisker_spec(rocks@, x as int, y as int, w as int, h as int, ang as int),
        r == 0 || r == SCALE,
{
    let c = cos_fp(ang);
    let s = sin_fp(ang);
    proof {
        assert(-49_950_000 <= (c as int) * (WHISKER_LEN as int) <= 49_950_000)
            by (nonlinear_arith)
            requires
                -999 <= c as int <= 999,
        ;
        assert(-49_950_000 <= (s as int) * (WHISKER_LEN as int) <= 49_950_000)
            by (nonlinear_arith)
            requires
                -999 <= s as int <= 999,
        ;
    }
    let rx = x + sdiv(c * WHISKER_LEN, SCALE);
    let ry = y + sdiv(s * WHISKER_LEN, SCALE);
    if rx < 0 || rx > w || ry < 0 || ry > h {
        SCALE
    } else if point_in_circles(rocks, rx, ry) {
        SCALE
    } else {
        0
    }
}

/// One five-draw tournament over the agent slots: the highest-energy
/// drawn candidate that is neither excluded slot wins; when no draw
/// qualifies the result is slot zero with the initial floor energy.
fn tournament(energies: &Vec<i64>, ex1: usize, ex2: usize, rng: &mut Rng) -> (res: (usize, i64))
    requires
        1 <= energies@.len() <= MAX_AGENTS,
    ensures
        res.0 < energies@.len(),
        (res.0 == 0 && res.1 == -SCALE) || (res.0 != ex1 && res.0 != ex2 && res.1 == energies@[
            res.0 as int
        ] && res.1 > -SCALE),
{
    let n = energies.len();
    let mut best: i64 = -SCALE;
    let mut bi: usize = 0;
    for _t in 0..TOURNAMENT_SIZE
        invariant
            n == energies@.len(),
            1 <= n <= MAX_AGENTS,
            bi < n,
            (bi == 0 && best == -SCALE) || (bi != ex1 && bi != ex2 && best == energies@[bi as int]
                && best > -SCALE),
    {
        let r = rng.below_i64(n as i64) as usize;
        if r != ex1 && r != ex2 && energies[r] > best {
            best = energies[r];
            bi = r;
        }
    }
    (bi, best)
}

/// One predator's move: step toward the nearest living agent, push away
/// from crowding predators, stay in place rather than enter a rock, and
/// clamp to the world bounds.
#[verifier::loop_isolation(false)]
fn update_predator(
    predators: &mut Vec<(i64, i64)>,
    i: usize,
    positions: &Vec<(i64, i64)>,
    energies: &Vec<i64>,
    rocks: &Vec<(i64, i64, i64)>,
    speed: i64,
    width: i64,
    height: i64,
)
    requires
        i < old(predators)@.len(),
        old(predators)@.len() <= MAX_PREDATORS,
        all_pts_bounded(old(predators)@),
        all_pts_bounded(positions@),
        energies@.len() == positions@.len(),
        all_circles_bounded(rocks@),
        0 <= speed <= MAX_PREDATOR_SPEED,
        0 <= width <= MAX_COORD,
        0 <= height <= MAX_COORD,
    ensures
        final(predators)@.len() == old(predators)@.len(),
        forall|k: int|
            0 <= k < old(predators)@.len() && k != i ==> final(predators)@[k] == old(
                predators,
            )@[k],
        pt_in_world(final(predators)@[i as int], width, height),
        pt_bounded(final(predators)@[i as int]),
{
    let (px, py) = predators[i];
    let (t_idx, t_dist) = nearest_living(positions, energies, px, py);
    let (tx, ty) = if t_dist < PREDATOR_SCAN_SENTINEL {
        positions[t_idx]
    } else {
        (px, py)
    };
    let mut dx = tx - px;
    let mut dy = ty - py;
    let d = dist_milli(px, py, tx, ty);
    if d > 0 {
        proof {
            crate::fixed::lemma_leg_le_dist(
                (tx as int) - (px as int),
                (ty as int) - (py as int),
                d as int,
            );
            assert(-((speed as int) * (d as int)) <= (dx as int) * (speed as int) <= (
            speed as int) * (d as int)) by (nonlinear_arith)
                requires
                    -(d as int) <= dx as int <= d as int,
                    0 <= speed as int,
            ;
            assert(-((speed as int) * (d as int)) <= (dy as int) * (speed as int) <= (
            speed as int) * (d as int)) by (nonlinear_arith)
                requires
                    -(d as int) <= dy as int <= d as int,
                    0 <= speed as int,
            ;
            lemma_sdiv_bound((dx as int) * (speed as int), d as int, speed as int);
            lemma_sdiv_bound((dy as int) * (speed as int), d as int, speed as int);
            assert((speed as int) * (d as int) <= 300_000_000_000_000_000int) by (nonlinear_arith)
                requires
                    0 <= speed as int <= 100_000_000,
                    0 <= d as int <= 3_000_000_000,
            ;
        }
        dx = sdiv(dx * speed, d);
        dy = sdiv(dy * speed, d);
    } else {
        dx = 0;
        dy = 0;
    }
    let np = predators.len();
    for k in 0..np
        invariant
            predators@ == old(predators)@,
            -(speed as int) - 800 * (k as int) <= dx as int <= (speed as int) + 800 * (k as int),
            -(speed as int) - 800 * (k as int) <= dy as int <= (speed as int) + 800 * (k as int),
    {
        if k != i {
            let (ox, oy) = predators[k];
            let sep = dist_milli(px, py, ox, oy);
            if sep < PREDATOR_SEPARATION_RADIUS && sep > 0 {
                proof {
                    crate::fixed::lemma_leg_le_dist(
                        (ox as int) - (px as int),
                        (oy as int) - (py as int),
                        sep as int,
                    );
                    assert(-(1000int * (sep as int)) <= ((px as int) - (ox as int)) * 1000
                        <= 1000int * (sep as int)) by (nonlinear_arith)
                        requires
                            -(sep as int) <= (px as int) - (ox as int) <= sep as int,
                    ;
                    assert(-(1000int * (sep as int)) <= ((py as int) - (oy as int)) * 1000
                        <= 1000int * (sep as int)) by (nonlinear_arith)
                        requires
                            -(sep as int) <= (py as int) - (oy as int) <= sep as int,
                    ;
                    lemma_sdiv_bound(((px as int) - (ox as int)) * 1000, sep as int, 1000);
                    lemma_sdiv_bound(((py as int) - (oy as int)) * 1000, sep as int, 1000);
                    assert((800int) * ((k as int) + 1) == 800 * (k as int) + 800)
                        by (nonlinear_arith);
                }
                let push_x = sdiv((px - ox) * SCALE, sep);
                let push_y = sdiv((py - oy) * SCALE, sep);
                dx = dx + sdiv(push_x * PREDATOR_SEPARATION_PUSH, SCALE);
                dy = dy + sdiv(push_y * PREDATOR_SEPARATION_PUSH, SCALE);
            } else {
                proof {
                    assert((800int) * ((k as int) + 1) >= 800 * (k as int)) by (nonlinear_arith);
                }
            }
        } else {
            proof {
                assert((800int) * ((k as int) + 1) >= 800 * (k as int)) by (nonlinear_arith);
            }
        }
    }
    proof {
        assert(800 * (np as int) <= 8_000_000int) by (nonlinear_arith)
            requires
                np as int <= 10_000,
        ;
    }
    let nx = px + dx;
    let ny = py + dy;
    if !point_in_circles(rocks, nx, ny) {
        predators.set(i, (nx, ny));
    }
    let p = predators[i];
    predators.set(i, (clamp_i64(p.0, 0, width), clamp_i64(p.1, 0, height)));
}

/// The index contents after phase one of a tick: every living agent
/// inserted at its position, in slot order, into a blank grid.
pub open spec fn rebuilt_buckets(
    blank: Seq<Seq<usize>>,
    cols: int,
    rows: int,
    cell: int,
    positions: Seq<(i64, i64)>,
    energies: Seq<i64>,
    n: int,
) -> Seq<Seq<usize>>
    decreases n,
{
    if n <= 0 {
        blank
    } else {
        let prev = rebuilt_buckets(blank, cols, rows, cell, positions, energies, n - 1);
        if energies[n - 1] > 0 {
            inserted(
                prev,
                cols,
                rows,
                cell,
                positions[n - 1].0 as int,
                positions[n - 1].1 as int,
                (n - 1) as usize,
            )
        } else {
            prev
        }
    }
}

/// A uniformly random coordinate in `[0, limit)`, or zero when the world
/// has no extent on that axis.
fn rand_coord(rng: &mut Rng, limit: i64) -> (r: i64)
    requires
        0 <= limit <= MAX_COORD,
    ensures
        0 <= r <= limit,
        0 < limit ==> r < limit,
{
    if limit == 0 {
        0
    } else {
        rng.below_i64(limit)
    }
}

/// Whether `(px, py)` lies strictly inside one of the circles.
fn point_in_circles(cs: &Vec<(i64, i64, i64)>, px: i64, py: i64) -> (hit: bool)
    requires
        all_circles_bounded(cs@),
        -1_000_000_000 <= px <= 1_000_000_000,
        -1_000_000_000 <= py <= 1_000_000_000,
    ensures
        hit == hits_circle(cs@, px as int, py as int),
{
    let n = cs.len();
    for k in 0..n
        invariant
            n == cs@.len(),
            all_circles_bounded(cs@),
            -1_000_000_000 <= px <= 1_000_000_000,
            -1_000_000_000 <= py <= 1_000_000_000,
            forall|j: int| 0 <= j < k ==> !in_circle(#[trigger] cs@[j], px as int, py as int),
    {
        let c = cs[k];
        let dx = px - c.0;
        let dy = py - c.1;
        proof {
            assert(0 <= (dx as int) * (dx as int) <= 1_210_000_000_000_000_000int)
                by (nonlinear_arith)
                requires
                    -1_100_000_000 <= dx as int <= 1_100_000_000,
            ;
            assert(0 <= (dy as int) * (dy as int) <= 1_210_000_000_000_000_000int)
                by (nonlinear_arith)
                requires
                    -1_100_000_000 <= dy as int <= 1_100_000_000,
            ;
            assert(0 <= (c.2 as int) * (c.2 as int) <= 10_000_000_000_000_000int)
                by (nonlinear_arith)
                requires
                    0 <= c.2 as int <= 100_000_000,
            ;
        }
        if dx * dx + dy * dy < c.2 * c.2 {
            return true;
        }
    }
    false
}

impl Simulation {
    /// A world with the standard population: agents at random positions
    /// and headings with full energy and random controllers, food and
    /// predators scattered uniformly, and fixed random terrain.
    #[verifier::loop_isolation(false)]
    pub fn new(width: i64, height: i64, seed: u64) -> (sim: Simulation)
        requires
            0 <= width <= MAX_COORD,
            0 <= height <= MAX_COORD,
        ensures
            sim.wf(),
            sim.positions@.len() == AGENT_COUNT,
            sim.food@.len() == FOOD_COUNT,
            sim.predators@.len() == PREDATOR_COUNT,
            sim.rocks@.len() == ROCK_COUNT,
            sim.mud@.len() == MUD_COUNT,
            forall|k: int|
                0 <= k < AGENT_COUNT ==> #[trigger] sim.energies@[k] == STARTING_ENERGY,
            forall|k: int| 0 <= k < AGENT_COUNT ==> #[trigger] sim.voices@[k] == 0i64,
            forall|k: int|
                0 <= k < AGENT_COUNT ==> pt_in_world(#[trigger] sim.positions@[k], width, height),
            forall|k: int|
                0 <= k < FOOD_COUNT ==> pt_in_world(#[trigger] sim.food@[k], width, height),
            forall|k: int|
                0 <= k < PREDATOR_COUNT ==> pt_in_world(
                    #[trigger] sim.predators@[k],
                    width,
                    height,
                ),
            forall|k: int|
                0 <= k < ROCK_COUNT ==> 20_000 <= (#[trigger] sim.rocks@[k]).2 < 50_000,
            forall|k: int|
                0 <= k < MUD_COUNT ==> 40_000 <= (#[trigger] sim.mud@[k]).2 < 100_000,
            sim.width == width,
            sim.height == height,
            sim.mutation_rate == BASE_MUTATION_RATE,
            sim.predator_speed == DEFAULT_PREDATOR_SPEED,
            sim.reproduction_threshold == DEFAULT_REPRODUCTION_THRESHOLD,
            sim.zoom == SCALE,
            sim.view_x == 0,
            sim.view_y == 0,
    {
        let mut sim = Simulation::empty(width, height, seed);
        for _k in 0..AGENT_COUNT
            invariant
                sim.wf(),
                sim.positions@.len() == _k,
                sim.food@.len() == 0,
                sim.predators@.len() == 0,
                sim.rocks@.len() == 0,
                sim.mud@.len() == 0,
                sim.width == width,
                sim.height == height,
                sim.mutation_rate == BASE_MUTATION_RATE,
                sim.predator_speed == DEFAULT_PREDATOR_SPEED,
                sim.reproduction_threshold == DEFAULT_REPRODUCTION_THRESHOLD,
                sim.zoom == SCALE,
                sim.view_x == 0,
                sim.view_y == 0,
                forall|j: int| 0 <= j < _k ==> #[trigger] sim.energies@[j] == STARTING_ENERGY,
                forall|j: int| 0 <= j < _k ==> #[trigger] sim.voices@[j] == 0i64,
                forall|j: int|
                    0 <= j < _k ==> pt_in_world(#[trigger] sim.positions@[j], width, height),
        {
            let x = rand_coord(&mut sim.rng, width);
            let y = rand_coord(&mut sim.rng, height);
            let ang = sim.rng.below_i64(TWO_PI_MILLI);
            let tribe = sim.rng.below(TRIBE_COUNT as u64) as u8;
            let brain = Brain::new(&mut sim.rng);
            sim.add_agent(x, y, ang, STARTING_ENERGY, tribe, brain);
        }
        for _k in 0..FOOD_COUNT
            invariant
                sim.wf(),
                sim.positions@.len() == AGENT_COUNT,
                sim.food@.len() == _k,
                sim.predators@.len() == 0,
                sim.rocks@.len() == 0,
                sim.mud@.len() == 0,
                sim.width == width,
                sim.height == height,
                sim.mutation_rate == BASE_MUTATION_RATE,
                sim.predator_speed == DEFAULT_PREDATOR_SPEED,
                sim.reproduction_threshold == DEFAULT_REPRODUCTION_THRESHOLD,
                sim.zoom == SCALE,
                sim.view_x == 0,
                sim.view_y == 0,
                forall|j: int|
                    0 <= j < AGENT_COUNT ==> #[trigger] sim.energies@[j] == STARTING_ENERGY,
                forall|j: int| 0 <= j < AGENT_COUNT ==> #[trigger] sim.voices@[j] == 0i64,
                forall|j: int|
                    0 <= j < AGENT_COUNT ==> pt_in_world(
                        #[trigger] sim.positions@[j],
                        width,
                        height,
                    ),
                forall|j: int| 0 <= j < _k ==> pt_in_world(#[trigger] sim.food@[j], width, height),
        {
            let x = rand_coord(&mut sim.rng, width);
            let y = rand_coord(&mut sim.rng, height);
            sim.add_food(x, y);
        }
        for _k in 0..PREDATOR_COUNT
            invariant
                sim.wf(),
                sim.positions@.len() == AGENT_COUNT,
                sim.food@.len() == FOOD_COUNT,
                sim.predators@.len() == _k,
                sim.rocks@.len() == 0,
                sim.mud@.len() == 0,
                sim.width == width,
                sim.height == height,
                sim.mutation_rate == BASE_MUTATION_RATE,
                sim.predator_speed == DEFAULT_PREDATOR_SPEED,
                sim.reproduction_threshold == DEFAULT_REPRODUCTION_THRESHOLD,
                sim.zoom == SCALE,
                sim.view_x == 0,
                sim.view_y == 0,
                forall|j: int|
                    0 <= j < AGENT_COUNT ==> #[trigger] sim.energies@[j] == STARTING_ENERGY,
                forall|j: int| 0 <= j < AGENT_COUNT ==> #[trigger] sim.voices@[j] == 0i64,
                forall|j: int|
                    0 <= j < AGENT_COUNT ==> pt_in_world(
                        #[trigger] sim.positions@[j],
                        width,
                        height,
                    ),
                forall|j: int|
                    0 <= j < FOOD_COUNT ==> pt_in_world(#[trigger] sim.food@[j], width, height),
                forall|j: int|
                    0 <= j < _k ==> pt_in_world(#[trigger] sim.predators@[j], width, height),
        {
            let x = rand_coord(&mut sim.rng, width);
            let y = rand_coord(&mut sim.rng, height);
            sim.add_predator(x, y);
        }
        for _k in 0..ROCK_COUNT
            invariant
                sim.wf(),
                sim.positions@.len() == AGENT_COUNT,
                sim.food@.len() == FOOD_COUNT,
                sim.predators@.len() == PREDATOR_COUNT,
                sim.rocks@.len() == _k,
                sim.mud@.len() == 0,
                sim.width == width,
                sim.height == height,
                sim.mutation_rate == BASE_MUTATION_RATE,
                sim.predator_speed == DEFAULT_PREDATOR_SPEED,
                sim.reproduction_threshold == DEFAULT_REPRODUCTION_THRESHOLD,
                sim.zoom == SCALE,
                sim.view_x == 0,
                sim.view_y == 0,
                forall|j: int|
                    0 <= j < AGENT_COUNT ==> #[trigger] sim.energies@[j] == STARTING_ENERGY,
                forall|j: int| 0 <= j < AGENT_COUNT ==> #[trigger] sim.voices@[j] == 0i64,
                forall|j: int|
                    0 <= j < AGENT_COUNT ==> pt_in_world(
                        #[trigger] sim.positions@[j],
                        width,
                        height,
                    ),
                forall|j: int|
                    0 <= j < FOOD_COUNT ==> pt_in_world(#[trigger] sim.food@[j], width, height),
                forall|j: int|
                    0 <= j < PREDATOR_COUNT ==> pt_in_world(
                        #[trigger] sim.predators@[j],
                        width,
                        height,
                    ),
                forall|j: int| 0 <= j < _k ==> 20_000 <= (#[trigger] sim.rocks@[j]).2 < 50_000,
        {
            let x = rand_coord(&mut sim.rng, width);
            let y = rand_coord(&mut sim.rng, height);
            let radius = 20_000 + sim.rng.below_i64(30_000);
            sim.add_rock(x, y, radius);
        }
        for _k in 0..MUD_COUNT
            invariant
                sim.wf(),
                sim.positions@.len() == AGENT_COUNT,
                sim.food@.len() == FOOD_COUNT,
                sim.predators@.len() == PREDATOR_COUNT,
                sim.rocks@.len() == ROCK_COUNT,
                sim.mud@.len() == _k,
                sim.width == width,
                sim.height == height,
                sim.mutation_rate == BASE_MUTATION_RATE,
                sim.predator_speed == DEFAULT_PREDATOR_SPEED,
                sim.reproduction_threshold == DEFAULT_REPRODUCTION_THRESHOLD,
                sim.zoom == SCALE,
                sim.view_x == 0,
                sim.view_y == 0,
                forall|j: int|
                    0 <= j < AGENT_COUNT ==> #[trigger] sim.energies@[j] == STARTING_ENERGY,
                forall|j: int| 0 <= j < AGENT_COUNT ==> #[trigger] sim.voices@[j] == 0i64,
                forall|j: int|
                    0 <= j < AGENT_COUNT ==> pt_in_world(
                        #[trigger] sim.positions@[j],
                        width,
                        height,
                    ),
                forall|j: int|
                    0 <= j < FOOD_COUNT ==> pt_in_world(#[trigger] sim.food@[j], width, height),
                forall|j: int|
                    0 <= j < PREDATOR_COUNT ==> pt_in_world(
                        #[trigger] sim.predators@[j],
                        width,
                        height,
                    ),
                forall|j: int|
                    0 <= j < ROCK_COUNT ==> 20_000 <= (#[trigger] sim.rocks@[j]).2 < 50_000,
                forall|j: int| 0 <= j < _k ==> 40_000 <= (#[trigger] sim.mud@[j]).2 < 100_000,
        {
            let x = rand_coord(&mut sim.rng, width);
            let y = rand_coord(&mut sim.rng, height);
            let radius = 40_000 + sim.rng.below_i64(60_000);
            sim.add_mud(x, y, radius);
        }
        sim
    }

    /// Phase one of a tick: clear the index and reinsert every living
    /// agent at its current position.
    #[verifier::loop_isolation(false)]
    fn rebuild_index(&mut self)
        requires
            old(self).wf(),
        ensures
            final(self).wf(),
            *final(self) == (Simulation { grid: final(self).grid, ..*old(self) }),
            final(self).grid.cols == old(self).grid.cols,
            final(self).grid.rows == old(self).grid.rows,
            final(self).grid.cell_size == old(self).grid.cell_size,
            final(self).grid.buckets() == rebuilt_buckets(
                Seq::new(old(self).grid.buckets().len(), |b: int| Seq::<usize>::empty()),
                old(self).grid.cols as int,
                old(self).grid.rows as int,
                old(self).grid.cell_size as int,
                old(self).positions@,
                old(self).energies@,
                old(self).positions@.len() as int,
            ),
    {
        self.grid.clear();
        let ghost blank = Seq::new(old(self).grid.buckets().len(), |b: int| Seq::<usize>::empty());
        proof {
            assert(self.grid.buckets() =~~= blank);
        }
        let n = self.positions.len();
        for i in 0..n
            invariant
                self.grid.wf(),
                self.grid.cols == old(self).grid.cols,
                self.grid.rows == old(self).grid.rows,
                self.grid.cell_size == old(self).grid.cell_size,
                *self == (Simulation { grid: self.grid, ..*old(self) }),
                self.grid.buckets() == rebuilt_buckets(
                    blank,
                    old(self).grid.cols as int,
                    old(self).grid.rows as int,
                    old(self).grid.cell_size as int,
                    old(self).positions@,
                    old(self).energies@,
                    i as int,
                ),
        {
            if self.energies[i] > 0 {
                let p = self.positions[i];
                self.grid.insert(p.0, p.1, i);
            }
        }
    }

    /// The sensing pass for agent `i`: the eleven normalized controller
    /// inputs, together with the nearest food and predator (index and
    /// distance, at the sentinel when nothing is nearer) and whether the
    /// agent stands in mud.
    #[verifier::rlimit(100)]
    fn sense(&self, i: usize) -> (res: (Vec<i64>, usize, i64, usize, i64, bool))
        requires
            self.wf(),
            i < self.positions@.len(),
        ensures
            res.0@ == agent_inputs_spec(*self, i as int),
            res.0@.len() == INPUT_COUNT,
            all_bounded(res.0@, INPUT_LIMIT),
            res.1 as int == slot_food_scan(*self, i as int).0,
            res.2 as int == slot_food_scan(*self, i as int).1,
            0 <= res.2 <= SENSE_SENTINEL,
            res.2 < SENSE_SENTINEL ==> res.1 < self.food@.len(),
            res.3 as int == slot_pred_scan(*self, i as int).0,
            res.4 as int == slot_pred_scan(*self, i as int).1,
            0 <= res.4 <= SENSE_SENTINEL,
            res.4 < SENSE_SENTINEL ==> res.3 < self.predators@.len(),
            res.5 == slot_in_mud(*self, i as int),
    {
        let (my_x, my_y) = self.positions[i];
        let my_angle = self.angles[i];
        let (food_idx, food_dist) = nearest_point(&self.food, my_x, my_y, SENSE_SENTINEL);
        let (pred_idx, pred_dist) = nearest_point(&self.predators, my_x, my_y, SENSE_SENTINEL);
        let (friend_dist, heard) = friend_sense(
            &self.positions,
            &self.energies,
            &self.voices,
            i,
            my_x,
            my_y,
        );
        let sin_a = sin_fp(my_angle);
        let cos_a = cos_fp(my_angle);
        let food_bear = if food_dist < SENSE_SENTINEL {
            let f = self.food[food_idx];
            bearing_sin(f.0 - my_x, f.1 - my_y, food_dist, sin_a, cos_a)
        } else {
            0
        };
        let pred_bear = if pred_dist < SENSE_SENTINEL {
            let p = self.predators[pred_idx];
            bearing_sin(p.0 - my_x, p.1 - my_y, pred_dist, sin_a, cos_a)
        } else {
            0
        };
        let wall_l = whisker(
            &self.rocks,
            my_x,
            my_y,
            self.width,
            self.height,
            norm_angle(my_angle - WHISKER_OFFSET),
        );
        let wall_c = whisker(&self.rocks, my_x, my_y, self.width, self.height, my_angle);
        let wall_r = whisker(
            &self.rocks,
            my_x,
            my_y,
            self.width,
            self.height,
            norm_angle(my_angle + WHISKER_OFFSET),
        );
        let in_mud = point_in_circles(&self.mud, my_x, my_y);

        let mut inputs: Vec<i64> = Vec::new();
        inputs.push(norm_dist_input(food_dist, self.width));
        inputs.push(food_bear);
        inputs.push(norm_dist_input(pred_dist, self.width));
        inputs.push(pred_bear);
        inputs.push(clamp_i64(sdiv(self.energies[i], 100), -INPUT_LIMIT, INPUT_LIMIT));
        inputs.push(clamp_i64(sdiv(friend_dist, 200), 0, SCALE));
        inputs.push(wall_l);
        inputs.push(wall_c);
        inputs.push(wall_r);
        inputs.push(clamp_i64(heard, 0, SCALE));
        inputs.push(
            if in_mud {
                SCALE
            } else {
                0
            },
        );
        assert(inputs@.len() == INPUT_COUNT);
        assert(all_bounded(inputs@, INPUT_LIMIT));
        proof {
            let si = agent_inputs_spec(*self, i as int);
            assert(inputs@[0] == si[0]);
            assert(inputs@[1] == si[1]);
            assert(inputs@[2] == si[2]);
            assert(inputs@[3] == si[3]);
            assert(inputs@[4] == si[4]);
            assert(inputs@[5] == si[5]);
            assert(inputs@[6] == si[6]);
            assert(inputs@[7] == si[7]);
            assert(inputs@[8] == si[8]);
            assert(inputs@[9] == si[9]);
            assert(inputs@[10] == si[10]);
            assert(inputs@ =~= si);
        }
        (inputs, food_idx, food_dist, pred_idx, pred_dist, in_mud)
    }

    /// One agent's slice of a tick: sense, decide, move, metabolize,
    /// interact with food and predators, and on death hand the slot to a
    /// bred or fresh newcomer. Earlier slots are seen as already updated
    /// this tick, later slots as they stood before; the slot itself never
    /// leaves with energy at or below zero, and any other slot changes
    /// only by paying the birth cost as a tournament-selected parent.
    #[verifier::loop_isolation(false)]
    #[verifier::rlimit(100)]
    fn agent_phase(&mut self, i: usize)
        requires
            old(self).wf(),
            i < old(self).positions@.len(),
        ensures
            final(self).wf(),
            final(self).positions@.len() == old(self).positions@.len(),
            final(self).food@.len() == old(self).food@.len(),
            final(self).predators@.len() == old(self).predators@.len(),
            final(self).rocks@ == old(self).rocks@,
            final(self).mud@ == old(self).mud@,
            final(self).width == old(self).width,
            final(self).height == old(self).height,
            final(self).mutation_rate == old(self).mutation_rate,
            final(self).predator_speed == old(self).predator_speed,
            final(self).reproduction_threshold == old(self).reproduction_threshold,
            final(self).view_x == old(self).view_x,
            final(self).view_y == old(self).view_y,
            final(self).zoom == old(self).zoom,
            final(self).grid == old(self).grid,
            forall|j: int|
                0 <= j < old(self).positions@.len() && j != i ==> final(self).positions@[j] == old(
                    self,
                ).positions@[j],
            pt_in_world(final(self).positions@[i as int], old(self).width, old(self).height),
            forall|j: int|
                0 <= j < old(self).angles@.len() && j != i ==> final(self).angles@[j] == old(
                    self,
                ).angles@[j],
            forall|j: int|
                0 <= j < old(self).voices@.len() && j != i ==> final(self).voices@[j] == old(
                    self,
                ).voices@[j],
            forall|j: int|
                0 <= j < old(self).tribes@.len() && j != i ==> final(self).tribes@[j] == old(
                    self,
                ).tribes@[j],
            forall|j: int|
                0 <= j < old(self).brains@.len() && j != i ==> final(self).brains@[j] == old(
                    self,
                ).brains@[j],
            final(self).energies@[i as int] > 0,
            forall|j: int|
                0 <= j < old(self).energies@.len() && j != i ==> ((#[trigger] final(self).energies@[j])
                    == old(self).energies@[j] || (old(self).energies@[j] > old(
                    self,
                ).reproduction_threshold && final(self).energies@[j] == old(self).energies@[j]
                    - PARENT_COST)),
            forall|k: int|
                0 <= k < old(self).food@.len() ==> ((#[trigger] final(self).food@[k]) == old(
                    self,
                ).food@[k] || pt_in_world(final(self).food@[k], old(self).width, old(self).height)),
            forall|k: int|
                0 <= k < old(self).predators@.len() ==> ((#[trigger] final(self).predators@[k])
                    == old(self).predators@[k] || pt_in_world(
                    final(self).predators@[k],
                    old(self).width,
                    old(self).height,
                )),
            agent_slot_rel(*old(self), *final(self), i as int),
    {
        let (my_x, my_y) = self.positions[i];
        let my_angle = self.angles[i];
        let (inputs, food_idx, food_dist, pred_idx, pred_dist, in_mud) = self.sense(i);
        let mut taken = Brain {
            weights_input: Vec::new(),
            weights_output: Vec::new(),
            biases: Vec::new(),
            last_inputs: Vec::new(),
            last_hidden: Vec::new(),
            last_outputs: Vec::new(),
        };
        self.brains.set_and_swap(i, &mut taken);
        let outputs = taken.process(&inputs);
        self.brains.set_and_swap(i, &mut taken);
        proof {
            assert forall|k: int| 0 <= k < 3 implies #[trigger] outputs@[k] == slot_out(
                *old(self),
                i as int,
                k,
            ) by {}
        }

        // Physics.
        proof {
            assert(-(200int * 1000int) <= (outputs@[0] as int) * (TURN_SPEED as int) <= 200int
                * 1000int) by (nonlinear_arith)
                requires
                    -1000 <= outputs@[0] as int <= 1000,
            ;
            lemma_sdiv_bound((outputs@[0] as int) * (TURN_SPEED as int), SCALE as int, 200);
        }
        let turn = sdiv(outputs[0] * TURN_SPEED, SCALE);
        let new_angle = norm_angle(my_angle + turn);
        self.angles.set(i, new_angle);
        proof {
            assert(new_angle == slot_heading(*old(self), i as int) as i64);
            assert(self.angles@ == old(self).angles@.update(
                i as int,
                slot_heading(*old(self), i as int) as i64,
            ));
        }
        proof {
            assert(0 <= ((outputs@[1] as int) + 1000) * (AGENT_SPEED_MODIFIER as int) <= 3000int
                * 1000int) by (nonlinear_arith)
                requires
                    -1000 <= outputs@[1] as int <= 1000,
            ;
            lemma_sdiv_bound(
                ((outputs@[1] as int) + 1000) * (AGENT_SPEED_MODIFIER as int),
                SCALE as int,
                3000,
            );
        }
        let mut speed = sdiv((outputs[1] + SCALE) * AGENT_SPEED_MODIFIER, SCALE);
        let voice = if outputs[2] > 0 {
            outputs[2]
        } else {
            0
        };
        self.voices.set(i, voice);
        if in_mud {
            speed = sdiv(speed * 300, SCALE);
        }
        assert(0 <= speed <= 3000);
        assert(speed as int == slot_speed(*old(self), i as int));
        assert(voice as int == slot_voice(*old(self), i as int));
        let ca = cos_fp(new_angle);
        let sa = sin_fp(new_angle);
        proof {
            assert(-(3000int * 1000int) <= (ca as int) * (speed as int) <= 3000int * 1000int)
                by (nonlinear_arith)
                requires
                    -1000 <= ca as int <= 1000,
                    0 <= speed as int <= 3000,
            ;
            assert(-(3000int * 1000int) <= (sa as int) * (speed as int) <= 3000int * 1000int)
                by (nonlinear_arith)
                requires
                    -1000 <= sa as int <= 1000,
                    0 <= speed as int <= 3000,
            ;
            lemma_sdiv_bound((ca as int) * (speed as int), SCALE as int, 3000);
            lemma_sdiv_bound((sa as int) * (speed as int), SCALE as int, 3000);
        }
        let vx = sdiv(ca * speed, SCALE);
        let vy = sdiv(sa * speed, SCALE);
        let nx = my_x + vx;
        let ny = my_y + vy;
        if !point_in_circles(&self.rocks, nx, ny) {
            self.positions.set(i, (nx, ny));
        }
        let p = self.positions[i];
        self.positions.set(i, (clamp_i64(p.0, 0, self.width), clamp_i64(p.1, 0, self.height)));
        proof {
            assert(self.positions@ =~= old(self).positions@.update(
                i as int,
                slot_moved(*old(self), i as int),
            ));
        }

        // Metabolism.
        proof {
            assert(0 <= (speed as int) * (MOVE_COST as int) <= 600int * 1000int)
                by (nonlinear_arith)
                requires
                    0 <= speed as int <= 3000,
            ;
            lemma_sdiv_bound((speed as int) * (MOVE_COST as int), SCALE as int, 600);
        }
        let mut cost = sdiv(speed * MOVE_COST, SCALE);
        if in_mud {
            cost = cost * 3;
        }
        cost = cost + sdiv(voice, 10);
        assert(cost as int == slot_cost(*old(self), i as int));
        let mut e = self.energies[i] - cost;

        // Food.
        if food_dist < EAT_RADIUS {
            e = e + FOOD_ENERGY;
            if e > ENERGY_CAP {
                e = ENERGY_CAP;
            }
            let fx = rand_coord(&mut self.rng, self.width);
            let fy = rand_coord(&mut self.rng, self.height);
            self.food.set(food_idx, (fx, fy));
            proof {
                assert(pt_in_world((fx, fy), old(self).width, old(self).height));
                assert(self.food@ == old(self).food@.update(
                    slot_food_scan(*old(self), i as int).0,
                    (fx, fy),
                ));
            }
        }
        assert(e as int == slot_energy_fed(*old(self), i as int));

        // Predators.
        if pred_dist < PREDATOR_KILL_RADIUS {
            if e > WARRIOR_THRESHOLD {
                let px = rand_coord(&mut self.rng, self.width);
                let py = rand_coord(&mut self.rng, self.height);
                self.predators.set(pred_idx, (px, py));
                e = e - BATTLE_COST;
                proof {
                    assert(pt_in_world((px, py), old(self).width, old(self).height));
                    assert(self.predators@ == old(self).predators@.update(
                        slot_pred_scan(*old(self), i as int).0,
                        (px, py),
                    ));
                }
            } else {
                e = DEATH_SENTINEL;
            }
        }
        assert(e as int == slot_energy_after(*old(self), i as int));
        if e > 0 {
            self.energies.set(i, e);
            proof {
                assert(self.voices@ == old(self).voices@.update(
                    i as int,
                    slot_voice(*old(self), i as int) as i64,
                ));
                assert(agent_slot_rel(*old(self), *self, i as int));
            }
        } else {
            // The dying value is never read: the tournaments skip this
            // slot, and the rebirth overwrites it within the same tick.
            self.evolve_slot(i, Ghost(*old(self)));
            proof {
                assert(agent_slot_rel(*old(self), *self, i as int));
            }
        }
    }

    /// Evolution for a slot whose energy fell to or below zero this tick:
    /// two independent five-draw tournaments pick candidate parents, and
    /// the slot is reborn in place, bred (crossover then mutation, first
    /// parent's tribe, spawned beside it, both parents paying the birth
    /// cost) when both candidates exceed the reproduction threshold, or
    /// fresh and random otherwise. The slot always leaves strictly alive.
    #[verifier::loop_isolation(false)]
    fn evolve_slot(&mut self, i: usize, Ghost(pre): Ghost<Simulation>)
        requires
            old(self).wf(),
            i < old(self).positions@.len(),
            // how the mid-tick state relates to the state `pre` this
            // slot's phase started from
            pre.wf(),
            old(self).energies@ == pre.energies@,
            old(self).tribes@ == pre.tribes@,
            old(self).positions@.len() == pre.positions@.len(),
            forall|j: int|
                0 <= j < pre.positions@.len() && j != i ==> old(self).positions@[j]
                    == pre.positions@[j],
            forall|j: int|
                0 <= j < pre.brains@.len() && j != i ==> old(self).brains@[j] == pre.brains@[j],
            old(self).brains@.len() == pre.brains@.len(),
            old(self).voices@ == pre.voices@.update(i as int, slot_voice(pre, i as int) as i64),
            old(self).width == pre.width,
            old(self).height == pre.height,
            old(self).mutation_rate == pre.mutation_rate,
            old(self).reproduction_threshold == pre.reproduction_threshold,
        ensures
            rebirth_rel(pre, *final(self), i as int),
            final(self).wf(),
            final(self).positions@.len() == old(self).positions@.len(),
            final(self).food@ == old(self).food@,
            final(self).predators@ == old(self).predators@,
            final(self).rocks@ == old(self).rocks@,
            final(self).mud@ == old(self).mud@,
            final(self).angles@ == old(self).angles@,
            final(self).width == old(self).width,
            final(self).height == old(self).height,
            final(self).mutation_rate == old(self).mutation_rate,
            final(self).predator_speed == old(self).predator_speed,
            final(self).reproduction_threshold == old(self).reproduction_threshold,
            final(self).view_x == old(self).view_x,
            final(self).view_y == old(self).view_y,
            final(self).zoom == old(self).zoom,
            final(self).grid == old(self).grid,
            forall|j: int|
                0 <= j < old(self).positions@.len() && j != i ==> final(self).positions@[j] == old(
                    self,
                ).positions@[j],
            pt_in_world(final(self).positions@[i as int], old(self).width, old(self).height),
            forall|j: int|
                0 <= j < old(self).voices@.len() && j != i ==> final(self).voices@[j] == old(
                    self,
                ).voices@[j],
            forall|j: int|
                0 <= j < old(self).tribes@.len() && j != i ==> final(self).tribes@[j] == old(
                    self,
                ).tribes@[j],
            forall|j: int|
                0 <= j < old(self).brains@.len() && j != i ==> final(self).brains@[j] == old(
                    self,
                ).brains@[j],
            final(self).energies@[i as int] == OFFSPRING_ENERGY || final(self).energies@[i as int]
                == STARTING_ENERGY,
            forall|j: int|
                0 <= j < old(self).energies@.len() && j != i ==> ((#[trigger] final(self).energies@[j])
                    == old(self).energies@[j] || (old(self).energies@[j] > old(
                    self,
                ).reproduction_threshold && final(self).energies@[j] == old(self).energies@[j]
                    - PARENT_COST)),
    {
        let (p1, max1) = tournament(&self.energies, i, i, &mut self.rng);
        let (p2, max2) = tournament(&self.energies, i, p1, &mut self.rng);
        if max1 > -SCALE && max2 > -SCALE && max1 > self.reproduction_threshold && max2
            > self.reproduction_threshold {
            let cross = self.brains[p1].crossover(&self.brains[p2], &mut self.rng);
            let child = cross.mutate(self.mutation_rate, &mut self.rng);
            self.brains.set(i, child);
            let tr = self.tribes[p1];
            self.tribes.set(i, tr);
            let parent_pos = self.positions[p1];
            let jx = self.rng.symmetric(5000);
            let jy = self.rng.symmetric(5000);
            self.positions.set(
                i,
                (
                    clamp_i64(parent_pos.0 + jx, 0, self.width),
                    clamp_i64(parent_pos.1 + jy, 0, self.height),
                ),
            );
            self.energies.set(i, OFFSPRING_ENERGY);
            let ep1 = self.energies[p1];
            self.energies.set(p1, ep1 - PARENT_COST);
            let ep2 = self.energies[p2];
            self.energies.set(p2, ep2 - PARENT_COST);
            proof {
                let c = self.brains@[i as int];
                let a = pre.brains@[p1 as int];
                let b = pre.brains@[p2 as int];
                let rate = pre.mutation_rate;
                assert forall|k: int| 0 <= k < INPUT_WEIGHTS implies ((a.weights_input@[k] - rate
                    <= #[trigger] c.weights_input@[k] <= a.weights_input@[k] + rate) || (
                b.weights_input@[k] - rate <= c.weights_input@[k] <= b.weights_input@[k]
                    + rate)) by {
                    assert(cross.weights_input@[k] == a.weights_input@[k]
                        || cross.weights_input@[k] == b.weights_input@[k]);
                }
                assert forall|k: int| 0 <= k < OUTPUT_WEIGHTS implies ((a.weights_output@[k] - rate
                    <= #[trigger] c.weights_output@[k] <= a.weights_output@[k] + rate) || (
                b.weights_output@[k] - rate <= c.weights_output@[k] <= b.weights_output@[k]
                    + rate)) by {
                    assert(cross.weights_output@[k] == a.weights_output@[k]
                        || cross.weights_output@[k] == b.weights_output@[k]);
                }
                assert forall|k: int| 0 <= k < BIAS_COUNT implies ((a.biases@[k] - rate
                    <= #[trigger] c.biases@[k] <= a.biases@[k] + rate) || (b.biases@[k] - rate
                    <= c.biases@[k] <= b.biases@[k] + rate)) by {
                    assert(cross.biases@[k] == a.biases@[k] || cross.biases@[k] == b.biases@[k]);
                }
                assert(bred_brain_rel(a, b, c, rate));
                assert(self.tribes@ =~= pre.tribes@.update(i as int, pre.tribes@[p1 as int]));
                assert(self.energies@ =~= pre.energies@.update(i as int, OFFSPRING_ENERGY).update(
                    p1 as int,
                    (pre.energies@[p1 as int] - PARENT_COST) as i64,
                ).update(p2 as int, (pre.energies@[p2 as int] - PARENT_COST) as i64));
                assert(self.voices@ == pre.voices@.update(
                    i as int,
                    slot_voice(pre, i as int) as i64,
                ));
                assert(self.positions@ =~= pre.positions@.update(
                    i as int,
                    (
                        jittered(pre.positions@[p1 as int].0 as int, jx as int, pre.width as int),
                        jittered(pre.positions@[p1 as int].1 as int, jy as int, pre.height as int),
                    ),
                ));
                assert(rebirth_rel(pre, *self, i as int));
            }
        } else {
            let nb = Brain::new(&mut self.rng);
            self.brains.set(i, nb);
            let x = rand_coord(&mut self.rng, self.width);
            let y = rand_coord(&mut self.rng, self.height);
            self.positions.set(i, (x, y));
            self.energies.set(i, STARTING_ENERGY);
            self.voices.set(i, 0);
            proof {
                assert(self.tribes@ == pre.tribes@);
                assert(self.energies@ =~= pre.energies@.update(i as int, STARTING_ENERGY));
                assert(self.voices@ == old(self).voices@.update(i as int, 0i64));
                assert(old(self).voices@ == pre.voices@.update(
                    i as int,
                    slot_voice(pre, i as int) as i64,
                ));
                assert(self.voices@ =~= pre.voices@.update(i as int, 0i64));
                assert(self.positions@ =~= pre.positions@.update(i as int, (x, y)));
                assert(rebirth_rel(pre, *self, i as int));
            }
        }
    }

    /// One simulated tick: rebuild the spatial index from the living
    /// population, move every predator toward its prey, then run every
    /// agent slot through sensing, decision, physics, metabolism,
    /// interaction and evolution in order. Afterwards every agent and
    /// predator stands inside the world rectangle, no energy exceeds the
    /// cap, and no slot is left dead: a slot not strictly above zero can
    /// only be a tournament parent that just paid the birth cost, so with
    /// any reproduction threshold at or above that cost the whole
    /// population ends the tick strictly alive. The returned ghost trace
    /// carries the tick's full semantics: the state the agent phase
    /// started from and every state it passed through, with consecutive
    /// states bound by the per-slot relation `agent_slot_rel`.
    #[verifier::loop_isolation(false)]
    #[verifier::rlimit(100)]
    pub fn step(&mut self) -> (trace: Ghost<(Simulation, Seq<Simulation>)>)
        requires
            old(self).wf(),
        ensures
            final(self).wf(),
            final(self).positions@.len() == old(self).positions@.len(),
            final(self).food@.len() == old(self).food@.len(),
            final(self).predators@.len() == old(self).predators@.len(),
            final(self).rocks@ == old(self).rocks@,
            final(self).mud@ == old(self).mud@,
            final(self).width == old(self).width,
            final(self).height == old(self).height,
            final(self).mutation_rate == old(self).mutation_rate,
            final(self).predator_speed == old(self).predator_speed,
            final(self).reproduction_threshold == old(self).reproduction_threshold,
            final(self).view_x == old(self).view_x,
            final(self).view_y == old(self).view_y,
            final(self).zoom == old(self).zoom,
            forall|j: int|
                0 <= j < final(self).positions@.len() ==> pt_in_world(
                    #[trigger] final(self).positions@[j],
                    old(self).width,
                    old(self).height,
                ),
            forall|k: int|
                0 <= k < final(self).predators@.len() ==> pt_in_world(
                    #[trigger] final(self).predators@[k],
                    old(self).width,
                    old(self).height,
                ),
            forall|j: int|
                0 <= j < final(self).energies@.len() ==> (#[trigger] final(self).energies@[j])
                    <= ENERGY_CAP,
            forall|j: int|
                0 <= j < final(self).energies@.len() ==> ((#[trigger] final(self).energies@[j]) > 0
                    || final(self).energies@[j] > old(self).reproduction_threshold - PARENT_COST),
            old(self).reproduction_threshold >= PARENT_COST ==> forall|j: int|
                0 <= j < final(self).energies@.len() ==> (#[trigger] final(self).energies@[j]) > 0,
            (old(self).reproduction_threshold >= PARENT_COST + DEATH_SENTINEL && (forall|j: int|
                0 <= j < old(self).energies@.len() ==> #[trigger] old(self).energies@[j]
                    >= DEATH_SENTINEL)) ==> forall|j: int|
                0 <= j < final(self).energies@.len() ==> ((#[trigger] final(self).energies@[j])
                    >= DEATH_SENTINEL && final(self).energies@[j] <= ENERGY_CAP),
            forall|k: int|
                0 <= k < final(self).food@.len() ==> ((#[trigger] final(self).food@[k]) == old(
                    self,
                ).food@[k] || pt_in_world(final(self).food@[k], old(self).width, old(self).height)),
            final(self).grid.buckets() == rebuilt_buckets(
                Seq::new(old(self).grid.buckets().len(), |b: int| Seq::<usize>::empty()),
                old(self).grid.cols as int,
                old(self).grid.rows as int,
                old(self).grid.cell_size as int,
                old(self).positions@,
                old(self).energies@,
                old(self).positions@.len() as int,
            ),
            // the whole agent phase, slot by slot: the returned ghost
            // trace names the state after the index rebuild and the
            // predator phase, and every state the agent phase passes
            // through, consecutive states linked by the per-slot relation
            ({
                let mid = trace@.0;
                let states = trace@.1;
                &&& mid == (Simulation { predators: mid.predators, grid: mid.grid, ..*old(self) })
                &&& mid.grid == final(self).grid
                &&& mid.predators@.len() == old(self).predators@.len()
                &&& forall|k: int|
                    0 <= k < mid.predators@.len() ==> pt_in_world(
                        #[trigger] mid.predators@[k],
                        old(self).width,
                        old(self).height,
                    )
                &&& states.len() == old(self).positions@.len() + 1
                &&& states[0] == mid
                &&& states[states.len() - 1] == *final(self)
                &&& forall|k: int|
                    0 <= k < old(self).positions@.len() ==> agent_slot_rel(
                        #[trigger] states[k],
                        states[k + 1],
                        k,
                    )
            }),
    {
        self.rebuild_index();
        let ghost mid = *self;
        let n_pred = self.predators.len();
        for i in 0..n_pred
            invariant
                self.wf(),
                n_pred == self.predators@.len(),
                *self == (Simulation { predators: self.predators, ..mid }),
                forall|k: int|
                    0 <= k < i ==> pt_in_world(
                        #[trigger] self.predators@[k],
                        mid.width,
                        mid.height,
                    ),
                forall|k: int| i <= k < n_pred ==> self.predators@[k] == mid.predators@[k],
        {
            update_predator(
                &mut self.predators,
                i,
                &self.positions,
                &self.energies,
                &self.rocks,
                self.predator_speed,
                self.width,
                self.height,
            );
        }
        let ghost pre = *self;
        let ghost mut states: Seq<Simulation> = seq![pre];
        let n = self.positions.len();
        for i in 0..n
            invariant
                states.len() == i + 1,
                states[0] == pre,
                states[i as int] == *self,
                forall|k: int|
                    0 <= k < i ==> agent_slot_rel(#[trigger] states[k], states[k + 1], k),
                self.wf(),
                n == self.positions@.len(),
                self.positions@.len() == pre.positions@.len(),
                self.food@.len() == pre.food@.len(),
                self.predators@.len() == pre.predators@.len(),
                self.rocks@ == pre.rocks@,
                self.mud@ == pre.mud@,
                self.width == pre.width,
                self.height == pre.height,
                self.mutation_rate == pre.mutation_rate,
                self.predator_speed == pre.predator_speed,
                self.reproduction_threshold == pre.reproduction_threshold,
                self.view_x == pre.view_x,
                self.view_y == pre.view_y,
                self.zoom == pre.zoom,
                self.grid == pre.grid,
                forall|j: int|
                    0 <= j < i ==> pt_in_world(#[trigger] self.positions@[j], pre.width, pre.height),
                forall|j: int| i <= j < n ==> self.positions@[j] == pre.positions@[j],
                forall|k: int|
                    0 <= k < self.predators@.len() ==> pt_in_world(
                        #[trigger] self.predators@[k],
                        pre.width,
                        pre.height,
                    ),
                forall|j: int|
                    0 <= j < i ==> (#[trigger] self.energies@[j] > 0 || self.energies@[j]
                        > pre.reproduction_threshold - PARENT_COST),
                forall|j: int|
                    i <= j < n ==> (#[trigger] self.energies@[j] == pre.energies@[j]
                        || self.energies@[j] > pre.reproduction_threshold - PARENT_COST),
                forall|k: int|
                    0 <= k < self.food@.len() ==> ((#[trigger] self.food@[k]) == pre.food@[k]
                        || pt_in_world(self.food@[k], pre.width, pre.height)),
        {
            self.agent_phase(i);
            proof {
                states = states.push(*self);
            }
        }
        proof {
            assert(pre == (Simulation { predators: pre.predators, grid: pre.grid, ..*old(self) }));
            assert(pre.food@ == old(self).food@);
        }
        Ghost((pre, states))
    }
}

} // verus!
