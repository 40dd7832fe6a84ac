//! A creature: where it is, where it heads, what it last sensed, how it
//! decides, and how well it has fed.
use crate::brain::{scaled, FlexBrain};
use crate::config::{Config, MAX_SPEED};
use crate::eye::{Eye, MAX_TARGETS};
use crate::geometry::{cos_of, cosine, lemma_whole_sides_return, moved, sin_of, sine, total, wrap, wrap_add, Point, TURN};
use crate::network::{clamp, TopologyMismatch, ONE};
use crate::rng::{draw_between, draw_u32};
use rand::rngs::StdRng;
use vstd::prelude::*;

verus! {

/// A creature of the simulation.
pub struct Animal {
    /// Epochs left before the creature is due for replacement.
    pub generation_lifetime: usize,
    /// Epochs lived.
    pub generation_age: usize,
    pub position: Point,
    /// Heading as a binary angle; heading 0 points along the positive y axis.
    pub rotation: u32,
    /// Food readings per sector, from the last sensing.
    pub vision_f: Vec<i64>,
    /// Nearest-neighbour readings per sector (index, concentration).
    pub vision_a: Vec<(usize, i64)>,
    /// Speed in torus units per step.
    pub speed: u32,
    pub eye: Eye,
    pub brain: FlexBrain,
    /// Food eaten in the current epoch.
    pub satiation: usize,
    /// Food eaten over all completed epochs; the running mean is this sum
    /// divided by `generation_age`.
    pub satiation_total: u64,
}

/// Displacement along x of a step at `speed` with heading `rot`.
pub open spec fn step_x(speed: int, rot: u32) -> int {
    -scaled(sine(rot), speed, ONE as int)
}

/// Displacement along y of a step at `speed` with heading `rot`.
pub open spec fn step_y(speed: int, rot: u32) -> int {
    scaled(cosine(rot), speed, ONE as int)
}

/// Adds without passing `usize::MAX`.
pub open spec fn bump(n: int) -> int {
    if n < usize::MAX {
        n + 1
    } else {
        n
    }
}

impl Animal {
    /// Sensor caches have one entry per sector, food readings are
    /// non-negative, and the brain matches the eye.
    pub open spec fn wf(&self) -> bool {
        &&& self.eye.wf()
        &&& self.brain.wf()
        &&& self.brain.cells_spec() == self.eye.cells
        &&& self.vision_f@.len() == self.eye.cells
        &&& self.vision_a@.len() == self.eye.cells
        &&& forall|k: int| 0 <= k < self.vision_f@.len() ==> #[trigger] self.vision_f@[k] >= 0
        &&& self.speed <= MAX_SPEED
    }

    /// Both sensor caches hold only zero readings.
    pub open spec fn blank_caches(&self) -> bool {
        &&& forall|k: int| 0 <= k < self.vision_f@.len() ==> #[trigger] self.vision_f@[k] == 0
        &&& forall|k: int| 0 <= k < self.vision_a@.len() ==> #[trigger] self.vision_a@[k] == (0usize, 0i64)
    }

    /// A creature as `random` makes it under `config`: well formed, with the
    /// configured sensor and accelerations, top speed, blank caches, no
    /// epochs or food behind it, a lifetime in `1..=epoch length / 500`, and
    /// a brain on the standard wiring with a full-length genome.
    pub open spec fn fresh(&self, config: Config) -> bool {
        &&& self.wf()
        &&& self.eye == config.sensor()
        &&& self.generation_age == 0
        &&& self.satiation == 0
        &&& self.satiation_total == 0
        &&& self.speed == config.sim_speed_max
        &&& self.blank_caches()
        &&& 1 <= self.generation_lifetime <= config.sim_generation_length / 500
        &&& self.brain.speed_accel_spec() == config.sim_speed_accel
        &&& self.brain.rotation_accel_spec() == config.sim_rotation_accel
        &&& crate::network::is_standard(self.brain.network().topology, config.eye_cells as nat)
        &&& self.brain.network().genome.len() == 8 * config.eye_cells + 8
    }

    /// Running mean of food eaten per completed epoch, as a fraction.
    pub open spec fn mean_satiation(&self) -> (int, int) {
        (self.satiation_total as int, self.generation_age as int)
    }

    fn new(config: &Config, rng: &mut StdRng, brain: FlexBrain) -> (r: Animal)
        requires
            config.wf(),
            brain.wf(),
            brain.cells_spec() == config.eye_cells,
        ensures
            r.wf(),
            r.brain == brain,
            r.eye == config.sensor(),
            r.generation_age == 0,
            r.satiation == 0,
            r.satiation_total == 0,
            r.speed == config.sim_speed_max,
            r.blank_caches(),
            1 <= r.generation_lifetime <= config.sim_generation_length / 500,
    {
        let lifetime = draw_between(rng, 1, (config.sim_generation_length / 500) as i64) as usize;
        let x = draw_u32(rng);
        let y = draw_u32(rng);
        let rotation = draw_u32(rng);
        let eye = config.eye();
        let mut vision_f: Vec<i64> = Vec::new();
        let mut vision_a: Vec<(usize, i64)> = Vec::new();
        let mut k: usize = 0;
        while k < config.eye_cells
            invariant
                k <= config.eye_cells,
                vision_f@.len() == k,
                vision_a@.len() == k,
                forall|q: int| 0 <= q < k ==> vision_f@[q] == 0 && vision_a@[q] == (0usize, 0i64),
            decreases config.eye_cells - k,
        {
            vision_f.push(0);
            vision_a.push((0, 0));
            k = k + 1;
        }
        Animal {
            generation_lifetime: lifetime,
            generation_age: 0,
            position: Point { x, y },
            rotation,
            vision_f,
            vision_a,
            speed: config.sim_speed_max,
            eye,
            brain,
            satiation: 0,
            satiation_total: 0,
        }
    }

    /// A fresh creature with a fresh brain, at a random place and heading.
    pub fn random(config: &Config, rng: &mut StdRng) -> (r: Animal)
        requires
            config.wf(),
        ensures
            r.wf(),
            r.eye == config.sensor(),
            r.generation_age == 0,
            r.satiation == 0,
            r.satiation_total == 0,
            r.speed == config.sim_speed_max,
            r.blank_caches(),
            r.brain.speed_accel_spec() == config.sim_speed_accel,
            r.brain.rotation_accel_spec() == config.sim_rotation_accel,
            crate::network::is_standard(r.brain.network().topology, config.eye_cells as nat),
            r.brain.network().genome.len() == 8 * config.eye_cells + 8,
            r.fresh(*config),
    {
        let brain = FlexBrain::random(config, rng);
        Self::new(config, rng, brain)
    }

    /// A fresh creature whose brain carries `genome`, at a random place and
    /// heading; fails unless the genome fits the standard wiring.
    pub fn from_chromosome(config: &Config, rng: &mut StdRng, genome: Vec<i32>) -> (r: Result<Animal, TopologyMismatch>)
        requires
            config.wf(),
        ensures
            r is Ok <==> genome@.len() == 8 * config.eye_cells + 8,
            r matches Ok(a) ==> a.wf() && a.brain.network().genome == genome@ && a.eye == config.sensor()
                && a.generation_age == 0 && a.satiation == 0 && a.satiation_total == 0 && a.speed
                == config.sim_speed_max && a.brain.speed_accel_spec() == config.sim_speed_accel
                && a.brain.rotation_accel_spec() == config.sim_rotation_accel && a.blank_caches()
                && crate::network::is_standard(a.brain.network().topology, config.eye_cells as nat),
    {
        match FlexBrain::from_chromosome(config, genome) {
            Ok(brain) => Ok(Self::new(config, rng, brain)),
            Err(e) => Err(e),
        }
    }

    pub fn position(&self) -> (r: Point)
        ensures
            r == self.position,
    {
        self.position
    }

    pub fn rotation(&self) -> (r: u32)
        ensures
            r == self.rotation,
    {
        self.rotation
    }

    /// The food readings of the last sensing.
    pub fn vision(&self) -> (r: Vec<i64>)
        ensures
            r@ == self.vision_f@,
    {
        self.vision_f.clone()
    }

    pub fn satiation(&self) -> (r: usize)
        ensures
            r == self.satiation,
    {
        self.satiation
    }

    /// Running mean of food eaten per completed epoch, in `ONE` units
    /// (rounded down); zero before the first completed epoch.
    pub fn satiation_avg(&self) -> (r: u128)
        ensures
            self.generation_age == 0 ==> r == 0,
            self.generation_age > 0 ==> r == (self.satiation_total as int) * (ONE as int) / (
            self.generation_age as int),
    {
        if self.generation_age == 0 {
            0
        } else {
            let total = self.satiation_total as u128;
            assert(total * 65536 <= 0x1_0000_0000_0000_0000 * 65536) by (nonlinear_arith)
                requires
                    total <= 0xffff_ffff_ffff_ffff,
            ;
            total * 65536 / (self.generation_age as u128)
        }
    }

    /// The genome of the creature's network number `nv_num` (there is the
    /// one network, number 0).
    pub fn as_chromosome(&self, nv_num: usize) -> (r: Vec<i32>)
        requires
            nv_num == 0,
        ensures
            r@ == self.brain.network().genome,
    {
        self.brain.as_chromosome(nv_num)
    }

    /// What the creature senses: food readings and neighbour readings, the
    /// creature itself (index `cur` among `animals`) left out.
    pub fn process_vision(&self, foods: &Vec<Point>, animals: &Vec<Point>, cur: usize) -> (r: (Vec<i64>, Vec<(usize, i64)>))
        requires
            self.wf(),
            foods@.len() <= MAX_TARGETS,
        ensures
            r.0@.len() == self.eye.cells,
            r.1@.len() == self.eye.cells,
            forall|k: int| 0 <= k < self.eye.cells ==> #[trigger] r.0@[k] >= 0,
            forall|k: int|
                0 <= k < self.eye.cells ==> r.0@[k] == crate::eye::food_reading(
                    self.eye,
                    self.position,
                    self.rotation,
                    foods@,
                    foods@.len() as int,
                    k,
                ),
            forall|k: int|
                0 <= k < self.eye.cells ==> {
                    let (a, c) = #[trigger] crate::eye::neighbor_reading(
                        self.eye,
                        self.position,
                        self.rotation,
                        animals@,
                        cur as int,
                        animals@.len() as int,
                        k,
                    );
                    r.1@[k].0 == a && r.1@[k].1 == c
                },
    {
        let vf = self.eye.sense_food(self.position, self.rotation, foods);
        let va = self.eye.sense_neighbors(self.position, self.rotation, animals, cur);
        (vf, va)
    }

    /// Speed and heading after thinking: the speed changes by the brain's
    /// response and is clamped to `[speed_min, speed_max]`; the heading turns
    /// by the response.
    pub fn process_brain(&mut self, config: &Config)
        requires
            old(self).wf(),
            config.wf(),
        ensures
            final(self).wf(),
            final(self).speed as int == clamp(
                old(self).speed + old(self).brain.response(
                    old(self).vision_f@,
                    old(self).vision_a@.map_values(|p: (usize, i64)| p.1),
                ).0,
                config.sim_speed_min as int,
                config.sim_speed_max as int,
            ),
            final(self).rotation as int == wrap(
                old(self).rotation + old(self).brain.response(
                    old(self).vision_f@,
                    old(self).vision_a@.map_values(|p: (usize, i64)| p.1),
                ).1,
            ),
            config.sim_speed_min <= final(self).speed <= config.sim_speed_max,
            final(self).position == old(self).position,
            final(self).brain == old(self).brain,
            final(self).eye == old(self).eye,
            final(self).satiation == old(self).satiation,
            final(self).satiation_total == old(self).satiation_total,
            final(self).generation_age == old(self).generation_age,
            final(self).generation_lifetime == old(self).generation_lifetime,
            final(self).vision_f == old(self).vision_f,
            final(self).vision_a == old(self).vision_a,
    {
        let mut conc: Vec<i64> = Vec::new();
        let mut k: usize = 0;
        while k < self.vision_a.len()
            invariant
                k <= self.vision_a@.len(),
                conc@ == self.vision_a@.map_values(|p: (usize, i64)| p.1).subrange(0, k as int),
            decreases self.vision_a@.len() - k,
        {
            conc.push(self.vision_a[k].1);
            k = k + 1;
        }
        assert(conc@ == self.vision_a@.map_values(|p: (usize, i64)| p.1));
        let (ds, dr) = self.brain.propagate_0(&self.vision_f, &conc).unwrap();
        proof {
            assert(-0x8000_0000 < dr < 0x8000_0000) by {
                crate::brain::lemma_turn_bounded(self.brain, self.vision_f@, conc@);
            }
        }
        let s: i64 = self.speed as i64 + ds;
        let lo = config.sim_speed_min as i64;
        let hi = config.sim_speed_max as i64;
        self.speed = if s < lo {
            lo as u32
        } else if s > hi {
            hi as u32
        } else {
            s as u32
        };
        self.rotation = wrap_add(self.rotation, dr);
    }

    /// One step along the heading at the current speed, wrapped onto the torus.
    pub fn process_movement(&mut self)
        requires
            old(self).wf(),
        ensures
            final(self).wf(),
            final(self).position.x as int == wrap(old(self).position.x + step_x(old(self).speed as int, old(self).rotation)),
            final(self).position.y as int == wrap(old(self).position.y + step_y(old(self).speed as int, old(self).rotation)),
            final(self).rotation == old(self).rotation,
            final(self).speed == old(self).speed,
            final(self).brain == old(self).brain,
            final(self).eye == old(self).eye,
            final(self).vision_f == old(self).vision_f,
            final(self).vision_a == old(self).vision_a,
            final(self).satiation == old(self).satiation,
            final(self).satiation_total == old(self).satiation_total,
            final(self).generation_age == old(self).generation_age,
            final(self).generation_lifetime == old(self).generation_lifetime,
    {
        let sn = sin_of(self.rotation);
        let cs = cos_of(self.rotation);
        let sp = self.speed as i64;
        let dx = -scale_speed(sn, sp);
        let dy = scale_speed(cs, sp);
        self.position = Point { x: wrap_add(self.position.x, dx), y: wrap_add(self.position.y, dy) };
    }
}

impl Animal {
    /// Closes an epoch for this creature: one more epoch lived, and this
    /// epoch's food added to the lifetime sum (which stops at `u64::MAX`).
    pub fn record_epoch(&mut self)
        ensures
            final(self).generation_age as int == bump(old(self).generation_age as int),
            final(self).satiation_total as int == if old(self).satiation_total + old(self).satiation
                <= u64::MAX {
                old(self).satiation_total + old(self).satiation
            } else {
                u64::MAX as int
            },
            old(self).satiation_total + old(self).satiation <= u64::MAX && old(self).generation_age
                < usize::MAX ==> final(self).mean_satiation() == close_epoch(
                old(self).mean_satiation(),
                old(self).satiation as int,
            ),
            final(self).satiation == old(self).satiation,
            final(self).position == old(self).position,
            final(self).rotation == old(self).rotation,
            final(self).speed == old(self).speed,
            final(self).brain == old(self).brain,
            final(self).eye == old(self).eye,
            final(self).vision_f == old(self).vision_f,
            final(self).vision_a == old(self).vision_a,
            final(self).generation_lifetime == old(self).generation_lifetime,
    {
        if self.generation_age < usize::MAX {
            self.generation_age = self.generation_age + 1;
        }
        let s = self.satiation as u64;
        if self.satiation_total <= u64::MAX - s {
            self.satiation_total = self.satiation_total + s;
        } else {
            self.satiation_total = u64::MAX;
        }
    }
}

/// Lifetime sum and epochs lived after closing an epoch with satiation `s`.
pub open spec fn close_epoch(state: (int, int), s: int) -> (int, int) {
    (state.0 + s, state.1 + 1)
}

/// Lifetime sum and epochs lived after closing epochs with satiations `ss`,
/// in order, starting from a fresh creature.
pub open spec fn after_epochs(ss: Seq<nat>) -> (int, int)
    decreases ss.len(),
{
    if ss.len() == 0 {
        (0, 0)
    } else {
        close_epoch(after_epochs(ss.drop_last()), ss.last() as int)
    }
}

/// Sum of satiations.
pub open spec fn satiation_sum(ss: Seq<nat>) -> int
    decreases ss.len(),
{
    if ss.len() == 0 {
        0
    } else {
        satiation_sum(ss.drop_last()) + ss.last()
    }
}

/// After epochs with satiations `s_1..s_n` a fresh creature's running mean
/// `mean_satiation` is exactly `(s_1 + ... + s_n) / n`; each epoch's update
/// is the incremental mean `(mean * (n - 1) + s_n) / n`.
pub proof fn lemma_running_mean(ss: Seq<nat>)
    ensures
        after_epochs(ss).0 == satiation_sum(ss),
        after_epochs(ss).1 == ss.len(),
        ss.len() > 0 ==> after_epochs(ss).0 == after_epochs(ss.drop_last()).0 + ss.last(),
    decreases ss.len(),
{
    if ss.len() > 0 {
        lemma_running_mean(ss.drop_last());
    }
}

/// A creature's lifetime record over successive epoch closes: it starts
/// with no epochs behind it, and `states[i + 1]` is `states[i]` after the
/// close of an epoch in which it ate `ss[i]` (as `record_epoch` and
/// `Simulation::step` state it when nothing saturates). Between closes the
/// record does not change.
pub open spec fn epoch_chain(states: Seq<Animal>, ss: Seq<nat>) -> bool {
    &&& states.len() == ss.len() + 1
    &&& states[0].mean_satiation() == (0int, 0int)
    &&& forall|i: int|
        0 <= i < ss.len() ==> (#[trigger] states[i + 1]).mean_satiation() == close_epoch(
            states[i].mean_satiation(),
            ss[i] as int,
        )
}

/// After epochs in which a creature ate `s_1..s_n`, its running mean
/// `mean_satiation` is `(s_1 + ... + s_n) / n`.
pub proof fn lemma_mean_after_epochs(states: Seq<Animal>, ss: Seq<nat>)
    requires
        epoch_chain(states, ss),
    ensures
        states.last().mean_satiation() == (satiation_sum(ss), ss.len() as int),
    decreases ss.len(),
{
    if ss.len() > 0 {
        let pre = states.drop_last();
        let sp = ss.drop_last();
        assert(epoch_chain(pre, sp)) by {
            assert forall|i: int| 0 <= i < sp.len() implies (#[trigger] pre[i + 1]).mean_satiation() == close_epoch(
                pre[i].mean_satiation(),
                sp[i] as int,
            ) by {
                assert(pre[i + 1] == states[i + 1]);
            }
        }
        lemma_mean_after_epochs(pre, sp);
        let n = ss.len() - 1;
        assert(states[n + 1] == states.last());
        assert(states[n] == pre.last());
        assert(sp.len() == n);
    }
}

/// `states[i + 1]` is where `states[i]` lands after `process_movement`,
/// for each consecutive pair.
pub open spec fn movement_chain(states: Seq<Animal>) -> bool {
    forall|i: int|
        0 <= i < states.len() - 1 ==> {
            &&& (#[trigger] states[i + 1]).position.x as int == wrap(
                states[i].position.x + step_x(states[i].speed as int, states[i].rotation),
            )
            &&& states[i + 1].position.y as int == wrap(
                states[i].position.y + step_y(states[i].speed as int, states[i].rotation),
            )
        }
}

/// The x displacements of the moves along a chain.
pub open spec fn x_moves(states: Seq<Animal>) -> Seq<int> {
    Seq::new((states.len() - 1) as nat, |i: int| step_x(states[i].speed as int, states[i].rotation))
}

/// The y displacements of the moves along a chain.
pub open spec fn y_moves(states: Seq<Animal>) -> Seq<int> {
    Seq::new((states.len() - 1) as nat, |i: int| step_y(states[i].speed as int, states[i].rotation))
}

proof fn lemma_chain_is_moved(states: Seq<Animal>)
    requires
        states.len() >= 1,
        movement_chain(states),
    ensures
        states.last().position.x as int == moved(states[0].position.x as int, x_moves(states)),
        states.last().position.y as int == moved(states[0].position.y as int, y_moves(states)),
    decreases states.len(),
{
    if states.len() > 1 {
        let pre = states.drop_last();
        assert(movement_chain(pre)) by {
            assert forall|i: int| 0 <= i < pre.len() - 1 implies {
                &&& (#[trigger] pre[i + 1]).position.x as int == wrap(
                    pre[i].position.x + step_x(pre[i].speed as int, pre[i].rotation),
                )
                &&& pre[i + 1].position.y as int == wrap(
                    pre[i].position.y + step_y(pre[i].speed as int, pre[i].rotation),
                )
            } by {
                assert(pre[i + 1] == states[i + 1]);
            }
        }
        lemma_chain_is_moved(pre);
        assert(x_moves(pre) =~= x_moves(states).drop_last());
        assert(y_moves(pre) =~= y_moves(states).drop_last());
        let n = states.len() - 1;
        assert(states[n] == states.last());
        assert(states[n - 1] == pre.last());
        assert(x_moves(states).last() == step_x(states[n - 1].speed as int, states[n - 1].rotation));
        assert(y_moves(states).last() == step_y(states[n - 1].speed as int, states[n - 1].rotation));
        assert(states[(n - 1) + 1].position.x as int == wrap(
            states[n - 1].position.x + step_x(states[n - 1].speed as int, states[n - 1].rotation),
        ));
    } else {
        assert(x_moves(states) =~= Seq::<int>::empty());
        assert(y_moves(states) =~= Seq::<int>::empty());
    }
}

/// On the torus, successive moves of a creature whose displacements add up
/// to whole sides along a coordinate (one side being 1.0) bring that
/// coordinate back to where it started.
pub proof fn lemma_moves_return(states: Seq<Animal>, x_sides: int, y_sides: int)
    requires
        states.len() >= 1,
        movement_chain(states),
    ensures
        total(x_moves(states)) == x_sides * TURN ==> states.last().position.x == states[0].position.x,
        total(y_moves(states)) == y_sides * TURN ==> states.last().position.y == states[0].position.y,
{
    lemma_chain_is_moved(states);
    if total(x_moves(states)) == x_sides * TURN {
        lemma_whole_sides_return(states[0].position.x as int, x_moves(states), x_sides);
    }
    if total(y_moves(states)) == y_sides * TURN {
        lemma_whole_sides_return(states[0].position.y as int, y_moves(states), y_sides);
    }
}

/// `v * speed / ONE` rounded toward zero, for `|v| <= ONE`.
fn scale_speed(v: i64, speed: i64) -> (r: i64)
    requires
        -ONE <= v <= ONE,
        0 <= speed <= MAX_SPEED,
    ensures
        r == scaled(v as int, speed as int, ONE as int),
        -speed <= r <= speed,
{
    let m: i64 = if v >= 0 { v } else { -v };
    assert(0 <= m * speed <= ONE * MAX_SPEED) by (nonlinear_arith)
        requires
            0 <= m <= ONE,
            0 <= speed <= MAX_SPEED,
    ;
    assert((m as int) * (speed as int) / (ONE as int) <= speed) by (nonlinear_arith)
        requires
            0 <= m <= ONE,
            0 <= speed,
    {
        vstd::arithmetic::div_mod::lemma_div_is_ordered((m as int) * (speed as int), (ONE as int) * (speed as int), ONE as int);
        vstd::arithmetic::div_mod::lemma_div_by_multiple(speed as int, ONE as int);
    }
    assert((m as int) * (speed as int) / (ONE as int) >= 0) by (nonlinear_arith)
        requires
            (m as int) * (speed as int) >= 0,
    ;
    if v >= 0 {
        m * speed / ONE
    } else {
        -(m * speed / ONE)
    }
}

} // verus!
