//! The world and the control loop: feeding, sensing, thinking and moving in
//! strict phases, and the reconciliation that hands the population to an
//! evolutionary engine and applies its verdicts in place.
use crate::animal::{bump, close_epoch, step_x, step_y, Animal};
use crate::animal_individual::{AnimalIndividual, Outcome};
use crate::config::Config;
use crate::eye::{food_reading, neighbor_reading, offset, offset_exec, Eye, MAX_TARGETS};
use crate::network::clamp;
use crate::geometry::{wrap, Point};
use crate::median::{is_lower_median, lower_median};
use crate::rng::draw_u32;
use rand::rngs::StdRng;
use vstd::prelude::*;

verus! {

/// Creatures and food, both of fixed number.
pub struct World {
    pub animals: Vec<Animal>,
    pub foods: Vec<Point>,
}

/// Whether a creature at `a` reaches food at `b`: their torus distance is at
/// most `size`.
pub open spec fn reaches(a: Point, b: Point, size: u32) -> bool {
    Eye::dist2(a, b) <= (size as int) * (size as int)
}

/// `a + k`, stopping at `usize::MAX`.
pub open spec fn capped_add(a: int, k: int) -> int {
    if a + k <= usize::MAX {
        a + k
    } else {
        usize::MAX as int
    }
}

/// Number of the first `m` food items that a creature at `p` reaches.
pub open spec fn reach_count(p: Point, foods: Seq<Point>, size: u32, m: int) -> nat
    decreases m,
{
    if m <= 0 || m > foods.len() {
        0
    } else {
        reach_count(p, foods, size, m - 1) + if reaches(p, foods[m - 1], size) {
            1nat
        } else {
            0nat
        }
    }
}

/// One creature's turn at feeding, from `before` to `after`: no item moves
/// but those the creature reaches.
pub open spec fn feeding_turn(p: Point, before: Seq<Point>, after: Seq<Point>, size: u32) -> bool {
    &&& after.len() == before.len()
    &&& forall|k: int| 0 <= k < before.len() && !reaches(p, before[k], size) ==> after[k] == before[k]
}

/// A creature standing on a food item reaches it, whatever the capture
/// size: with that item alone in the world it eats exactly one.
pub proof fn lemma_food_underfoot_is_reached(p: Point, size: u32)
    ensures
        reaches(p, p, size),
        reach_count(p, seq![p], size, 1) == 1,
{
    assert(wrap(0) == 0);
    assert(offset(p.x, p.x) == 0);
    assert(offset(p.y, p.y) == 0);
    assert(0 <= (size as int) * (size as int)) by (nonlinear_arith);
    assert(reach_count(p, seq![p], size, 0) == 0);
}

/// `b` holds the readings that creature `a`, number `me` among creatures
/// at `positions`, takes of `foods` and of the others.
pub open spec fn sensed(a: Animal, b: Animal, foods: Seq<Point>, positions: Seq<Point>, me: int) -> bool {
    &&& b.vision_f@.len() == a.eye.cells
    &&& b.vision_a@.len() == a.eye.cells
    &&& forall|k: int|
        0 <= k < a.eye.cells ==> #[trigger] b.vision_f@[k] == food_reading(
            a.eye,
            a.position,
            a.rotation,
            foods,
            foods.len() as int,
            k,
        )
    &&& forall|k: int|
        0 <= k < a.eye.cells ==> {
            let (x, c) = #[trigger] neighbor_reading(a.eye, a.position, a.rotation, positions, me, positions.len() as int, k);
            b.vision_a@[k].0 == x && b.vision_a@[k].1 == c
        }
}

/// `b` is creature `a` after thinking on the readings `b` holds: its speed
/// changed by the brain's response and clamped to the configured range,
/// its heading turned by the response.
pub open spec fn thought(a: Animal, b: Animal, config: Config) -> bool {
    let resp = b.brain.response(b.vision_f@, b.vision_a@.map_values(|p: (usize, i64)| p.1));
    &&& b.speed as int == clamp(a.speed + resp.0, config.sim_speed_min as int, config.sim_speed_max as int)
    &&& b.rotation as int == wrap(a.rotation + resp.1)
    &&& config.sim_speed_min <= b.speed <= config.sim_speed_max
}

/// What the feeding pass did, with `snaps[i]` the food as creature `i`
/// found it: each creature moved only items it reached, and its satiation
/// grew by the number of items it reached (stopping at `usize::MAX`).
pub open spec fn feeding_record(
    snaps: Seq<Seq<Point>>,
    before: Seq<Animal>,
    after: Seq<Animal>,
    foods0: Seq<Point>,
    foods1: Seq<Point>,
    size: u32,
) -> bool {
    &&& snaps.len() == before.len() + 1
    &&& after.len() == before.len()
    &&& snaps[0] == foods0
    &&& snaps.last() == foods1
    &&& forall|i: int|
        #![trigger snaps[i]]
        0 <= i < before.len() ==> {
            &&& feeding_turn(before[i].position, snaps[i], snaps[i + 1], size)
            &&& after[i].satiation as int == capped_add(
                before[i].satiation as int,
                reach_count(before[i].position, snaps[i], size, snaps[i].len() as int) as int,
            )
        }
}

/// Steps from step count `age` up to and including the one that closes the
/// epoch under `config`.
pub open spec fn steps_to_close(age: int, config: Config) -> int {
    if age <= config.sim_generation_length / 4 {
        config.sim_generation_length / 4 - age + 1
    } else {
        1
    }
}

/// `x`, stopping at `u64::MAX`.
pub open spec fn capped_total(x: int) -> int {
    if x <= u64::MAX {
        x
    } else {
        u64::MAX as int
    }
}

/// `b` is creature `a` after its epoch closed: one more epoch lived, the
/// epoch's satiation added to the lifetime sum, nothing else changed.
pub open spec fn closed_epoch(a: Animal, b: Animal) -> bool {
    &&& b.generation_age as int == bump(a.generation_age as int)
    &&& b.satiation_total as int == capped_total(a.satiation_total + a.satiation)
    &&& b.satiation == a.satiation
    &&& b.brain == a.brain
    &&& b.eye == a.eye
    &&& b.position == a.position
    &&& b.speed == a.speed
    &&& b.rotation == a.rotation
    &&& b.vision_f == a.vision_f
    &&& b.vision_a == a.vision_a
    &&& b.generation_lifetime == a.generation_lifetime
}

/// `m` is the population member that stands for creature `b`.
pub open spec fn member_of(m: AnimalIndividual, b: Animal) -> bool {
    &&& m.chromosome@ == b.brain.network().genome
    &&& m.fitness == (if b.generation_age == 0 {
        0
    } else {
        (b.satiation_total as int) * 65536 / (b.generation_age as int)
    })
    &&& m.life_time == b.generation_lifetime
    &&& !m.changed
    &&& m.mut_force == 1
}

/// Decides whether a creature at `a` reaches food at `b`.
pub fn within_reach(a: Point, b: Point, size: u32) -> (r: bool)
    ensures
        r == reaches(a, b, size),
{
    let dx = offset_exec(a.x, b.x);
    let dy = offset_exec(a.y, b.y);
    assert(0 <= dx * dx <= 0x4000_0000_0000_0000) by (nonlinear_arith)
        requires
            -0x8000_0000 <= dx <= 0x8000_0000,
    ;
    assert(0 <= dy * dy <= 0x4000_0000_0000_0000) by (nonlinear_arith)
        requires
            -0x8000_0000 <= dy <= 0x8000_0000,
    ;
    let s = size as u64;
    assert(s * s <= 0xffff_fffe_0000_0001) by (nonlinear_arith)
        requires
            s <= 0xffff_ffff,
    ;
    ((dx * dx) as u64 + (dy * dy) as u64) <= s * s
}

fn random_point(rng: &mut StdRng) -> (r: Point) {
    let x = draw_u32(rng);
    let y = draw_u32(rng);
    Point { x, y }
}

impl World {
    /// Every creature is well formed and senses as `config` says, and both
    /// populations are within scan limits.
    pub open spec fn wf(&self, config: Config) -> bool {
        &&& self.animals@.len() <= MAX_TARGETS
        &&& self.foods@.len() <= MAX_TARGETS
        &&& forall|i: int| 0 <= i < self.animals@.len() ==> (#[trigger] self.animals@[i]).wf()
            && self.animals@[i].eye == config.sensor()
    }

    /// A world of `world_animals` fresh creatures and `world_foods` food items
    /// at random places.
    pub fn random(config: &Config, rng: &mut StdRng) -> (r: World)
        requires
            config.wf(),
        ensures
            r.wf(*config),
            r.animals@.len() == config.world_animals,
            r.foods@.len() == config.world_foods,
            forall|i: int| 0 <= i < r.animals@.len() ==> (#[trigger] r.animals@[i]).fresh(*config),
    {
        let mut animals: Vec<Animal> = Vec::new();
        let mut i: usize = 0;
        while i < config.world_animals
            invariant
                config.wf(),
                i <= config.world_animals,
                animals@.len() == i,
                forall|q: int| 0 <= q < i ==> (#[trigger] animals@[q]).fresh(*config),
            decreases config.world_animals - i,
        {
            animals.push(Animal::random(config, rng));
            i = i + 1;
        }
        let mut foods: Vec<Point> = Vec::new();
        let mut j: usize = 0;
        while j < config.world_foods
            invariant
                j <= config.world_foods,
                foods@.len() == j,
            decreases config.world_foods - j,
        {
            foods.push(random_point(rng));
            j = j + 1;
        }
        World { animals, foods }
    }

    /// A world of the given creatures and food.
    pub fn new(animals: Vec<Animal>, foods: Vec<Point>) -> (r: World)
        ensures
            r.animals == animals,
            r.foods == foods,
    {
        World { animals, foods }
    }

    pub fn animals(&self) -> (r: &Vec<Animal>)
        ensures
            r == &self.animals,
    {
        &self.animals
    }

    pub fn foods(&self) -> (r: &Vec<Point>)
        ensures
            r == &self.foods,
    {
        &self.foods
    }

    /// Positions of the creatures, in order.
    pub open spec fn positions(&self) -> Seq<Point> {
        self.animals@.map_values(|a: Animal| a.position)
    }

    fn animal_positions(&self) -> (r: Vec<Point>)
        ensures
            r@ == self.positions(),
    {
        let mut r: Vec<Point> = Vec::new();
        let mut i: usize = 0;
        while i < self.animals.len()
            invariant
                i <= self.animals@.len(),
                r@ == self.positions().subrange(0, i as int),
            decreases self.animals@.len() - i,
        {
            r.push(self.animals[i].position);
            i = i + 1;
        }
        r
    }
}

/// What one epoch came to.
#[derive(Clone, Copy, Debug, PartialEq, Eq, Structural)]
pub struct Statistics {
    /// Number of the epoch that ended, counted from 0.
    pub generation: usize,
    /// How many creatures the engine replaced.
    pub replaced: usize,
    /// Lowest, highest and mean (rounded down) fitness of the epoch, in
    /// `ONE` units; zero for an empty population.
    pub min_fitness: u128,
    pub max_fitness: u128,
    pub avg_fitness: u128,
    /// Lower median fitness, in `ONE` units; zero for an empty population.
    pub median_fitness: u128,
    /// Neurons in the first, second and third layer of the creatures'
    /// networks.
    pub first_layer: usize,
    pub second_layer: usize,
    pub third_layer: usize,
}

/// Largest fitness a member can have: the largest lifetime sum in `ONE` units.
pub const FITNESS_CAP: u128 = 0xffff_ffff_ffff_ffff_0000;

/// Lowest of a non-empty sequence of fitness values.
pub open spec fn fitness_min(f: Seq<u128>) -> int
    decreases f.len(),
{
    if f.len() <= 1 {
        if f.len() == 0 { 0 } else { f[0] as int }
    } else {
        let m = fitness_min(f.drop_last());
        if (f.last() as int) < m { f.last() as int } else { m }
    }
}

/// Highest of a non-empty sequence of fitness values.
pub open spec fn fitness_max(f: Seq<u128>) -> int
    decreases f.len(),
{
    if f.len() <= 1 {
        if f.len() == 0 { 0 } else { f[0] as int }
    } else {
        let m = fitness_max(f.drop_last());
        if (f.last() as int) > m { f.last() as int } else { m }
    }
}

/// Sum of fitness values.
pub open spec fn fitness_sum(f: Seq<u128>) -> int
    decreases f.len(),
{
    if f.len() == 0 {
        0
    } else {
        fitness_sum(f.drop_last()) + f.last()
    }
}

/// Lowest, highest and mean (rounded down) of fitness values each at most
/// `FITNESS_CAP`; all zero for no values.
pub fn summarize(f: &Vec<u128>) -> (r: (u128, u128, u128))
    requires
        f@.len() <= MAX_TARGETS,
        forall|i: int| 0 <= i < f@.len() ==> f@[i] <= FITNESS_CAP,
    ensures
        r.0 == fitness_min(f@),
        r.1 == fitness_max(f@),
        f@.len() == 0 ==> r.2 == 0,
        f@.len() > 0 ==> r.2 == fitness_sum(f@) / (f@.len() as int),
{
    if f.len() == 0 {
        return (0, 0, 0);
    }
    let mut lo: u128 = f[0];
    let mut hi: u128 = f[0];
    let mut sum: u128 = f[0];
    let mut i: usize = 1;
    assert(f@.subrange(0, 1).drop_last() =~= Seq::<u128>::empty());
    assert(f@.subrange(0, 1).last() == f@[0]);
    assert(fitness_sum(Seq::<u128>::empty()) == 0);
    while i < f.len()
        invariant
            1 <= i <= f@.len(),
            f@.len() <= MAX_TARGETS,
            forall|q: int| 0 <= q < f@.len() ==> f@[q] <= FITNESS_CAP,
            lo == fitness_min(f@.subrange(0, i as int)),
            hi == fitness_max(f@.subrange(0, i as int)),
            sum == fitness_sum(f@.subrange(0, i as int)),
            sum <= (i as int) * (FITNESS_CAP as int),
        decreases f@.len() - i,
    {
        let v = f[i];
        assert(f@.subrange(0, i + 1).drop_last() =~= f@.subrange(0, i as int));
        if v < lo {
            lo = v;
        }
        if v > hi {
            hi = v;
        }
        assert((i as int) * (FITNESS_CAP as int) + FITNESS_CAP <= (MAX_TARGETS as int) * (FITNESS_CAP as int)) by (nonlinear_arith)
            requires
                i < MAX_TARGETS,
        ;
        sum = sum + v;
        assert(sum <= ((i + 1) as int) * (FITNESS_CAP as int)) by (nonlinear_arith)
            requires
                sum <= (i as int) * (FITNESS_CAP as int) + FITNESS_CAP,
        ;
        i = i + 1;
    }
    assert(f@.subrange(0, f@.len() as int) =~= f@);
    (lo, hi, sum / (f.len() as u128))
}

/// Why the engine's verdicts could not be applied.
#[derive(Clone, Copy, Debug, PartialEq, Eq, Structural)]
pub enum ReconcileError {
    /// There is not one verdict per creature.
    CountMismatch { expected: usize, found: usize },
    /// The replacement genome at this index does not fit the wiring.
    GenomeMismatch { index: usize, found: usize },
}

/// Number of `Replaced` verdicts among the first `n`.
pub open spec fn replaced_count(outcomes: Seq<Outcome>, n: int) -> nat
    decreases n,
{
    if n <= 0 || n > outcomes.len() {
        0
    } else {
        replaced_count(outcomes, n - 1) + if outcomes[n - 1] is Replaced {
            1nat
        } else {
            0nat
        }
    }
}

/// Length of a verdict's replacement genome; zero for a kept creature.
pub open spec fn genome_len_of(o: Outcome) -> nat {
    match o {
        Outcome::Kept(_) => 0,
        Outcome::Replaced(g, _) => g@.len(),
    }
}

/// A verdict fits a wiring with `len` genome entries: it keeps the creature
/// or replaces it with a genome of that length.
pub open spec fn fits(o: Outcome, len: nat) -> bool {
    match o {
        Outcome::Kept(_) => true,
        Outcome::Replaced(g, _) => g@.len() == len,
    }
}

/// An evolutionary engine: given the population in order, it returns one
/// verdict per member, in the same order.
pub trait Engine {
    fn evolve(&mut self, rng: &mut StdRng, population: &Vec<AnimalIndividual>) -> Vec<Outcome>;
}

/// A running simulation.
pub struct Simulation {
    rng: StdRng,
    config: Config,
    world: World,
    /// Number of completed epochs.
    generation: usize,
    /// Steps since the last reconciliation.
    age: usize,
    /// Steps taken since the run began, stopping at `u64::MAX`.
    steps: u64,
    /// Fitness of each creature at the last epoch close.
    fitness: Vec<u128>,
}

impl Simulation {
    pub closed spec fn config_spec(&self) -> Config {
        self.config
    }

    pub closed spec fn world_spec(&self) -> World {
        self.world
    }

    pub closed spec fn generation_spec(&self) -> usize {
        self.generation
    }

    pub closed spec fn age_spec(&self) -> usize {
        self.age
    }

    pub closed spec fn steps_spec(&self) -> u64 {
        self.steps
    }

    /// Valid settings, a world that is well formed for them (every creature
    /// well formed, with the configured sensor), a step count within the
    /// epoch, and bounded fitness records.
    pub open spec fn wf(&self) -> bool {
        &&& self.config_spec().wf()
        &&& self.world_spec().wf(self.config_spec())
        &&& self.fitness_spec().len() <= MAX_TARGETS
        &&& forall|i: int| 0 <= i < self.fitness_spec().len() ==> self.fitness_spec()[i] <= FITNESS_CAP
    }

    /// Fitness of each creature at the last epoch close.
    pub closed spec fn fitness_spec(&self) -> Seq<u128> {
        self.fitness@
    }

    /// A simulation of a random world drawn from `rng`, at epoch 0, step 0.
    pub fn random(config: Config, rng: StdRng) -> (r: Simulation)
        requires
            config.wf(),
        ensures
            r.wf(),
            r.config_spec() == config,
            r.generation_spec() == 0,
            r.age_spec() == 0,
            r.world_spec().animals@.len() == config.world_animals,
            r.world_spec().foods@.len() == config.world_foods,
            forall|i: int|
                0 <= i < r.world_spec().animals@.len() ==> (#[trigger] r.world_spec().animals@[i]).fresh(config),
    {
        let mut rng = rng;
        let world = World::random(&config, &mut rng);
        Simulation { rng, config, world, generation: 0, age: 0, steps: 0, fitness: Vec::new() }
    }

    /// A simulation of the given world, at epoch 0, step 0.
    pub fn with_world(config: Config, world: World, rng: StdRng) -> (r: Simulation)
        requires
            config.wf(),
            world.wf(config),
        ensures
            r.wf(),
            r.config_spec() == config,
            r.world_spec() == world,
            r.generation_spec() == 0,
            r.age_spec() == 0,
    {
        Simulation { rng, config, world, generation: 0, age: 0, steps: 0, fitness: Vec::new() }
    }

    pub fn config(&self) -> (r: &Config)
        ensures
            *r == self.config_spec(),
    {
        &self.config
    }

    /// Replaces the settings and draws a new world for them. The step
    /// counts are kept; if the epoch is already due under the new length, the
    /// next step closes it.
    pub fn set_config(&mut self, conf: Config)
        requires
            conf.wf(),
        ensures
            final(self).wf(),
            final(self).config_spec() == conf,
            final(self).generation_spec() == old(self).generation_spec(),
            final(self).age_spec() == old(self).age_spec(),
            final(self).steps_spec() == old(self).steps_spec(),
            final(self).world_spec().animals@.len() == conf.world_animals,
            final(self).world_spec().foods@.len() == conf.world_foods,
            forall|i: int|
                0 <= i < final(self).world_spec().animals@.len() ==> (#[trigger] final(self).world_spec().animals@[i]).fresh(conf),
    {
        self.config = conf;
        self.world = World::random(&self.config, &mut self.rng);
        self.fitness = Vec::new();
    }

    pub fn world(&self) -> (r: &World)
        ensures
            *r == self.world_spec(),
    {
        &self.world
    }

    /// Steps taken since the run began, stopping at `u64::MAX`.
    pub fn steps(&self) -> (r: u64)
        ensures
            r == self.steps_spec(),
    {
        self.steps
    }

    /// Steps since the last epoch close.
    pub fn age(&self) -> (r: usize)
        ensures
            r == self.age_spec(),
    {
        self.age
    }

    pub fn generation(&self) -> (r: usize)
        ensures
            r == self.generation_spec(),
    {
        self.generation
    }

    /// Feeding pass: each creature, in order, checks each food item, in
    /// order; on reach it eats (its satiation grows by one) and the item is
    /// moved to a random place at once, so later creatures see it there.
    /// The ghost result lists the food as each creature found it, and as it
    /// was left at the end.
    fn process_collisions(&mut self) -> (snaps: Ghost<Seq<Seq<Point>>>)
        requires
            old(self).wf(),
        ensures
            final(self).wf(),
            final(self).config == old(self).config,
            final(self).generation == old(self).generation,
            final(self).age == old(self).age,
            final(self).fitness == old(self).fitness,
            final(self).world.foods@.len() == old(self).world.foods@.len(),
            final(self).world.animals@.len() == old(self).world.animals@.len(),
            feeding_record(
                snaps@,
                old(self).world.animals@,
                final(self).world.animals@,
                old(self).world.foods@,
                final(self).world.foods@,
                old(self).config.food_size,
            ),
            forall|i: int|
                0 <= i < old(self).world.animals@.len() ==> {
                    let (a, b) = (old(self).world.animals@[i], #[trigger] final(self).world.animals@[i]);
                    &&& b.position == a.position
                    &&& b.rotation == a.rotation
                    &&& b.speed == a.speed
                    &&& b.brain == a.brain
                    &&& b.eye == a.eye
                    &&& b.vision_f == a.vision_f
                    &&& b.vision_a == a.vision_a
                    &&& b.satiation_total == a.satiation_total
                    &&& b.generation_age == a.generation_age
                    &&& b.generation_lifetime == a.generation_lifetime
                    &&& feeding_turn(a.position, snaps@[i], snaps@[i + 1], old(self).config.food_size)
                    &&& b.satiation as int == capped_add(
                        a.satiation as int,
                        reach_count(a.position, snaps@[i], old(self).config.food_size, snaps@[i].len() as int) as int,
                    )
                },
    {
        let n = self.world.animals.len();
        let size = self.config.food_size;
        let ghost mut snaps: Seq<Seq<Point>> = seq![self.world.foods@];
        let mut i: usize = 0;
        while i < n
            invariant
                self.wf(),
                n == self.world.animals@.len(),
                size == self.config.food_size,
                i <= n,
                self.config == old(self).config,
                self.generation == old(self).generation,
                self.age == old(self).age,
                self.fitness == old(self).fitness,
                self.world.foods@.len() == old(self).world.foods@.len(),
                self.world.animals@.len() == old(self).world.animals@.len(),
                snaps.len() == i + 1,
                snaps[0] == old(self).world.foods@,
                snaps.last() == self.world.foods@,
                forall|q: int|
                    0 <= q < n ==> {
                        let (a, b) = (old(self).world.animals@[q], #[trigger] self.world.animals@[q]);
                        &&& b.position == a.position
                        &&& b.rotation == a.rotation
                        &&& b.speed == a.speed
                        &&& b.brain == a.brain
                        &&& b.vision_f == a.vision_f
                        &&& b.vision_a == a.vision_a
                        &&& b.eye == a.eye
                        &&& b.satiation_total == a.satiation_total
                        &&& b.generation_age == a.generation_age
                        &&& b.generation_lifetime == a.generation_lifetime
                        &&& q >= i ==> b.satiation == a.satiation
                        &&& q < i ==> feeding_turn(a.position, snaps[q], snaps[q + 1], size)
                            && b.satiation as int == capped_add(
                            a.satiation as int,
                            reach_count(a.position, snaps[q], size, snaps[q].len() as int) as int,
                        )
                    },
            decreases n - i,
        {
            let ghost before = self.world.foods@;
            let ghost start = self.world.animals@[i as int].satiation;
            let ghost pos = self.world.animals@[i as int].position;
            let mut j: usize = 0;
            while j < self.world.foods.len()
                invariant
                    self.wf(),
                    n == self.world.animals@.len(),
                    size == self.config.food_size,
                    i < n,
                    self.config == old(self).config,
                    self.generation == old(self).generation,
                    self.age == old(self).age,
                    self.fitness == old(self).fitness,
                    self.world.foods@.len() == before.len(),
                    before.len() == old(self).world.foods@.len(),
                    self.world.animals@.len() == old(self).world.animals@.len(),
                    j <= before.len(),
                    pos == self.world.animals@[i as int].position,
                    self.world.animals@[i as int].satiation as int == capped_add(
                        start as int,
                        reach_count(pos, before, size, j as int) as int,
                    ),
                    forall|k: int| j <= k < before.len() ==> self.world.foods@[k] == before[k],
                    forall|k: int|
                        0 <= k < j && !reaches(pos, before[k], size) ==> self.world.foods@[k] == before[k],
                    forall|q: int|
                        0 <= q < n ==> {
                            let (a, b) = (old(self).world.animals@[q], #[trigger] self.world.animals@[q]);
                            &&& b.position == a.position
                            &&& b.rotation == a.rotation
                            &&& b.speed == a.speed
                            &&& b.brain == a.brain
                            &&& b.vision_f == a.vision_f
                            &&& b.vision_a == a.vision_a
                            &&& b.eye == a.eye
                            &&& b.satiation_total == a.satiation_total
                            &&& b.generation_age == a.generation_age
                            &&& b.generation_lifetime == a.generation_lifetime
                            &&& q > i ==> b.satiation == a.satiation
                            &&& q == i ==> a.satiation == start
                            &&& q < i ==> feeding_turn(a.position, snaps[q], snaps[q + 1], size)
                                && b.satiation as int == capped_add(
                                a.satiation as int,
                                reach_count(a.position, snaps[q], size, snaps[q].len() as int) as int,
                            )
                        },
                decreases before.len() - j,
            {
                if within_reach(self.world.animals[i].position, self.world.foods[j], size) {
                    let s = self.world.animals[i].satiation;
                    if s < usize::MAX {
                        self.world.animals[i].satiation = s + 1;
                    }
                    let p = random_point(&mut self.rng);
                    self.world.foods.set(j, p);
                }
                j = j + 1;
            }
            proof {
                snaps = snaps.push(self.world.foods@);
            }
            i = i + 1;
        }
        proof {
            let fin = self.world.animals@;
            let start = old(self).world.animals@;
            assert forall|q: int| #![trigger snaps[q]] 0 <= q < n implies {
                &&& feeding_turn(start[q].position, snaps[q], snaps[q + 1], size)
                &&& fin[q].satiation as int == capped_add(
                    start[q].satiation as int,
                    reach_count(start[q].position, snaps[q], size, snaps[q].len() as int) as int,
                )
            } by {
                assert(fin[q] == self.world.animals@[q]);
            }
        }
        Ghost(snaps)
    }

    /// Sensing pass, then thinking pass: every creature first senses the
    /// world as it stands, and only then does any creature think.
    fn process_brains(&mut self)
        requires
            old(self).wf(),
        ensures
            final(self).wf(),
            final(self).config == old(self).config,
            final(self).generation == old(self).generation,
            final(self).age == old(self).age,
            final(self).fitness == old(self).fitness,
            final(self).world.foods == old(self).world.foods,
            final(self).world.animals@.len() == old(self).world.animals@.len(),
            forall|i: int|
                0 <= i < old(self).world.animals@.len() ==> {
                    let (a, b) = (old(self).world.animals@[i], #[trigger] final(self).world.animals@[i]);
                    &&& b.position == a.position
                    &&& b.brain == a.brain
                    &&& b.eye == a.eye
                    &&& b.satiation == a.satiation
                    &&& b.satiation_total == a.satiation_total
                    &&& b.generation_age == a.generation_age
                    &&& b.generation_lifetime == a.generation_lifetime
                    &&& sensed(a, b, old(self).world.foods@, old(self).world.positions(), i)
                    &&& thought(a, b, old(self).config)
                },
    {
        let n = self.world.animals.len();
        let positions = self.world.animal_positions();
        let mut i: usize = 0;
        while i < n
            invariant
                self.wf(),
                n == self.world.animals@.len(),
                i <= n,
                positions@ == old(self).world.positions(),
                self.config == old(self).config,
                self.generation == old(self).generation,
                self.age == old(self).age,
                self.fitness == old(self).fitness,
                self.world.foods == old(self).world.foods,
                self.world.animals@.len() == old(self).world.animals@.len(),
                forall|q: int|
                    0 <= q < n ==> {
                        let (a, b) = (old(self).world.animals@[q], #[trigger] self.world.animals@[q]);
                        &&& b.position == a.position
                        &&& b.rotation == a.rotation
                        &&& b.speed == a.speed
                        &&& b.brain == a.brain
                        &&& b.eye == a.eye
                        &&& b.satiation == a.satiation
                        &&& b.satiation_total == a.satiation_total
                        &&& b.generation_age == a.generation_age
                        &&& b.generation_lifetime == a.generation_lifetime
                        &&& q < i ==> sensed(a, b, old(self).world.foods@, positions@, q)
                    },
            decreases n - i,
        {
            let (vf, va) = self.world.animals[i].process_vision(&self.world.foods, &positions, i);
            self.world.animals[i].vision_f = vf;
            self.world.animals[i].vision_a = va;
            i = i + 1;
        }
        let mut i: usize = 0;
        while i < n
            invariant
                self.wf(),
                n == self.world.animals@.len(),
                i <= n,
                positions@ == old(self).world.positions(),
                self.config == old(self).config,
                self.generation == old(self).generation,
                self.age == old(self).age,
                self.fitness == old(self).fitness,
                self.world.foods == old(self).world.foods,
                self.world.animals@.len() == old(self).world.animals@.len(),
                forall|q: int|
                    0 <= q < n ==> {
                        let (a, b) = (old(self).world.animals@[q], #[trigger] self.world.animals@[q]);
                        &&& b.position == a.position
                        &&& b.brain == a.brain
                        &&& b.eye == a.eye
                        &&& b.satiation == a.satiation
                        &&& b.satiation_total == a.satiation_total
                        &&& b.generation_age == a.generation_age
                        &&& b.generation_lifetime == a.generation_lifetime
                        &&& sensed(a, b, old(self).world.foods@, positions@, q)
                        &&& q >= i ==> b.speed == a.speed && b.rotation == a.rotation
                        &&& q < i ==> thought(a, b, old(self).config)
                    },
            decreases n - i,
        {
            self.world.animals[i].process_brain(&self.config);
            i = i + 1;
        }
    }

    /// Movement pass: every creature takes one step along its heading.
    fn process_movements(&mut self)
        requires
            old(self).wf(),
        ensures
            final(self).wf(),
            final(self).config == old(self).config,
            final(self).generation == old(self).generation,
            final(self).age == old(self).age,
            final(self).world.foods == old(self).world.foods,
            final(self).world.animals@.len() == old(self).world.animals@.len(),
            forall|i: int|
                0 <= i < old(self).world.animals@.len() ==> {
                    let (a, b) = (old(self).world.animals@[i], #[trigger] final(self).world.animals@[i]);
                    &&& b.position.x as int == wrap(a.position.x + crate::animal::step_x(a.speed as int, a.rotation))
                    &&& b.position.y as int == wrap(a.position.y + crate::animal::step_y(a.speed as int, a.rotation))
                    &&& b.speed == a.speed
                    &&& b.rotation == a.rotation
                    &&& b.brain == a.brain
                    &&& b.eye == a.eye
                    &&& b.vision_f == a.vision_f
                    &&& b.vision_a == a.vision_a
                    &&& b.satiation == a.satiation
                    &&& b.satiation_total == a.satiation_total
                    &&& b.generation_age == a.generation_age
                    &&& b.generation_lifetime == a.generation_lifetime
                },
    {
        let n = self.world.animals.len();
        let mut i: usize = 0;
        while i < n
            invariant
                self.wf(),
                n == self.world.animals@.len(),
                i <= n,
                self.config == old(self).config,
                self.generation == old(self).generation,
                self.age == old(self).age,
                self.world.foods == old(self).world.foods,
                self.world.animals@.len() == old(self).world.animals@.len(),
                forall|q: int|
                    0 <= q < n ==> {
                        let (a, b) = (old(self).world.animals@[q], #[trigger] self.world.animals@[q]);
                        &&& q < i ==> b.position.x as int == wrap(a.position.x + crate::animal::step_x(a.speed as int, a.rotation))
                            && b.position.y as int == wrap(a.position.y + crate::animal::step_y(a.speed as int, a.rotation))
                        &&& q >= i ==> b.position == a.position
                        &&& b.speed == a.speed
                        &&& b.rotation == a.rotation
                        &&& b.brain == a.brain
                        &&& b.eye == a.eye
                        &&& b.vision_f == a.vision_f
                        &&& b.vision_a == a.vision_a
                        &&& b.satiation == a.satiation
                        &&& b.satiation_total == a.satiation_total
                        &&& b.generation_age == a.generation_age
                        &&& b.generation_lifetime == a.generation_lifetime
                    },
            decreases n - i,
        {
            self.world.animals[i].process_movement();
            i = i + 1;
        }
    }

    /// Closes the epoch for every creature and lists the population for the
    /// engine, in creature order.
    fn evolve(&mut self) -> (r: Vec<AnimalIndividual>)
        requires
            old(self).wf(),
        ensures
            final(self).wf(),
            final(self).config == old(self).config,
            final(self).age == 0,
            final(self).generation as int == bump(old(self).generation as int),
            final(self).world.foods == old(self).world.foods,
            final(self).world.animals@.len() == old(self).world.animals@.len(),
            r@.len() == final(self).world.animals@.len(),
            forall|i: int|
                0 <= i < r@.len() ==> closed_epoch(old(self).world.animals@[i], #[trigger] final(self).world.animals@[i])
                    && member_of(r@[i], final(self).world.animals@[i]),
    {
        self.age = 0;
        if self.generation < usize::MAX {
            self.generation = self.generation + 1;
        }
        let n = self.world.animals.len();
        let mut pop: Vec<AnimalIndividual> = Vec::new();
        let mut fit: Vec<u128> = Vec::new();
        let mut i: usize = 0;
        while i < n
            invariant
                fit@.len() == i,
                forall|q: int| 0 <= q < i ==> fit@[q] <= FITNESS_CAP && fit@[q] == pop@[q].fitness,
                self.wf(),
                n == self.world.animals@.len(),
                i <= n,
                self.config == old(self).config,
                self.age == 0,
                self.generation as int == bump(old(self).generation as int),
                self.world.foods == old(self).world.foods,
                self.world.animals@.len() == old(self).world.animals@.len(),
                pop@.len() == i,
                forall|q: int|
                    0 <= q < n ==> {
                        let (a, b) = (old(self).world.animals@[q], #[trigger] self.world.animals@[q]);
                        &&& q >= i ==> b == a
                        &&& q < i ==> closed_epoch(a, b) && member_of(pop@[q], b)
                    },
            decreases n - i,
        {
            let ghost prev = self.world.animals@;
            self.world.animals[i].record_epoch();
            assert(forall|q: int| 0 <= q < n && q != i ==> self.world.animals@[q] == prev[q]);
            let member = AnimalIndividual::from_animal(&self.world.animals[i], 0);
            proof {
                let a = self.world.animals@[i as int];
                if a.generation_age > 0 {
                    assert((a.satiation_total as int) * 65536 / (a.generation_age as int) <= (a.satiation_total as int) * 65536) by (nonlinear_arith)
                        requires
                            a.generation_age > 0,
                            a.satiation_total >= 0,
                    {
                        vstd::arithmetic::div_mod::lemma_div_is_ordered_by_denominator((a.satiation_total as int) * 65536, 1, a.generation_age as int);
                    }
                }
            }
            let ghost pop_before = pop@;
            let ghost fit_before = fit@;
            fit.push(member.fitness);
            pop.push(member);
            assert(forall|q: int| 0 <= q < i ==> pop@[q] == pop_before[q] && fit@[q] == fit_before[q]);
            assert(pop@[i as int].chromosome@ == self.world.animals@[i as int].brain.network().genome);
            i = i + 1;
        }
        self.fitness = fit;
        pop
    }

    /// Counts the step; when more than a quarter of the epoch length has
    /// passed, closes the epoch and returns the population for the engine.
    fn try_evolving(&mut self) -> (r: Option<Vec<AnimalIndividual>>)
        requires
            old(self).wf(),
        ensures
            final(self).wf(),
            final(self).config == old(self).config,
            final(self).world.foods == old(self).world.foods,
            final(self).world.animals@.len() == old(self).world.animals@.len(),
            r is Some <==> old(self).age + 1 > old(self).config.sim_generation_length / 4,
            r is None ==> final(self).age == old(self).age + 1 && final(self).generation == old(self).generation
                && final(self).world == old(self).world,
            r matches Some(p) ==> final(self).age == 0 && final(self).generation as int == bump(
                old(self).generation as int,
            ) && p@.len() == final(self).world.animals@.len() && forall|i: int|
                0 <= i < p@.len() ==> closed_epoch(old(self).world.animals@[i], #[trigger] final(self).world.animals@[i])
                    && member_of(p@[i], final(self).world.animals@[i]),
    {
        if self.age >= self.config.sim_generation_length / 4 {
            Some(self.evolve())
        } else {
            self.age = self.age + 1;
            None
        }
    }

    /// One step: feeding, then sensing and thinking, then moving, then the
    /// epoch check. Returns the population for the engine when the epoch
    /// closed; hand the engine's verdicts to `reconcile`.
    #[verifier::rlimit(60)]
    pub fn step(&mut self) -> (r: Option<Vec<AnimalIndividual>>)
        requires
            old(self).wf(),
        ensures
            final(self).wf(),
            final(self).config_spec() == old(self).config_spec(),
            final(self).world_spec().animals@.len() == old(self).world_spec().animals@.len(),
            final(self).world_spec().foods@.len() == old(self).world_spec().foods@.len(),
            r is Some <==> old(self).age_spec() + 1 > old(self).config_spec().sim_generation_length / 4,
            final(self).steps_spec() as int == capped_total(old(self).steps_spec() + 1),
            r is None ==> final(self).age_spec() == old(self).age_spec() + 1 && final(self).generation_spec()
                == old(self).generation_spec(),
            r matches Some(p) ==> final(self).age_spec() == 0 && final(self).generation_spec() as int == bump(
                old(self).generation_spec() as int,
            ) && p@.len() == final(self).world_spec().animals@.len() && forall|i: int|
                0 <= i < p@.len() ==> member_of(p@[i], #[trigger] final(self).world_spec().animals@[i]),
            exists|snaps: Seq<Seq<Point>>|
                #[trigger] feeding_record(
                    snaps,
                    old(self).world_spec().animals@,
                    final(self).world_spec().animals@,
                    old(self).world_spec().foods@,
                    final(self).world_spec().foods@,
                    old(self).config_spec().food_size,
                ),
            forall|i: int|
                0 <= i < final(self).world_spec().animals@.len() ==> {
                    let (a, b) = (old(self).world_spec().animals@[i], #[trigger] final(self).world_spec().animals@[i]);
                    &&& old(self).config_spec().sim_speed_min <= b.speed <= old(self).config_spec().sim_speed_max
                    &&& b.position.x as int == wrap(a.position.x + step_x(b.speed as int, b.rotation))
                    &&& b.position.y as int == wrap(a.position.y + step_y(b.speed as int, b.rotation))
                    &&& b.brain == a.brain
                    &&& b.eye == a.eye
                    &&& b.generation_lifetime == a.generation_lifetime
                    &&& sensed(a, b, final(self).world_spec().foods@, old(self).world_spec().positions(), i)
                    &&& thought(a, b, old(self).config_spec())
                    &&& r is None ==> b.generation_age == a.generation_age && b.satiation_total == a.satiation_total
                    &&& r is Some ==> b.generation_age as int == bump(a.generation_age as int)
                        && b.satiation_total as int == capped_total(a.satiation_total + b.satiation)
                    &&& r is Some && a.satiation_total + b.satiation <= u64::MAX && a.generation_age < usize::MAX
                        ==> b.mean_satiation() == close_epoch(a.mean_satiation(), b.satiation as int)
                },
    {
        let steps = self.steps;
        let ghost start = self.world.animals@;
        let ghost foods0 = self.world.foods@;
        let snaps = self.process_collisions();
        let ghost fed = self.world.animals@;
        let ghost fed_world = self.world;
        self.process_brains();
        let ghost th = self.world.animals@;
        self.process_movements();
        let ghost mv = self.world.animals@;
        let r = self.try_evolving();
        if steps < u64::MAX {
            self.steps = steps + 1;
        } else {
            self.steps = steps;
        }
        proof {
            let fin = self.world.animals@;
            let size = self.config.food_size;
            assert forall|i: int| #![trigger snaps@[i]] 0 <= i < start.len() implies {
                &&& feeding_turn(start[i].position, snaps@[i], snaps@[i + 1], size)
                &&& fin[i].satiation as int == capped_add(
                    start[i].satiation as int,
                    reach_count(start[i].position, snaps@[i], size, snaps@[i].len() as int) as int,
                )
            } by {
                assert(fed[i].satiation == fin[i].satiation);
            }
            assert(feeding_record(snaps@, start, fin, foods0, self.world.foods@, self.config.food_size));
            assert(fed_world.positions() =~= old(self).world.positions());
            assert forall|i: int| 0 <= i < start.len() implies sensed(
                start[i],
                #[trigger] fin[i],
                self.world.foods@,
                old(self).world.positions(),
                i,
            ) && thought(start[i], fin[i], self.config) by {
                assert(fed[i].position == start[i].position && fed[i].rotation == start[i].rotation);
                assert(fed[i].speed == start[i].speed && fed[i].eye == start[i].eye);
                assert(sensed(fed[i], th[i], self.world.foods@, fed_world.positions(), i));
                assert(thought(fed[i], th[i], self.config));
                assert(mv[i].vision_f == th[i].vision_f && mv[i].vision_a == th[i].vision_a);
                assert(mv[i].speed == th[i].speed && mv[i].rotation == th[i].rotation && mv[i].brain == th[i].brain);
                assert(fin[i].vision_f == mv[i].vision_f && fin[i].vision_a == mv[i].vision_a);
                assert(fin[i].speed == mv[i].speed && fin[i].rotation == mv[i].rotation && fin[i].brain == mv[i].brain);
            }
        }
        r
    }

    /// Applies the engine's verdicts, by position: a kept creature keeps its
    /// brain and lifetime record and starts the new epoch unfed; a replaced
    /// one is rebuilt from its new genome as a fresh creature. Either way its
    /// remaining lifetime becomes the verdict's. Nothing changes on error.
    pub fn reconcile(&mut self, outcomes: Vec<Outcome>) -> (r: Result<Statistics, ReconcileError>)
        requires
            old(self).wf(),
        ensures
            final(self).wf(),
            final(self).config_spec() == old(self).config_spec(),
            final(self).generation_spec() == old(self).generation_spec(),
            final(self).age_spec() == old(self).age_spec(),
            final(self).steps_spec() == old(self).steps_spec(),
            final(self).world_spec().foods == old(self).world_spec().foods,
            final(self).world_spec().animals@.len() == old(self).world_spec().animals@.len(),
            outcomes@.len() != old(self).world_spec().animals@.len() ==> r == Err::<Statistics, ReconcileError>(
                ReconcileError::CountMismatch {
                    expected: old(self).world_spec().animals@.len() as usize,
                    found: outcomes@.len() as usize,
                },
            ),
            r is Ok <==> outcomes@.len() == old(self).world_spec().animals@.len() && forall|i: int|
                0 <= i < outcomes@.len() ==> fits(
                    #[trigger] outcomes@[i],
                    8 * old(self).config_spec().eye_cells as nat + 8,
                ),
            r matches Err(ReconcileError::GenomeMismatch { index, found }) ==> index < outcomes@.len()
                && !fits(outcomes@[index as int], 8 * old(self).config_spec().eye_cells as nat + 8)
                && found == genome_len_of(outcomes@[index as int]),
            r is Err ==> final(self).world_spec() == old(self).world_spec(),
            r matches Err(ReconcileError::CountMismatch { expected, found }) ==> expected
                == old(self).world_spec().animals@.len() && found != expected,
            r matches Ok(st) ==> st.min_fitness == fitness_min(old(self).fitness_spec()) && st.max_fitness
                == fitness_max(old(self).fitness_spec()) && (old(self).fitness_spec().len() > 0 ==> st.avg_fitness
                == fitness_sum(old(self).fitness_spec()) / (old(self).fitness_spec().len() as int)),
            r matches Ok(st) ==> (old(self).fitness_spec().len() > 0 ==> is_lower_median(
                old(self).fitness_spec(),
                st.median_fitness,
            )) && (old(self).fitness_spec().len() == 0 ==> st.median_fitness == 0),
            r matches Ok(st) ==> st.first_layer == 2 * old(self).config_spec().eye_cells && st.second_layer == 2
                && st.third_layer == 2,
            r matches Ok(st) ==> st.replaced == replaced_count(outcomes@, outcomes@.len() as int) && st.generation
                as int == if old(self).generation_spec() > 0 {
                old(self).generation_spec() - 1
            } else {
                0
            },
            r is Ok ==> forall|i: int|
                0 <= i < outcomes@.len() ==> {
                    let (a, b) = (old(self).world_spec().animals@[i], #[trigger] final(self).world_spec().animals@[i]);
                    match outcomes@[i] {
                        Outcome::Kept(l) => {
                            &&& b.brain == a.brain
                            &&& b.satiation == 0
                            &&& b.satiation_total == a.satiation_total
                            &&& b.generation_age == a.generation_age
                            &&& b.position == a.position
                            &&& b.rotation == a.rotation
                            &&& b.speed == a.speed
                            &&& b.vision_f == a.vision_f
                            &&& b.vision_a == a.vision_a
                            &&& b.generation_lifetime == l
                        },
                        Outcome::Replaced(g, l) => {
                            &&& b.brain.network().genome == g@
                            &&& b.satiation == 0
                            &&& b.satiation_total == 0
                            &&& b.generation_age == 0
                            &&& b.speed == old(self).config_spec().sim_speed_max
                            &&& b.blank_caches()
                            &&& b.generation_lifetime == l
                        },
                    }
                },
    {
        let n = self.world.animals.len();
        if outcomes.len() != n {
            return Err(ReconcileError::CountMismatch { expected: n, found: outcomes.len() });
        }
        let len: usize = 8 * self.config.eye_cells + 8;
        let mut i: usize = 0;
        while i < n
            invariant
                self.wf(),
                self.world == old(self).world,
                self.config == old(self).config,
                self.generation == old(self).generation,
                self.age == old(self).age,
                self.fitness == old(self).fitness,
                self.steps == old(self).steps,
                n == outcomes@.len(),
                n == self.world.animals@.len(),
                len == 8 * self.config.eye_cells + 8,
                i <= n,
                forall|q: int| 0 <= q < i ==> fits(#[trigger] outcomes@[q], len as nat),
            decreases n - i,
        {
            match &outcomes[i] {
                Outcome::Replaced(g, _) => {
                    if g.len() != len {
                        return Err(ReconcileError::GenomeMismatch { index: i, found: g.len() });
                    }
                },
                Outcome::Kept(_) => {},
            }
            i = i + 1;
        }
        let mut replaced: usize = 0;
        let mut i: usize = 0;
        while i < n
            invariant
                self.wf(),
                n == outcomes@.len(),
                n == self.world.animals@.len(),
                len == 8 * self.config.eye_cells + 8,
                i <= n,
                replaced == replaced_count(outcomes@, i as int),
                replaced <= i,
                self.fitness == old(self).fitness,
                self.steps == old(self).steps,
                forall|q: int| 0 <= q < n ==> fits(#[trigger] outcomes@[q], len as nat),
                self.config == old(self).config,
                self.generation == old(self).generation,
                self.age == old(self).age,
                self.world.foods == old(self).world.foods,
                forall|q: int|
                    0 <= q < n ==> {
                        let (a, b) = (old(self).world.animals@[q], #[trigger] self.world.animals@[q]);
                        &&& q >= i ==> b == a
                        &&& q < i ==> match outcomes@[q] {
                            Outcome::Kept(l) => {
                                &&& b.brain == a.brain
                                &&& b.satiation == 0
                                &&& b.satiation_total == a.satiation_total
                                &&& b.generation_age == a.generation_age
                                &&& b.position == a.position
                                &&& b.rotation == a.rotation
                                &&& b.speed == a.speed
                                &&& b.vision_f == a.vision_f
                                &&& b.vision_a == a.vision_a
                                &&& b.generation_lifetime == l
                            },
                            Outcome::Replaced(g, l) => {
                                &&& b.brain.network().genome == g@
                                &&& b.satiation == 0
                                &&& b.satiation_total == 0
                                &&& b.generation_age == 0
                                &&& b.speed == old(self).config.sim_speed_max
                                &&& b.blank_caches()
                                &&& b.generation_lifetime == l
                            },
                        }
                    },
            decreases n - i,
        {
            match &outcomes[i] {
                Outcome::Kept(l) => {
                    self.world.animals[i].satiation = 0;
                    self.world.animals[i].generation_lifetime = *l;
                },
                Outcome::Replaced(g, l) => {
                    let mut fresh = Animal::from_chromosome(&self.config, &mut self.rng, g.clone()).unwrap();
                    fresh.generation_lifetime = *l;
                    self.world.animals.set(i, fresh);
                    replaced = replaced + 1;
                },
            }
            i = i + 1;
        }
        let generation = if self.generation > 0 {
            self.generation - 1
        } else {
            0
        };
        let (min_fitness, max_fitness, avg_fitness) = summarize(&self.fitness);
        Ok(
            Statistics {
                generation,
                replaced,
                min_fitness,
                max_fitness,
                avg_fitness,
                median_fitness: lower_median(&self.fitness),
                first_layer: 2 * self.config.eye_cells,
                second_layer: 2,
                third_layer: 2,
            },
        )
    }

    /// Runs steps until an epoch closes, lets `engine` judge the population,
    /// and applies its verdicts. On success every creature starts the new
    /// epoch unfed; on malformed verdicts the world stays as the closing step
    /// left it.
    pub fn train<E: Engine>(&mut self, engine: &mut E) -> (r: Result<Statistics, ReconcileError>)
        requires
            old(self).wf(),
        ensures
            final(self).wf(),
            final(self).config_spec() == old(self).config_spec(),
            final(self).age_spec() == 0,
            final(self).generation_spec() as int == bump(old(self).generation_spec() as int),
            final(self).world_spec().animals@.len() == old(self).world_spec().animals@.len(),
            final(self).steps_spec() as int == capped_total(
                old(self).steps_spec() + steps_to_close(old(self).age_spec() as int, old(self).config_spec()),
            ),
            r matches Ok(st) ==> old(self).generation_spec() < usize::MAX ==> st.generation
                == old(self).generation_spec(),
            r is Ok ==> forall|i: int|
                0 <= i < final(self).world_spec().animals@.len() ==> (#[trigger] final(self).world_spec().animals@[i]).satiation
                    == 0,
            r is Err ==> forall|i: int|
                0 <= i < final(self).world_spec().animals@.len() ==> (#[trigger] final(self).world_spec().animals@[i]).generation_age
                    >= 1,
            r matches Err(ReconcileError::CountMismatch { expected, found }) ==> expected
                == final(self).world_spec().animals@.len() && found != expected,
    {
        loop
            invariant
                self.wf(),
                self.config_spec() == old(self).config_spec(),
                self.generation_spec() == old(self).generation_spec(),
                self.world_spec().animals@.len() == old(self).world_spec().animals@.len(),
                self.age_spec() >= old(self).age_spec(),
                self.age_spec() > old(self).age_spec() ==> self.age_spec() <= self.config_spec().sim_generation_length / 4,
                steps_to_close(old(self).age_spec() as int, old(self).config_spec()) == (self.age_spec() - old(
                    self,
                ).age_spec()) + steps_to_close(self.age_spec() as int, self.config_spec()),
                self.steps_spec() as int == capped_total(old(self).steps_spec() + (self.age_spec() - old(self).age_spec())),
            decreases steps_to_close(self.age_spec() as int, self.config_spec()),
        {
            match self.step() {
                Some(population) => {
                    let outcomes = engine.evolve(&mut self.rng, &population);
                    return self.reconcile(outcomes);
                },
                None => {},
            }
        }
    }
}

} // verus!
