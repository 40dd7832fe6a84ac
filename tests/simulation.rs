use lifelong_sim::animal::Animal;
use lifelong_sim::animal_individual::{AnimalIndividual, Outcome};
use lifelong_sim::config::{Config, ConfigError};
use lifelong_sim::geometry::Point;
use lifelong_sim::median::lower_median;
use lifelong_sim::network::ONE;
use lifelong_sim::simulation::{summarize, Engine, ReconcileError, Simulation, World};
use rand::rngs::StdRng;
use rand::SeedableRng;

struct KeepAll;

impl Engine for KeepAll {
    fn evolve(&mut self, _rng: &mut StdRng, population: &Vec<AnimalIndividual>) -> Vec<Outcome> {
        population.iter().map(|m| Outcome::Kept(m.life_time + 1)).collect()
    }
}

fn run_until_epoch(sim: &mut Simulation) -> Vec<AnimalIndividual> {
    loop {
        if let Some(p) = sim.step() {
            return p;
        }
    }
}

#[test]
fn default_config_is_valid() {
    let c = Config::default();
    assert_eq!(c.check(), Ok(()));
    assert_eq!(c.eye_cells, 9);
}

#[test]
fn config_errors_name_the_setting() {
    let mut c = Config::default();
    c.eye_cells = 0;
    assert_eq!(c.check(), Err(ConfigError::Cells));
    let mut c = Config::default();
    c.eye_fov_angle = 0;
    assert_eq!(c.check(), Err(ConfigError::FovAngle));
    let mut c = Config::default();
    c.eye_fov_range = 0;
    assert_eq!(c.check(), Err(ConfigError::FovRange));
    let mut c = Config::default();
    c.sim_speed_min = c.sim_speed_max + 1;
    assert_eq!(c.check(), Err(ConfigError::SpeedRange));
    let mut c = Config::default();
    c.sim_rotation_accel = u32::MAX;
    assert_eq!(c.check(), Err(ConfigError::Acceleration));
    let mut c = Config::default();
    c.ga_mut_chance = ONE + 1;
    assert_eq!(c.check(), Err(ConfigError::MutationChance));
    let mut c = Config::default();
    c.sim_generation_length = 499;
    assert_eq!(c.check(), Err(ConfigError::GenerationLength));
    let mut c = Config::default();
    c.world_foods = usize::MAX;
    assert_eq!(c.check(), Err(ConfigError::Population));
}

#[test]
fn random_world_has_configured_sizes() {
    let sim = Simulation::random(Config::default(), StdRng::seed_from_u64(1));
    assert_eq!(sim.world().animals().len(), 40);
    assert_eq!(sim.world().foods().len(), 60);
    for a in sim.world().animals() {
        assert!(1 <= a.generation_lifetime && a.generation_lifetime <= 5);
        assert_eq!(a.vision().len(), 9);
    }
    let a = &sim.world().animals()[0];
    let b = &sim.world().animals()[1];
    assert_ne!(a.position(), b.position());
}

#[test]
fn speed_stays_in_bounds() {
    let config = Config::default();
    let mut sim = Simulation::random(config, StdRng::seed_from_u64(2));
    for _ in 0..200 {
        sim.step();
        for a in sim.world().animals() {
            assert!(config.sim_speed_min <= a.speed && a.speed <= config.sim_speed_max);
        }
    }
}

#[test]
fn epoch_closes_after_a_quarter_of_its_length() {
    let mut sim = Simulation::random(Config::default(), StdRng::seed_from_u64(4));
    for _ in 0..625 {
        assert!(sim.step().is_none());
    }
    let p = sim.step().unwrap();
    assert_eq!(p.len(), 40);
    assert_eq!(sim.generation(), 1);
    for (m, a) in p.iter().zip(sim.world().animals()) {
        assert_eq!(m.chromosome(), &a.as_chromosome(0));
        assert_eq!(m.life_time(), a.generation_lifetime);
        assert!(!m.changed());
        assert_eq!(m.mut_force(), 1);
        assert_eq!(a.generation_age, 1);
        assert_eq!(m.fitness(), a.satiation as u128 * ONE as u128);
    }
}

#[test]
fn runs_with_one_seed_are_identical() {
    let mut a = Simulation::random(Config::default(), StdRng::seed_from_u64(42));
    let mut b = Simulation::random(Config::default(), StdRng::seed_from_u64(42));
    for _ in 0..300 {
        a.step();
        b.step();
        for (x, y) in a.world().animals().iter().zip(b.world().animals()) {
            assert_eq!(x.position(), y.position());
            assert_eq!(x.rotation(), y.rotation());
            assert_eq!(x.satiation(), y.satiation());
        }
        assert_eq!(a.world().foods(), b.world().foods());
    }
}

#[test]
fn still_creature_on_food_eats_it() {
    let mut config = Config::default();
    config.sim_speed_min = 0;
    config.sim_speed_max = 0;
    config.world_animals = 1;
    config.world_foods = 1;
    let mut rng = StdRng::seed_from_u64(9);
    let animal = Animal::random(&config, &mut rng);
    let spot = animal.position();
    let world = World::new(vec![animal], vec![spot]);
    let mut sim = Simulation::with_world(config, world, rng);
    assert!(sim.step().is_none());
    let a = &sim.world().animals()[0];
    assert_eq!(a.satiation(), 1);
    assert_eq!(a.position(), spot);
    assert_ne!(sim.world().foods()[0], spot);
}

#[test]
fn running_mean_over_epochs() {
    let config = Config::default();
    let mut rng = StdRng::seed_from_u64(5);
    let mut a = Animal::random(&config, &mut rng);
    assert_eq!(a.satiation_avg(), 0);
    for s in [3usize, 5, 7] {
        a.satiation = s;
        a.record_epoch();
    }
    assert_eq!(a.generation_age, 3);
    assert_eq!(a.satiation_avg(), 5 * ONE as u128);
    a.satiation = 0;
    a.record_epoch();
    assert_eq!(a.satiation_avg(), 15 * ONE as u128 / 4);
}

#[test]
fn reconcile_keeps_and_replaces_by_position() {
    let mut config = Config::default();
    config.world_animals = 3;
    let mut sim = Simulation::random(config, StdRng::seed_from_u64(6));
    let _ = run_until_epoch(&mut sim);
    let before: Vec<Vec<i32>> = sim.world().animals().iter().map(|a| a.as_chromosome(0)).collect();
    let ages: Vec<usize> = sim.world().animals().iter().map(|a| a.generation_age).collect();
    let new_genome: Vec<i32> = (0..80).collect();
    let outcomes = vec![Outcome::Kept(4), Outcome::Replaced(new_genome.clone(), 2), Outcome::Kept(1)];
    let stats = sim.reconcile(outcomes).unwrap();
    assert_eq!(stats.generation, 0);
    assert_eq!(stats.replaced, 1);
    assert_eq!((stats.first_layer, stats.second_layer, stats.third_layer), (18, 2, 2));
    let animals = sim.world().animals();
    assert_eq!(animals[0].as_chromosome(0), before[0]);
    assert_eq!(animals[0].satiation(), 0);
    assert_eq!(animals[0].generation_age, ages[0]);
    assert_eq!(animals[0].generation_lifetime, 4);
    assert_eq!(animals[1].as_chromosome(0), new_genome);
    assert_eq!(animals[1].generation_age, 0);
    assert_eq!(animals[1].satiation_avg(), 0);
    assert_eq!(animals[1].generation_lifetime, 2);
    assert_eq!(animals[1].speed, config.sim_speed_max);
    assert!(animals[1].vision().iter().all(|v| *v == 0));
    assert_eq!(animals[2].as_chromosome(0), before[2]);
    assert_eq!(animals[2].generation_lifetime, 1);
}

#[test]
fn reconcile_rejects_malformed_verdicts() {
    let mut config = Config::default();
    config.world_animals = 2;
    let mut sim = Simulation::random(config, StdRng::seed_from_u64(7));
    let before: Vec<Vec<i32>> = sim.world().animals().iter().map(|a| a.as_chromosome(0)).collect();
    assert_eq!(
        sim.reconcile(vec![Outcome::Kept(1)]),
        Err(ReconcileError::CountMismatch { expected: 2, found: 1 })
    );
    assert_eq!(
        sim.reconcile(vec![Outcome::Kept(1), Outcome::Replaced(vec![1, 2, 3], 1)]),
        Err(ReconcileError::GenomeMismatch { index: 1, found: 3 })
    );
    let after: Vec<Vec<i32>> = sim.world().animals().iter().map(|a| a.as_chromosome(0)).collect();
    assert_eq!(before, after);
}

#[test]
fn train_runs_one_epoch() {
    let mut sim = Simulation::random(Config::default(), StdRng::seed_from_u64(8));
    let stats = sim.train(&mut KeepAll).unwrap();
    assert_eq!(stats.generation, 0);
    assert_eq!(stats.replaced, 0);
    let stats = sim.train(&mut KeepAll).unwrap();
    assert_eq!(stats.generation, 1);
    assert!(sim.world().animals().iter().all(|a| a.satiation() == 0 && a.generation_age == 2));
}

#[test]
fn set_config_redraws_the_world() {
    let mut sim = Simulation::random(Config::default(), StdRng::seed_from_u64(10));
    let mut c = Config::default();
    c.world_animals = 5;
    c.world_foods = 7;
    for _ in 0..10 {
        sim.step();
    }
    sim.set_config(c);
    assert_eq!(sim.age(), 10);
    assert_eq!(sim.config().world_animals, 5);
    assert_eq!(sim.world().animals().len(), 5);
    assert_eq!(sim.world().foods().len(), 7);
}

#[test]
fn member_from_animal_copies_genome_and_lifetime() {
    let config = Config::default();
    let mut rng = StdRng::seed_from_u64(11);
    let a = Animal::random(&config, &mut rng);
    let m = AnimalIndividual::from_animal(&a, 0);
    assert_eq!(m.chromosome(), &a.as_chromosome(0));
    assert_eq!(m.life_time(), a.generation_lifetime);
    assert_eq!(m.fitness(), 0);
    let c = AnimalIndividual::create(vec![1, 2]);
    assert_eq!(c.chromosome(), &vec![1, 2]);
    assert_eq!(c.life_time(), 0);
}

#[test]
fn fitness_summary_of_an_epoch() {
    let one = ONE as u128;
    assert_eq!(summarize(&vec![3 * one, one, 2 * one]), (one, 3 * one, 2 * one));
    assert_eq!(summarize(&vec![1, 2]), (1, 2, 1));
    assert_eq!(summarize(&vec![]), (0, 0, 0));
}

#[test]
fn statistics_summarize_the_closed_epoch() {
    let mut sim = Simulation::random(Config::default(), StdRng::seed_from_u64(12));
    let stats = sim.train(&mut KeepAll).unwrap();
    assert!(stats.min_fitness <= stats.avg_fitness && stats.avg_fitness <= stats.max_fitness);
    assert!(stats.min_fitness <= stats.median_fitness && stats.median_fitness <= stats.max_fitness);
}

#[test]
fn empty_world_still_closes_epochs() {
    let mut config = Config::default();
    config.world_animals = 0;
    config.world_foods = 0;
    let mut sim = Simulation::random(config, StdRng::seed_from_u64(13));
    let p = run_until_epoch(&mut sim);
    assert!(p.is_empty());
    let stats = sim.reconcile(vec![]).unwrap();
    assert_eq!(stats.replaced, 0);
    assert_eq!((stats.min_fitness, stats.max_fitness, stats.avg_fitness), (0, 0, 0));
}

#[test]
fn creature_moves_along_its_heading() {
    let mut config = Config::default();
    config.sim_speed_min = 1 << 20;
    config.sim_speed_max = 1 << 20;
    let mut rng = StdRng::seed_from_u64(14);
    let mut a = Animal::random(&config, &mut rng);
    a.rotation = 0;
    a.position = Point { x: 10, y: 20 };
    a.speed = 1 << 20;
    a.process_movement();
    // Heading 0 points along +y.
    assert_eq!(a.position(), Point { x: 10, y: 20 + (1 << 20) });
    a.rotation = 1 << 30;
    a.process_movement();
    // A quarter turn points along -x, across the seam of the torus.
    assert_eq!(a.position(), Point { x: 10u32.wrapping_sub(1 << 20), y: 20 + (1 << 20) });
}

#[test]
fn thinking_clamps_speed_and_turns() {
    let config = Config::default();
    let mut rng = StdRng::seed_from_u64(15);
    let mut a = Animal::from_chromosome(&config, &mut rng, vec![0; 80]).unwrap();
    let r0 = a.rotation();
    a.process_brain(&config);
    // Zero weights: both outputs zero, full deceleration, no turn.
    assert_eq!(a.speed, config.sim_speed_min);
    assert_eq!(a.rotation(), r0);
    assert!(Animal::from_chromosome(&config, &mut rng, vec![0; 81]).is_err());
}

#[test]
fn set_config_keeps_the_step_count() {
    let mut sim = Simulation::random(Config::default(), StdRng::seed_from_u64(16));
    for _ in 0..600 {
        sim.step();
    }
    let mut c = Config::default();
    c.sim_generation_length = 1000;
    sim.set_config(c);
    assert_eq!(sim.age(), 600);
    assert_eq!(sim.steps(), 600);
    assert!(sim.step().is_some());
    assert_eq!(sim.age(), 0);
}

#[test]
fn train_runs_to_the_end_of_the_epoch() {
    let mut sim = Simulation::random(Config::default(), StdRng::seed_from_u64(17));
    for _ in 0..100 {
        sim.step();
    }
    sim.train(&mut KeepAll).unwrap();
    // 625 is a quarter epoch: the closing step is the 626th from age 0.
    assert_eq!(sim.steps(), 626);
    sim.train(&mut KeepAll).unwrap();
    assert_eq!(sim.steps(), 1252);
}

#[test]
fn fresh_world_creatures_start_fresh() {
    let config = Config::default();
    let sim = Simulation::random(config, StdRng::seed_from_u64(18));
    for a in sim.world().animals() {
        assert_eq!(a.speed, config.sim_speed_max);
        assert!(a.vision().iter().all(|v| *v == 0));
        assert_eq!(a.as_chromosome(0).len(), 80);
        assert_eq!(a.generation_age, 0);
    }
}

#[test]
fn lower_median_of_values() {
    assert_eq!(lower_median(&vec![]), 0);
    assert_eq!(lower_median(&vec![7]), 7);
    assert_eq!(lower_median(&vec![5, 1, 3]), 3);
    assert_eq!(lower_median(&vec![4, 1, 3, 2]), 2);
    assert_eq!(lower_median(&vec![2, 2, 9, 2]), 2);
}
