//! A creature as the evolutionary engine sees it, and the engine's verdict.
use crate::animal::Animal;
use vstd::prelude::*;

verus! {

/// One member of the population handed to the engine.
pub struct AnimalIndividual {
    /// Running mean of food eaten per epoch, in `ONE` units.
    pub fitness: u128,
    pub chromosome: Vec<i32>,
    /// Epochs left before the creature is due for replacement.
    pub life_time: usize,
    pub changed: bool,
    pub mut_force: usize,
}

/// The engine's verdict on one member, by position.
pub enum Outcome {
    /// The creature stays, with a new remaining lifetime.
    Kept(usize),
    /// The creature is replaced by a new one with this genome and lifetime.
    Replaced(Vec<i32>, usize),
}

impl AnimalIndividual {
    /// The member that stands for `animal`, for network number `nv_num`
    /// (a creature has the one network, number 0).
    pub fn from_animal(animal: &Animal, nv_num: usize) -> (r: AnimalIndividual)
        requires
            nv_num == 0,
        ensures
            r.chromosome@ == animal.brain.network().genome,
            r.fitness == (if animal.generation_age == 0 {
                0
            } else {
                (animal.satiation_total as int) * 65536 / (animal.generation_age as int)
            }),
            r.life_time == animal.generation_lifetime,
            !r.changed,
            r.mut_force == 1,
    {
        AnimalIndividual {
            fitness: animal.satiation_avg(),
            chromosome: animal.as_chromosome(nv_num),
            life_time: animal.generation_lifetime,
            changed: false,
            mut_force: 1,
        }
    }

    /// A member with the given genome and nothing else known of it.
    pub fn create(chromosome: Vec<i32>) -> (r: AnimalIndividual)
        ensures
            r.chromosome == chromosome,
            r.fitness == 0,
            r.life_time == 0,
            !r.changed,
            r.mut_force == 1,
    {
        AnimalIndividual { fitness: 0, chromosome, life_time: 0, changed: false, mut_force: 1 }
    }

    pub fn chromosome(&self) -> (r: &Vec<i32>)
        ensures
            r == &self.chromosome,
    {
        &self.chromosome
    }

    pub fn fitness(&self) -> (r: u128)
        ensures
            r == self.fitness,
    {
        self.fitness
    }

    pub fn life_time(&self) -> (r: usize)
        ensures
            r == self.life_time,
    {
        self.life_time
    }

    pub fn changed(&self) -> (r: bool)
        ensures
            r == self.changed,
    {
        self.changed
    }

    pub fn mut_force(&self) -> (r: usize)
        ensures
            r == self.mut_force,
    {
        self.mut_force
    }
}

} // verus!
