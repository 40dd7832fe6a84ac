//! Simulation settings, in the library's fixed-point units.
use crate::eye::{Eye, MAX_TARGETS};
use crate::geometry::TURN;
use crate::network::MAX_CELLS;
use vstd::prelude::*;

verus! {

/// Largest speed, in torus units per step: just under one torus side, so
/// that one step's displacement is always less than a side.
pub const MAX_SPEED: u32 = 4294967295;

/// Settings of a run. Distances and speeds are in torus units (`TURN` is one
/// side), angles in binary-angle units, probabilities and coefficients in
/// `ONE` units.
#[derive(Clone, Copy, Debug, PartialEq, Eq, Structural)]
pub struct Config {
    pub brain_neurons: usize,
    pub eye_fov_range: u32,
    pub eye_fov_angle: u64,
    pub eye_cells: usize,
    pub food_size: u32,
    pub ga_reverse: usize,
    pub ga_mut_chance: i64,
    pub ga_mut_coeff: i64,
    pub sim_speed_min: u32,
    pub sim_speed_max: u32,
    pub sim_speed_accel: u32,
    pub sim_rotation_accel: u32,
    pub sim_generation_length: usize,
    pub world_animals: usize,
    pub world_foods: usize,
}

/// Which setting is out of its range.
#[derive(Clone, Copy, Debug, PartialEq, Eq, Structural)]
pub enum ConfigError {
    FovRange,
    FovAngle,
    Cells,
    SpeedRange,
    Acceleration,
    MutationChance,
    GenerationLength,
    Population,
}

impl Config {
    /// The settings are usable: a sensor with a positive range, an angle in
    /// `(0, TURN]` and `1..=MAX_CELLS` sectors; `speed_min <= speed_max <=
    /// MAX_SPEED`; accelerations that fit; a mutation chance in `[0, ONE]`;
    /// epochs long enough to draw a lifetime; populations within scan limits.
    pub open spec fn wf(&self) -> bool {
        &&& self.eye_fov_range > 0
        &&& 0 < self.eye_fov_angle <= TURN
        &&& 1 <= self.eye_cells <= MAX_CELLS
        &&& self.sim_speed_min <= self.sim_speed_max <= MAX_SPEED
        &&& self.sim_speed_accel < 0x8000_0000
        &&& self.sim_rotation_accel < 0x8000_0000
        &&& 0 <= self.ga_mut_chance <= 65536
        &&& 500 <= self.sim_generation_length
        &&& self.world_animals <= MAX_TARGETS
        &&& self.world_foods <= MAX_TARGETS
    }

    /// The error `check` reports for these settings, in the order the
    /// settings are checked.
    pub open spec fn first_error(&self) -> Option<ConfigError> {
        if self.eye_fov_range == 0 {
            Some(ConfigError::FovRange)
        } else if !(0 < self.eye_fov_angle <= TURN) {
            Some(ConfigError::FovAngle)
        } else if !(1 <= self.eye_cells <= MAX_CELLS) {
            Some(ConfigError::Cells)
        } else if !(self.sim_speed_min <= self.sim_speed_max <= MAX_SPEED) {
            Some(ConfigError::SpeedRange)
        } else if !(self.sim_speed_accel < 0x8000_0000 && self.sim_rotation_accel < 0x8000_0000) {
            Some(ConfigError::Acceleration)
        } else if !(0 <= self.ga_mut_chance <= 65536) {
            Some(ConfigError::MutationChance)
        } else if self.sim_generation_length < 500 {
            Some(ConfigError::GenerationLength)
        } else if !(self.world_animals <= MAX_TARGETS && self.world_foods <= MAX_TARGETS) {
            Some(ConfigError::Population)
        } else {
            None
        }
    }

    /// Validates the settings.
    pub fn check(&self) -> (r: Result<(), ConfigError>)
        ensures
            r is Ok <==> self.wf(),
            r matches Err(e) ==> self.first_error() == Some(e),
            r is Ok ==> self.first_error() is None,
    {
        if self.eye_fov_range == 0 {
            Err(ConfigError::FovRange)
        } else if !(0 < self.eye_fov_angle && self.eye_fov_angle <= TURN) {
            Err(ConfigError::FovAngle)
        } else if !(1 <= self.eye_cells && self.eye_cells <= MAX_CELLS) {
            Err(ConfigError::Cells)
        } else if !(self.sim_speed_min <= self.sim_speed_max && self.sim_speed_max <= MAX_SPEED) {
            Err(ConfigError::SpeedRange)
        } else if !(self.sim_speed_accel < 0x8000_0000 && self.sim_rotation_accel < 0x8000_0000) {
            Err(ConfigError::Acceleration)
        } else if !(0 <= self.ga_mut_chance && self.ga_mut_chance <= 65536) {
            Err(ConfigError::MutationChance)
        } else if self.sim_generation_length < 500 {
            Err(ConfigError::GenerationLength)
        } else if !(self.world_animals <= MAX_TARGETS && self.world_foods <= MAX_TARGETS) {
            Err(ConfigError::Population)
        } else {
            Ok(())
        }
    }

    pub open spec fn sensor(&self) -> Eye {
        Eye { fov_range: self.eye_fov_range, fov_angle: self.eye_fov_angle, cells: self.eye_cells }
    }

    /// The sensor these settings describe.
    pub fn eye(&self) -> (r: Eye)
        requires
            self.wf(),
        ensures
            r.wf(),
            r == self.sensor(),
    {
        Eye { fov_range: self.eye_fov_range, fov_angle: self.eye_fov_angle, cells: self.eye_cells }
    }
}

impl Default for Config {
    /// A range of a quarter side, a field of five eighths of a turn in nine
    /// sectors, food caught within a hundredth of a side, speeds from a
    /// thousandth to five thousandths of a side, epochs of 2500 steps, 40
    /// creatures and 60 food items.
    fn default() -> (r: Config)
        ensures
            r.wf(),
            r == (Config {
                brain_neurons: 9,
                eye_fov_range: 1073741824,
                eye_fov_angle: 2684354560,
                eye_cells: 9,
                food_size: 42949673,
                ga_reverse: 0,
                ga_mut_chance: 655,
                ga_mut_coeff: 19661,
                sim_speed_min: 4294967,
                sim_speed_max: 21474836,
                sim_speed_accel: 858993459,
                sim_rotation_accel: 1073741824,
                sim_generation_length: 2500,
                world_animals: 40,
                world_foods: 60,
            }),
    {
        Config {
            brain_neurons: 9,
            eye_fov_range: 1073741824,
            eye_fov_angle: 2684354560,
            eye_cells: 9,
            food_size: 42949673,
            ga_reverse: 0,
            ga_mut_chance: 655,
            ga_mut_coeff: 19661,
            sim_speed_min: 4294967,
            sim_speed_max: 21474836,
            sim_speed_accel: 858993459,
            sim_rotation_accel: 1073741824,
            sim_generation_length: 2500,
            world_animals: 40,
            world_foods: 60,
        }
    }
}

} // verus!
