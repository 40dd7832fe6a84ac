//! The decision model: a network on the standard wiring, and the decoding of
//! its first two outputs into a speed change and a turn.
use crate::config::Config;
use crate::geometry::TURN;
use crate::network::{clamp, is_fresh_genome, is_standard, FlexNetwork, NetworkModel, Topology, TopologyMismatch, MAX_CELLS, ONE};
use rand::rngs::StdRng;
use vstd::prelude::*;

verus! {

/// One radian in binary-angle units (`TURN / 2pi`, rounded).
pub const RADIAN: i64 = 683565276;

/// `x * num / den`, rounded toward zero.
pub open spec fn scaled(x: int, num: int, den: int) -> int {
    if x >= 0 {
        x * num / den
    } else {
        -((-x) * num / den)
    }
}

/// Speed change, in torus units, that outputs `r0`, `r1` ask for: with
/// `a = clamp(r0, 0, 1) - 1/2` and `b = clamp(r1, 0, 1) - 1/2`, the sum
/// `a + b` limited to `[-speed_accel, speed_accel]`.
pub open spec fn speed_change(r0: int, r1: int, speed_accel: int) -> int {
    let a = clamp(r0, 0, ONE as int) - (ONE as int) / 2;
    let b = clamp(r1, 0, ONE as int) - (ONE as int) / 2;
    clamp((a + b) * ((TURN as int) / (ONE as int)), -speed_accel, speed_accel)
}

/// Turn, in binary-angle units, that outputs `r0`, `r1` ask for: the
/// difference `a - b` read as radians, limited to `[-rotation_accel,
/// rotation_accel]`.
pub open spec fn turn_change(r0: int, r1: int, rotation_accel: int) -> int {
    let a = clamp(r0, 0, ONE as int) - (ONE as int) / 2;
    let b = clamp(r1, 0, ONE as int) - (ONE as int) / 2;
    clamp(scaled(a - b, RADIAN as int, ONE as int), -rotation_accel, rotation_accel)
}

/// Decodes two raw outputs into a bounded speed change and turn.
pub fn decode(r0: i64, r1: i64, speed_accel: u32, rotation_accel: u32) -> (r: (i64, i64))
    ensures
        r.0 == speed_change(r0 as int, r1 as int, speed_accel as int),
        r.1 == turn_change(r0 as int, r1 as int, rotation_accel as int),
{
    let a: i64 = (if r0 < 0 { 0 } else if r0 > ONE { ONE } else { r0 }) - ONE / 2;
    let b: i64 = (if r1 < 0 { 0 } else if r1 > ONE { ONE } else { r1 }) - ONE / 2;
    let s: i64 = (a + b) * 65536;
    let sa = speed_accel as i64;
    let speed = if s < -sa {
        -sa
    } else if s > sa {
        sa
    } else {
        s
    };
    let d: i64 = a - b;
    let t: i64 = if d >= 0 {
        d * RADIAN / ONE
    } else {
        -((-d) * RADIAN / ONE)
    };
    let ra = rotation_accel as i64;
    let turn = if t < -ra {
        -ra
    } else if t > ra {
        ra
    } else {
        t
    };
    (speed, turn)
}

/// The decision model of one creature.
pub struct FlexBrain {
    speed_accel: u32,
    rotation_accel: u32,
    cells: usize,
    nv: FlexNetwork,
}

impl FlexBrain {
    pub closed spec fn speed_accel_spec(&self) -> u32 {
        self.speed_accel
    }

    pub closed spec fn rotation_accel_spec(&self) -> u32 {
        self.rotation_accel
    }

    pub closed spec fn cells_spec(&self) -> usize {
        self.cells
    }

    /// The network as a value.
    pub closed spec fn network(&self) -> NetworkModel {
        self.nv.model()
    }

    /// The network is well formed and on the standard wiring for `cells`.
    pub closed spec fn wf(&self) -> bool {
        &&& self.nv.wf()
        &&& self.rotation_accel < 0x8000_0000
        &&& self.speed_accel < 0x8000_0000
        &&& 1 <= self.cells <= MAX_CELLS
        &&& is_standard(self.nv.topology_spec(), self.cells as nat)
    }

    /// Speed change and turn for the given sensor readings.
    pub open spec fn response(&self, vision_f: Seq<i64>, vision_a: Seq<i64>) -> (int, int) {
        let out = self.network().topology.eval(self.network().genome, vision_f + vision_a);
        (
            speed_change(out[0] as int, out[1] as int, self.speed_accel_spec() as int),
            turn_change(out[0] as int, out[1] as int, self.rotation_accel_spec() as int),
        )
    }

    /// A brain on the standard wiring with fresh weights.
    pub fn random(config: &Config, rng: &mut StdRng) -> (r: FlexBrain)
        requires
            config.wf(),
        ensures
            r.wf(),
            r.cells_spec() == config.eye_cells,
            r.speed_accel_spec() == config.sim_speed_accel,
            r.rotation_accel_spec() == config.sim_rotation_accel,
            is_standard(r.network().topology, config.eye_cells as nat),
            r.network().genome.len() == 8 * config.eye_cells + 8,
            is_fresh_genome(r.network().topology, r.network().genome),
    {
        let t = Topology::standard(config.eye_cells);
        let nv = FlexNetwork::random(t, rng);
        FlexBrain {
            speed_accel: config.sim_speed_accel,
            rotation_accel: config.sim_rotation_accel,
            cells: config.eye_cells,
            nv,
        }
    }

    /// A brain on the standard wiring with the given genome; fails unless the
    /// genome has exactly `8 * eye_cells + 8` entries.
    pub fn from_chromosome(config: &Config, genome: Vec<i32>) -> (r: Result<FlexBrain, TopologyMismatch>)
        requires
            config.wf(),
        ensures
            r is Ok <==> genome@.len() == 8 * config.eye_cells + 8,
            r matches Ok(b) ==> b.wf() && b.network().genome == genome@ && b.cells_spec() == config.eye_cells
                && is_standard(b.network().topology, config.eye_cells as nat)
                && b.speed_accel_spec() == config.sim_speed_accel && b.rotation_accel_spec()
                == config.sim_rotation_accel,
    {
        let t = Topology::standard(config.eye_cells);
        match FlexNetwork::from_genome(t, genome) {
            Ok(nv) => Ok(
                FlexBrain {
                    speed_accel: config.sim_speed_accel,
                    rotation_accel: config.sim_rotation_accel,
                    cells: config.eye_cells,
                    nv,
                },
            ),
            Err(e) => Err(e),
        }
    }

    /// The genome of network number `nv_num` (a brain has the one network,
    /// number 0).
    pub fn as_chromosome(&self, nv_num: usize) -> (r: Vec<i32>)
        requires
            nv_num == 0,
        ensures
            r@ == self.network().genome,
    {
        self.nv.as_genome()
    }

    /// Runs the network on the food readings followed by the neighbour
    /// concentrations, and decodes its first two outputs.
    /// `None` when the readings together do not have one entry per input
    /// slot (`2 * cells`).
    pub fn propagate_0(&self, vision_f: &Vec<i64>, vision_a: &Vec<i64>) -> (r: Option<(i64, i64)>)
        requires
            self.wf(),
        ensures
            r is Some <==> vision_f@.len() + vision_a@.len() == 2 * self.cells_spec(),
            r matches Some(d) ==> d.0 == self.response(vision_f@, vision_a@).0 && d.1 == self.response(
                vision_f@,
                vision_a@,
            ).1 && -(self.speed_accel_spec() as int) <= d.0 <= self.speed_accel_spec(),
    {
        if vision_a.len() > 2 * self.cells || vision_f.len() != 2 * self.cells - vision_a.len() {
            return None;
        }
        let mut vision: Vec<i64> = vision_f.clone();
        let mut k: usize = 0;
        while k < vision_a.len()
            invariant
                k <= vision_a@.len(),
                vision@ == vision_f@ + vision_a@.subrange(0, k as int),
            decreases vision_a@.len() - k,
        {
            vision.push(vision_a[k]);
            assert(vision_a@.subrange(0, k + 1) == vision_a@.subrange(0, k as int).push(vision_a@[k as int]));
            k = k + 1;
        }
        assert(vision_a@.subrange(0, vision_a@.len() as int) == vision_a@);
        let out = self.nv.propagate(&vision).unwrap();
        proof {
            let t = self.nv.topology_spec();
            assert(t.layers@[2]@[0].id == 2 * self.cells + 3);
            assert(out@.len() == 2);
        }
        Some(decode(out[0], out[1], self.speed_accel, self.rotation_accel))
    }
}

/// A turn is always less than half a turn either way.
pub proof fn lemma_turn_bounded(b: FlexBrain, vision_f: Seq<i64>, vision_a: Seq<i64>)
    requires
        b.wf(),
    ensures
        -0x8000_0000 < b.response(vision_f, vision_a).1 < 0x8000_0000,
{
}

} // verus!
