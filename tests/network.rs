use lifelong_sim::brain::{decode, FlexBrain, RADIAN};
use lifelong_sim::config::Config;
use lifelong_sim::network::{FlexNetwork, Neuron, Topology, TopologyMismatch, ONE};
use rand::rngs::StdRng;
use rand::SeedableRng;

fn single_neuron() -> Topology {
    Topology { inputs: 1, slots: 3, layers: vec![vec![Neuron { id: 2, sources: vec![1] }]] }
}

#[test]
fn standard_topology_has_eighty_entries_for_nine_cells() {
    let t = Topology::standard(9);
    assert_eq!(t.inputs, 18);
    assert_eq!(t.layers.len(), 3);
    assert_eq!(t.layers[0].len(), 18);
    assert_eq!(t.layers[1][0].sources.len(), 18);
    assert_eq!(t.layers[2][1].id, 22);
    let genome: Vec<i32> = (0..80).map(|i| i * 7 - 200).collect();
    assert!(FlexNetwork::from_genome(t, genome).is_ok());
}

#[test]
fn genome_round_trip_is_exact() {
    let genome: Vec<i32> = (0..80).map(|i| (i * 7919) % 131071 - 65536).collect();
    let net = FlexNetwork::from_genome(Topology::standard(9), genome.clone()).unwrap();
    assert_eq!(net.as_genome(), genome);
}

#[test]
fn from_genome_rejects_wrong_length() {
    let short: Vec<i32> = vec![0; 79];
    assert_eq!(FlexNetwork::from_genome(Topology::standard(9), short).err(), Some(TopologyMismatch { found: 79 }));
    let long: Vec<i32> = vec![0; 81];
    assert_eq!(FlexNetwork::from_genome(Topology::standard(9), long).err(), Some(TopologyMismatch { found: 81 }));
}

#[test]
fn propagate_adds_bias_and_weighted_sources() {
    let net = FlexNetwork::from_genome(single_neuron(), vec![ONE as i32, 2 * ONE as i32]).unwrap();
    assert_eq!(net.propagate(&vec![ONE]), Some(vec![3 * ONE]));
    assert_eq!(net.propagate(&vec![ONE / 2]), Some(vec![2 * ONE]));
}

#[test]
fn propagate_applies_relu() {
    let net = FlexNetwork::from_genome(single_neuron(), vec![0, -(ONE as i32)]).unwrap();
    assert_eq!(net.propagate(&vec![ONE]), Some(vec![0]));
}

#[test]
fn propagate_rejects_wrong_input_length() {
    let net = FlexNetwork::from_genome(single_neuron(), vec![0, 1]).unwrap();
    assert_eq!(net.propagate(&vec![]), None);
    assert_eq!(net.propagate(&vec![1, 2]), None);
}

#[test]
fn fresh_network_starts_near_identity() {
    let mut rng = StdRng::seed_from_u64(3);
    let net = FlexNetwork::random(Topology::standard(9), &mut rng);
    let g = net.as_genome();
    assert_eq!(g.len(), 80);
    for k in 0..18 {
        assert_eq!(g[2 * k], 0);
        assert_eq!(g[2 * k + 1], ONE as i32);
    }
    assert!(g[36..].iter().all(|w| -(ONE as i32) <= *w && *w <= ONE as i32));
    assert!(g[37..55].iter().any(|w| *w != 0));
}

#[test]
fn decode_sums_and_differences() {
    // a = 1/2, b = -1/2: no speed change, a turn of one radian.
    assert_eq!(decode(ONE, 0, 1000, u32::MAX / 2), (0, RADIAN));
    // Clamped to the accelerations.
    assert_eq!(decode(ONE, 0, 1000, 5), (0, 5));
    assert_eq!(decode(ONE, ONE, 1000, 5), (1000, 0));
    assert_eq!(decode(-7, -7, 1000, 5), (-1000, 0));
    // a = 1/4, b = 0: speed 1/4 of the torus side.
    assert_eq!(decode(3 * ONE / 4, ONE / 2, u32::MAX / 2, 0), (1 << 30, 0));
}

#[test]
fn brain_from_genome_checks_length() {
    let config = Config::default();
    assert!(FlexBrain::from_chromosome(&config, vec![0; 80]).is_ok());
    assert!(FlexBrain::from_chromosome(&config, vec![0; 8]).is_err());
}

#[test]
fn zero_brain_turns_nowhere() {
    let config = Config::default();
    let brain = FlexBrain::from_chromosome(&config, vec![0; 80]).unwrap();
    // All outputs zero: a = b = -1/2, so the speed drops by the full
    // acceleration and the heading does not turn.
    let (ds, dr) = brain.propagate_0(&vec![0; 9], &vec![0; 9]).unwrap();
    assert_eq!(ds, -(config.sim_speed_accel as i64));
    assert_eq!(dr, 0);
}

#[test]
fn brain_rejects_wrong_reading_lengths() {
    let config = Config::default();
    let brain = FlexBrain::from_chromosome(&config, vec![0; 80]).unwrap();
    assert_eq!(brain.propagate_0(&vec![0; 9], &vec![0; 8]), None);
    assert_eq!(brain.propagate_0(&vec![0; 10], &vec![0; 9]), None);
    assert!(brain.propagate_0(&vec![0; 10], &vec![0; 8]).is_some());
}

#[test]
fn rebuilt_brain_decides_the_same() {
    let config = Config::default();
    let mut rng = StdRng::seed_from_u64(21);
    let a = FlexBrain::random(&config, &mut rng);
    let genome = a.as_chromosome(0);
    assert_eq!(genome.len(), 80);
    let b = FlexBrain::from_chromosome(&config, genome).unwrap();
    let vf: Vec<i64> = (0..9).map(|k| k * 1000).collect();
    let va: Vec<i64> = (0..9).map(|k| ONE - k * 500).collect();
    assert_eq!(a.propagate_0(&vf, &va), b.propagate_0(&vf, &va));
}

#[test]
fn topology_validity() {
    assert!(Topology::standard(3).is_valid());
    assert!(single_neuron().is_valid());
    let bad_id = Topology { inputs: 1, slots: 3, layers: vec![vec![Neuron { id: 3, sources: vec![1] }]] };
    assert!(!bad_id.is_valid());
    let bias_slot = Topology { inputs: 1, slots: 3, layers: vec![vec![Neuron { id: 0, sources: vec![1] }]] };
    assert!(!bias_slot.is_valid());
    let bad_source = Topology { inputs: 1, slots: 3, layers: vec![vec![Neuron { id: 2, sources: vec![1, 7] }]] };
    assert!(!bad_source.is_valid());
    let no_room = Topology { inputs: 3, slots: 3, layers: vec![] };
    assert!(!no_room.is_valid());
}

#[test]
fn wide_standard_topology() {
    let cells = 4096;
    let t = Topology::standard(cells);
    assert!(t.is_valid());
    let n = 8 * cells + 8;
    let net = FlexNetwork::from_genome(t, vec![1; n]).unwrap();
    assert_eq!(net.as_genome().len(), n);
    assert_eq!(net.propagate(&vec![ONE; 2 * cells]).map(|v| v.len()), Some(2));
}
