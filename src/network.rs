//! A sparse feed-forward network whose weights are addressed by a flat genome.
//!
//! Values live in numbered slots. Slot 0 always holds the constant `ONE` (the
//! bias source), slots `1..=inputs` receive the input vector, and each neuron
//! writes its result into the slot given by its id. A layer reads the slots as
//! they stood before the layer started, so neurons of one layer never observe
//! each other. All quantities are fixed-point numbers with `ONE` as unity.
use crate::rng::draw_between;
use rand::rngs::StdRng;
use vstd::prelude::*;

verus! {

/// Fixed-point unity: `ONE` stands for 1.0.
pub const ONE: i64 = 65536;

/// Largest magnitude a neuron accumulator may reach; sums saturate here.
pub const LIMIT: i64 = 1099511627776;

/// One neuron: the slot it writes and the slots it reads. Its genome entries
/// are its bias followed by one weight per source, in order.
pub struct Neuron {
    pub id: usize,
    pub sources: Vec<usize>,
}

/// The wiring of a network: how many input slots, how many slots in all, and
/// the neurons of each layer in evaluation order.
pub struct Topology {
    pub inputs: usize,
    pub slots: usize,
    pub layers: Vec<Vec<Neuron>>,
}

/// Number of genome entries of one neuron.
pub open spec fn neuron_size(n: Neuron) -> nat {
    1 + n.sources@.len()
}

/// Number of genome entries of the first `j` neurons of a layer.
pub open spec fn layer_size(l: Seq<Neuron>, j: int) -> nat
    decreases j,
{
    if j <= 0 || j > l.len() {
        0
    } else {
        layer_size(l, j - 1) + neuron_size(l[j - 1])
    }
}

/// Number of genome entries of the first `i` layers.
pub open spec fn layers_size(ls: Seq<Vec<Neuron>>, i: int) -> nat
    decreases i,
{
    if i <= 0 || i > ls.len() {
        0
    } else {
        layers_size(ls, i - 1) + layer_size(ls[i - 1]@, ls[i - 1]@.len() as int)
    }
}

pub proof fn lemma_layer_size_mono(l: Seq<Neuron>, a: int, b: int)
    requires
        0 <= a <= b <= l.len(),
    ensures
        layer_size(l, a) <= layer_size(l, b),
    decreases b - a,
{
    if a < b {
        lemma_layer_size_mono(l, a, b - 1);
    }
}

pub proof fn lemma_layers_size_mono(ls: Seq<Vec<Neuron>>, a: int, b: int)
    requires
        0 <= a <= b <= ls.len(),
    ensures
        layers_size(ls, a) <= layers_size(ls, b),
    decreases b - a,
{
    if a < b {
        lemma_layers_size_mono(ls, a, b - 1);
    }
}

pub open spec fn clamp(x: int, lo: int, hi: int) -> int {
    if x < lo {
        lo
    } else if x > hi {
        hi
    } else {
        x
    }
}

pub open spec fn relu(x: int) -> int {
    if x < 0 {
        0
    } else {
        x
    }
}

/// Fixed-point product of a weight and a non-negative value, rounded toward zero.
pub open spec fn weighted(w: int, v: int) -> int {
    if w >= 0 {
        (w * v) / (ONE as int)
    } else {
        -(((-w) * v) / (ONE as int))
    }
}

/// Accumulator of a neuron after its bias and its first `k` sources; the
/// neuron's genome entries start at `off`.
pub open spec fn neuron_acc(srcs: Seq<usize>, g: Seq<i32>, off: int, vals: Seq<i64>, k: int) -> int
    decreases k,
{
    if k <= 0 {
        g[off] as int
    } else {
        clamp(
            neuron_acc(srcs, g, off, vals, k - 1) + weighted(g[off + k] as int, vals[srcs[k - 1] as int] as int),
            -(LIMIT as int),
            LIMIT as int,
        )
    }
}

/// Output of a neuron: ReLU of its saturated accumulator.
pub open spec fn neuron_out(n: Neuron, g: Seq<i32>, off: int, vals: Seq<i64>) -> int {
    relu(neuron_acc(n.sources@, g, off, vals, n.sources@.len() as int))
}

/// Slots after the first `j` neurons of a layer have written their outputs,
/// each computed from the slots `before` the layer.
pub open spec fn layer_apply(l: Seq<Neuron>, g: Seq<i32>, off: int, before: Seq<i64>, j: int) -> Seq<i64>
    decreases j,
{
    if j <= 0 || j > l.len() {
        before
    } else {
        layer_apply(l, g, off, before, j - 1).update(
            l[j - 1].id as int,
            neuron_out(l[j - 1], g, off + layer_size(l, j - 1), before) as i64,
        )
    }
}

/// Slots after the first `i` layers have run.
pub open spec fn run_layers(ls: Seq<Vec<Neuron>>, g: Seq<i32>, vals: Seq<i64>, i: int) -> Seq<i64>
    decreases i,
{
    if i <= 0 || i > ls.len() {
        vals
    } else {
        let prev = run_layers(ls, g, vals, i - 1);
        layer_apply(ls[i - 1]@, g, layers_size(ls, i - 1) as int, prev, ls[i - 1]@.len() as int)
    }
}

/// Slots before the first layer: the bias constant, the inputs clamped to
/// `[0, LIMIT]`, and zero elsewhere.
pub open spec fn initial_slots(inputs: Seq<i64>, slots: nat) -> Seq<i64> {
    Seq::new(
        slots,
        |s: int|
            if s == 0 {
                ONE
            } else if s <= inputs.len() {
                clamp(inputs[s - 1] as int, 0, LIMIT as int) as i64
            } else {
                0i64
            },
    )
}

impl Topology {
    pub open spec fn genome_len(&self) -> nat {
        layers_size(self.layers@, self.layers@.len() as int)
    }

    /// Every slot named by a neuron exists, neurons never overwrite the bias
    /// slot, and the input slots fit.
    pub open spec fn wf(&self) -> bool {
        &&& self.inputs < self.slots
        &&& forall|i: int, j: int|
            0 <= i < self.layers@.len() && 0 <= j < self.layers@[i]@.len() ==> {
                let n = #[trigger] self.layers@[i]@[j];
                &&& 1 <= n.id < self.slots
                &&& forall|k: int| 0 <= k < n.sources@.len() ==> n.sources@[k] < self.slots
            }
    }

    /// Neuron ids of the last layer, which are the network's outputs.
    pub open spec fn output_ids(&self) -> Seq<usize> {
        if self.layers@.len() == 0 {
            Seq::empty()
        } else {
            self.layers@.last()@.map_values(|n: Neuron| n.id)
        }
    }

    /// Result of running the network with genome `g` on `inputs`.
    pub open spec fn eval(&self, g: Seq<i32>, inputs: Seq<i64>) -> Seq<i64> {
        let fin = run_layers(
            self.layers@,
            g,
            initial_slots(inputs, self.slots as nat),
            self.layers@.len() as int,
        );
        self.output_ids().map_values(|id: usize| fin[id as int])
    }
}


/// What a network is: a wiring and one weight per genome entry.
pub struct NetworkModel {
    pub topology: Topology,
    pub genome: Seq<i32>,
}

/// The network a genome describes for a wiring, if it has the right length.
pub open spec fn decode(t: Topology, g: Seq<i32>) -> Option<NetworkModel> {
    if g.len() == t.genome_len() {
        Some(NetworkModel { topology: t, genome: g })
    } else {
        None
    }
}

/// A network: a topology together with one weight per genome entry.
pub struct FlexNetwork {
    topology: Topology,
    weights: Vec<i32>,
}

/// Round trip of the codec: for a correctly sized genome `g`,
/// `from_genome(t, g)` succeeds (its result `n` has `Some(n.model()) ==
/// decode(t, g)`), and `as_genome` of that network (which returns
/// `n.genome()`) is `g`, entry for entry, on the same wiring.
pub proof fn lemma_genome_round_trip(t: Topology, g: Seq<i32>, n: FlexNetwork)
    requires
        t.wf(),
        g.len() == t.genome_len(),
        Some(n.model()) == decode(t, g),
    ensures
        decode(t, g) is Some,
        n.genome() == g,
        n.topology_spec() == t,
{
}

/// The genome handed to `FlexNetwork::from_genome` has the wrong length.
#[derive(Debug, PartialEq, Eq, Structural)]
pub struct TopologyMismatch {
    pub found: usize,
}

/// Weighted source value in fixed point, rounded toward zero.
fn weigh(w: i32, v: i64) -> (r: i128)
    requires
        0 <= v <= LIMIT,
    ensures
        r as int == weighted(w as int, v as int),
        -0x80_0000_0000_0000 <= r <= 0x80_0000_0000_0000,
{
    let a: i128 = if w >= 0 { w as i128 } else { -(w as i128) };
    let b: i128 = v as i128;
    assert(0 <= a * b <= 0x80_0000_0000_0000_0000) by (nonlinear_arith)
        requires
            0 <= a <= 0x8000_0000,
            0 <= b <= LIMIT,
    ;
    let p: i128 = a * b;
    assert(p / 65536 <= 0x80_0000_0000_0000) by (nonlinear_arith)
        requires
            0 <= p <= 0x80_0000_0000_0000_0000,
    ;
    if w >= 0 {
        p / 65536
    } else {
        -(p / 65536)
    }
}

impl FlexNetwork {
    pub closed spec fn topology_spec(&self) -> Topology {
        self.topology
    }

    /// The genome of the network: its weights in construction order.
    pub closed spec fn genome(&self) -> Seq<i32> {
        self.weights@
    }

    /// The network as a value: its wiring and its genome.
    pub open spec fn model(&self) -> NetworkModel {
        NetworkModel { topology: self.topology_spec(), genome: self.genome() }
    }

    pub closed spec fn wf(&self) -> bool {
        self.topology.wf() && self.weights@.len() == self.topology.genome_len()
    }

    /// Rebuilds a network from its topology and a genome; fails unless the
    /// genome has exactly one entry per bias and per connection.
    pub fn from_genome(topology: Topology, genome: Vec<i32>) -> (r: Result<FlexNetwork, TopologyMismatch>)
        requires
            topology.wf(),
        ensures
            r is Ok <==> decode(topology, genome@) is Some,
            r is Ok ==> r->Ok_0.wf() && Some(r->Ok_0.model()) == decode(topology, genome@),
    {
        let ghost ls = topology.layers@;
        let mut total: usize = 0;
        let mut i: usize = 0;
        while i < topology.layers.len()
            invariant
                ls == topology.layers@,
                0 <= i <= ls.len(),
                total == layers_size(ls, i as int),
                total <= genome.len(),
            decreases ls.len() - i,
        {
            let layer = &topology.layers[i];
            let ghost l = layer@;
            let mut j: usize = 0;
            while j < layer.len()
                invariant
                    ls == topology.layers@,
                    i < ls.len(),
                    l == ls[i as int]@,
                    layer@ == l,
                    0 <= j <= l.len(),
                    total == layers_size(ls, i as int) + layer_size(l, j as int),
                    total <= genome.len(),
                decreases l.len() - j,
            {
                let n = layer[j].sources.len();
                if n >= genome.len() - total {
                    proof {
                        lemma_layer_size_mono(l, j + 1, l.len() as int);
                        lemma_layers_size_mono(ls, i + 1, ls.len() as int);
                    }
                    return Err(TopologyMismatch { found: genome.len() });
                }
                total = total + 1 + n;
                j = j + 1;
            }
            i = i + 1;
        }
        if total != genome.len() {
            return Err(TopologyMismatch { found: genome.len() });
        }
        Ok(FlexNetwork { topology, weights: genome })
    }

    /// The genome of the network.
    pub fn as_genome(&self) -> (r: Vec<i32>)
        ensures
            r@ == self.genome(),
    {
        self.weights.clone()
    }
}

impl FlexNetwork {
    pub fn inputs(&self) -> (r: usize)
        ensures
            r == self.topology_spec().inputs,
    {
        self.topology.inputs
    }

    /// Runs the network; `None` when the input vector does not have one entry
    /// per input slot.
    pub fn propagate(&self, inputs: &Vec<i64>) -> (r: Option<Vec<i64>>)
        requires
            self.wf(),
        ensures
            r is Some <==> inputs@.len() == self.topology_spec().inputs,
            r is Some ==> r->Some_0@ == self.topology_spec().eval(self.genome(), inputs@),
    {
        if inputs.len() != self.topology.inputs {
            return None;
        }
        let ghost g = self.weights@;
        let ghost ls = self.topology.layers@;
        let wlen = self.weights.len();
        let slots = self.topology.slots;
        let mut vals: Vec<i64> = Vec::new();
        let mut s: usize = 0;
        while s < slots
            invariant
                s <= slots,
                slots == self.topology.slots,
                inputs@.len() == self.topology.inputs,
                self.topology.inputs < slots,
                vals@.len() == s,
                forall|t: int| 0 <= t < s ==> vals@[t] == initial_slots(inputs@, slots as nat)[t],
            decreases slots - s,
        {
            let v: i64 = if s == 0 {
                ONE
            } else if s <= inputs.len() {
                let x = inputs[s - 1];
                if x < 0 {
                    0
                } else if x > LIMIT {
                    LIMIT
                } else {
                    x
                }
            } else {
                0
            };
            vals.push(v);
            s = s + 1;
        }
        assert(vals@ =~= initial_slots(inputs@, slots as nat));
        let ghost init = vals@;
        let mut off: usize = 0;
        let mut i: usize = 0;
        while i < self.topology.layers.len()
            invariant
                self.wf(),
                g == self.weights@,
                g.len() == wlen,
                ls == self.topology.layers@,
                slots == self.topology.slots,
                0 <= i <= ls.len(),
                off == layers_size(ls, i as int),
                vals@.len() == slots,
                forall|t: int| 0 <= t < slots ==> 0 <= #[trigger] vals@[t] <= LIMIT,
                vals@ == run_layers(ls, g, init, i as int),
            decreases ls.len() - i,
        {
            let layer = &self.topology.layers[i];
            let ghost l = layer@;
            let before = vals.clone();
            proof {
                lemma_layers_size_mono(ls, i + 1, ls.len() as int);
                assert(layers_size(ls, i + 1) == layers_size(ls, i as int) + layer_size(l, l.len() as int));
            }
            let mut cur: usize = off;
            let mut j: usize = 0;
            while j < layer.len()
                invariant
                    cur == off + layer_size(l, j as int),
                    self.wf(),
                    g == self.weights@,
                g.len() == wlen,
                    ls == self.topology.layers@,
                    slots == self.topology.slots,
                    i < ls.len(),
                    l == ls[i as int]@,
                    layer@ == l,
                    0 <= j <= l.len(),
                    off == layers_size(ls, i as int),
                    off + layer_size(l, l.len() as int) <= g.len(),
                    before@.len() == slots,
                    vals@.len() == slots,
                    forall|t: int| 0 <= t < slots ==> 0 <= #[trigger] before@[t] <= LIMIT,
                    forall|t: int| 0 <= t < slots ==> 0 <= #[trigger] vals@[t] <= LIMIT,
                    vals@ == layer_apply(l, g, off as int, before@, j as int),
                decreases l.len() - j,
            {
                let neuron = &layer[j];
                let ghost base = off + layer_size(l, j as int);
                proof {
                    lemma_layer_size_mono(l, j + 1, l.len() as int);
                    assert(layer_size(l, j + 1) == layer_size(l, j as int) + 1 + neuron.sources@.len());
                    let n = self.topology.layers@[i as int]@[j as int];
                    assert(1 <= n.id < slots);
                    assert(forall|k: int| 0 <= k < n.sources@.len() ==> n.sources@[k] < slots);
                }
                let base_x: usize = cur;
                let mut acc: i128 = self.weights[base_x] as i128;
                let mut k: usize = 0;
                while k < neuron.sources.len()
                    invariant
                        self.wf(),
                        g == self.weights@,
                        g.len() == wlen,
                g.len() == wlen,
                        slots == self.topology.slots,
                        neuron == l[j as int],
                        j < l.len(),
                        l == ls[i as int]@,
                        i < ls.len(),
                        base_x == base,
                        base + 1 + neuron.sources@.len() <= g.len(),
                        forall|q: int| 0 <= q < neuron.sources@.len() ==> neuron.sources@[q] < slots,
                        0 <= k <= neuron.sources@.len(),
                        before@.len() == slots,
                        forall|t: int| 0 <= t < slots ==> 0 <= #[trigger] before@[t] <= LIMIT,
                        acc as int == neuron_acc(neuron.sources@, g, base, before@, k as int),
                        -0x8000_0000_0000 <= acc <= 0x100_0000_0000,
                    decreases neuron.sources@.len() - k,
                {
                    let src = neuron.sources[k];
                    assert(src < slots);
                    let w = self.weights[base_x + k + 1];
                    let t: i128 = acc + weigh(w, before[src]);
                    acc = if t < -(LIMIT as i128) {
                        -(LIMIT as i128)
                    } else if t > LIMIT as i128 {
                        LIMIT as i128
                    } else {
                        t
                    };
                    k = k + 1;
                }
                let out: i64 = if acc < 0 {
                    0
                } else {
                    acc as i64
                };
                vals.set(neuron.id, out);
                cur = cur + 1 + neuron.sources.len();
                j = j + 1;
            }
            off = cur;
            i = i + 1;
        }
        let ghost fin = vals@;
        if self.topology.layers.len() == 0 {
            let out: Vec<i64> = Vec::new();
            assert(out@ =~= self.topology_spec().eval(g, inputs@));
            return Some(out);
        }
        let last = &self.topology.layers[self.topology.layers.len() - 1];
        let mut out: Vec<i64> = Vec::new();
        let mut j: usize = 0;
        while j < last.len()
            invariant
                0 <= j <= last@.len(),
                ls.len() > 0,
                last == ls.last(),
                ls == self.topology.layers@,
                self.wf(),
                vals@ == fin,
                fin.len() == slots,
                slots == self.topology.slots,
                out@.len() == j,
                forall|t: int| 0 <= t < j ==> out@[t] == fin[last@[t].id as int],
            decreases last@.len() - j,
        {
            proof {
                assert(last@[j as int] == ls[ls.len() - 1]@[j as int]);
            }
            out.push(vals[last[j].id]);
            j = j + 1;
        }
        assert(out@ =~= self.topology_spec().eval(g, inputs@));
        Some(out)
    }
}

pub proof fn lemma_layer_size_push(l: Seq<Neuron>, n: Neuron, j: int)
    requires
        0 <= j <= l.len(),
    ensures
        layer_size(l.push(n), j) == layer_size(l, j),
        layer_size(l.push(n), l.len() + 1int) == layer_size(l, l.len() as int) + neuron_size(n),
    decreases j,
{
    if j > 0 {
        lemma_layer_size_push(l, n, j - 1);
    }
    assert(l.push(n)[l.len() as int] == n);
    lemma_layer_size_prefix(l, n, l.len() as int);
}

proof fn lemma_layer_size_prefix(l: Seq<Neuron>, n: Neuron, j: int)
    requires
        0 <= j <= l.len(),
    ensures
        layer_size(l.push(n), j) == layer_size(l, j),
    decreases j,
{
    if j > 0 {
        lemma_layer_size_prefix(l, n, j - 1);
        assert(l.push(n)[j - 1] == l[j - 1]);
    }
}

/// Sources `lo, lo + 1, ..., hi - 1`.
pub open spec fn source_range(lo: int, hi: int) -> Seq<usize> {
    Seq::new((hi - lo) as nat, |k: int| (lo + k) as usize)
}

/// The standard three-layer wiring for `cells` sensor cells of each kind:
/// one neuron per input slot reading that slot alone, two hidden neurons
/// reading every input neuron, and two output neurons reading both hidden ones.
pub open spec fn is_standard(t: Topology, cells: nat) -> bool {
    let m: int = 2 * cells as int;
    &&& t.inputs == m
    &&& t.slots == m + 5
    &&& t.layers@.len() == 3
    &&& t.layers@[0]@.len() == m
    &&& t.layers@[1]@.len() == 2
    &&& t.layers@[2]@.len() == 2
    &&& forall|k: int| 0 <= k < m ==> #[trigger] t.layers@[0]@[k].id == k + 1
        && t.layers@[0]@[k].sources@ == seq![(k + 1) as usize]
    &&& forall|k: int| 0 <= k < 2 ==> #[trigger] t.layers@[1]@[k].id == m + 1 + k
        && t.layers@[1]@[k].sources@ == source_range(1, m + 1)
    &&& forall|k: int| 0 <= k < 2 ==> #[trigger] t.layers@[2]@[k].id == m + 3 + k
        && t.layers@[2]@[k].sources@ == source_range(m + 1, m + 3)
}

fn sources_between(lo: usize, hi: usize) -> (r: Vec<usize>)
    requires
        lo <= hi,
    ensures
        r@ == source_range(lo as int, hi as int),
{
    let mut r: Vec<usize> = Vec::new();
    let mut s: usize = lo;
    while s < hi
        invariant
            lo <= s <= hi,
            r@ =~= source_range(lo as int, s as int),
        decreases hi - s,
    {
        r.push(s);
        s = s + 1;
    }
    r
}

/// A layer of `count` neurons with ids from `first`, each reading `lo..hi`.
fn dense_layer(first: usize, count: usize, lo: usize, hi: usize) -> (r: Vec<Neuron>)
    requires
        lo <= hi,
        first + count <= usize::MAX,
    ensures
        r@.len() == count,
        forall|k: int| 0 <= k < count ==> #[trigger] r@[k].id == first + k && r@[k].sources@ == source_range(
            lo as int,
            hi as int,
        ),
        layer_size(r@, count as int) == count * (1 + hi - lo),
{
    let mut r: Vec<Neuron> = Vec::new();
    let mut k: usize = 0;
    while k < count
        invariant
            lo <= hi,
            first + count <= usize::MAX,
            k <= count,
            r@.len() == k,
            forall|q: int| 0 <= q < k ==> #[trigger] r@[q].id == first + q && r@[q].sources@ == source_range(
                lo as int,
                hi as int,
            ),
            layer_size(r@, k as int) == k * (1 + hi - lo),
        decreases count - k,
    {
        let n = Neuron { id: first + k, sources: sources_between(lo, hi) };
        let ghost prev = r@;
        let ghost nv = n;
        proof {
            lemma_layer_size_push(r@, n, k as int);
            assert((k + 1) * (1 + hi - lo) == k * (1 + hi - lo) + (1 + hi - lo)) by (nonlinear_arith);
        }
        r.push(n);
        assert(r@ == prev.push(nv));
        assert(forall|q: int| 0 <= q < k ==> r@[q] == prev[q]);
        assert(r@[k as int] == nv);
        k = k + 1;
    }
    r
}

/// Largest number of sensor cells the standard wiring accepts (2^28). The
/// genome has `8 * cells + 8` entries and is indexed by `usize`, which holds
/// 2^32 - 1 on every target; the sector product `(angle + fov/2) * cells`
/// (angle term at most 2^32) then stays far inside `i64`.
pub const MAX_CELLS: usize = 268435456;

impl Topology {
    /// The standard wiring for `cells` sensor cells (food and neighbour
    /// readings, so `2 * cells` inputs).
    pub fn standard(cells: usize) -> (r: Topology)
        requires
            1 <= cells <= MAX_CELLS,
        ensures
            is_standard(r, cells as nat),
            r.wf(),
            r.genome_len() == 8 * cells + 8,
    {
        let m = 2 * cells;
        let mut first: Vec<Neuron> = Vec::new();
        let mut k: usize = 0;
        while k < m
            invariant
                m == 2 * cells,
                cells <= MAX_CELLS,
                k <= m,
                first@.len() == k,
                forall|q: int| 0 <= q < k ==> #[trigger] first@[q].id == q + 1
                    && first@[q].sources@ == seq![(q + 1) as usize],
                layer_size(first@, k as int) == 2 * k,
            decreases m - k,
        {
            let n = Neuron { id: k + 1, sources: vec![k + 1] };
            let ghost prev = first@;
            let ghost nv = n;
            proof {
                lemma_layer_size_push(first@, n, k as int);
            }
            first.push(n);
            assert(first@ == prev.push(nv));
            assert(forall|q: int| 0 <= q < k ==> first@[q] == prev[q]);
            assert(first@[k as int] == nv);
            assert(nv.sources@ == seq![(k + 1) as usize]);
            k = k + 1;
        }
        let hidden = dense_layer(m + 1, 2, 1, m + 1);
        let out = dense_layer(m + 3, 2, m + 1, m + 3);
        let ghost f = first@;
        let ghost h = hidden@;
        let ghost o = out@;
        let mut layers: Vec<Vec<Neuron>> = Vec::new();
        layers.push(first);
        layers.push(hidden);
        layers.push(out);
        let t = Topology { inputs: m, slots: m + 5, layers };
        proof {
            let ls = t.layers@;
            assert(ls[0]@ == f);
            assert(ls[1]@ == h);
            assert(ls[2]@ == o);
            assert(ls[0]@.len() == m);
            assert(layers_size(ls, 0) == 0);
            assert(layer_size(f, m as int) == 2 * m);
            assert(layers_size(ls, 1) == 2 * m);
            assert(layers_size(ls, 2) == 2 * m + 2 * (1 + m));
            assert(layers_size(ls, 3) == 2 * m + 2 * (1 + m) + 6);
            assert forall|i: int, j: int|
                0 <= i < t.layers@.len() && 0 <= j < t.layers@[i]@.len() implies {
                    let n = #[trigger] t.layers@[i]@[j];
                    &&& 1 <= n.id < t.slots
                    &&& forall|k: int| 0 <= k < n.sources@.len() ==> n.sources@[k] < t.slots
                } by {
                if i == 0 {
                    assert(f[j].id == j + 1);
                } else if i == 1 {
                    assert(h[j].id == m + 1 + j);
                } else {
                    assert(o[j].id == m + 3 + j);
                }
            }
        }
        t
    }
}

impl Topology {
    /// Decides whether the wiring is well formed.
    pub fn is_valid(&self) -> (r: bool)
        ensures
            r == self.wf(),
    {
        if self.inputs >= self.slots {
            return false;
        }
        let mut i: usize = 0;
        while i < self.layers.len()
            invariant
                self.inputs < self.slots,
                i <= self.layers@.len(),
                forall|a: int, j: int|
                    0 <= a < i && 0 <= j < self.layers@[a]@.len() ==> {
                        let n = #[trigger] self.layers@[a]@[j];
                        &&& 1 <= n.id < self.slots
                        &&& forall|k: int| 0 <= k < n.sources@.len() ==> n.sources@[k] < self.slots
                    },
            decreases self.layers@.len() - i,
        {
            let layer = &self.layers[i];
            let mut j: usize = 0;
            while j < layer.len()
                invariant
                    self.inputs < self.slots,
                    i < self.layers@.len(),
                    layer@ == self.layers@[i as int]@,
                    j <= layer@.len(),
                    forall|a: int, q: int|
                        ((0 <= a < i && 0 <= q < self.layers@[a]@.len()) || (a == i && 0 <= q < j)) ==> {
                            let n = #[trigger] self.layers@[a]@[q];
                            &&& 1 <= n.id < self.slots
                            &&& forall|k: int| 0 <= k < n.sources@.len() ==> n.sources@[k] < self.slots
                        },
                decreases layer@.len() - j,
            {
                let neuron = &layer[j];
                if neuron.id < 1 || neuron.id >= self.slots {
                    assert(self.layers@[i as int]@[j as int] == *neuron);
                    return false;
                }
                let mut k: usize = 0;
                while k < neuron.sources.len()
                    invariant
                        i < self.layers@.len(),
                        layer@ == self.layers@[i as int]@,
                        j < layer@.len(),
                        *neuron == layer@[j as int],
                        k <= neuron.sources@.len(),
                        forall|q: int| 0 <= q < k ==> neuron.sources@[q] < self.slots,
                    decreases neuron.sources@.len() - k,
                {
                    if neuron.sources[k] >= self.slots {
                        assert(self.layers@[i as int]@[j as int] == *neuron);
                        return false;
                    }
                    k = k + 1;
                }
                assert(self.layers@[i as int]@[j as int] == *neuron);
                j = j + 1;
            }
            i = i + 1;
        }
        true
    }
}

/// Genome position of the bias of neuron `j` in layer `i`; its weights follow.
pub open spec fn bias_at(t: Topology, i: int, j: int) -> int {
    (layers_size(t.layers@, i) + layer_size(t.layers@[i]@, j)) as int
}

/// What a fresh network's genome looks like: every bias is zero, every
/// weight of the first layer is `ONE`, and every other weight lies in
/// `[-ONE, ONE]`.
pub open spec fn is_fresh_genome(t: Topology, g: Seq<i32>) -> bool {
    forall|i: int, j: int|
        0 <= i < t.layers@.len() && 0 <= j < t.layers@[i]@.len() ==> {
            let b = #[trigger] bias_at(t, i, j);
            let n = t.layers@[i]@[j].sources@.len();
            &&& g[b] == 0
            &&& forall|k: int|
                1 <= k <= n ==> if i == 0 {
                    g[b + k] == ONE
                } else {
                    -ONE <= #[trigger] g[b + k] <= ONE
                }
        }
}

impl FlexNetwork {
    /// A network with the given wiring and fresh weights: zero biases, `ONE`
    /// on each first-layer connection, and uniform draws from `[-ONE, ONE]`
    /// for every other connection.
    pub fn random(topology: Topology, rng: &mut StdRng) -> (r: FlexNetwork)
        requires
            topology.wf(),
            topology.genome_len() <= usize::MAX,
        ensures
            r.wf(),
            r.topology_spec() == topology,
            r.genome().len() == topology.genome_len(),
            is_fresh_genome(topology, r.genome()),
    {
        let ghost ls = topology.layers@;
        let mut g: Vec<i32> = Vec::new();
        let mut i: usize = 0;
        while i < topology.layers.len()
            invariant
                ls == topology.layers@,
                topology.genome_len() <= usize::MAX,
                0 <= i <= ls.len(),
                g@.len() == layers_size(ls, i as int),
                forall|a: int, j: int|
                    0 <= a < i && 0 <= j < ls[a]@.len() ==> {
                        let b = #[trigger] bias_at(topology, a, j);
                        let n = ls[a]@[j].sources@.len();
                        &&& g@[b] == 0
                        &&& forall|k: int|
                            1 <= k <= n ==> if a == 0 {
                                g@[b + k] == ONE
                            } else {
                                -ONE <= #[trigger] g@[b + k] <= ONE
                            }
                    },
            decreases ls.len() - i,
        {
            let layer = &topology.layers[i];
            let ghost l = layer@;
            proof {
                lemma_layers_size_mono(ls, i + 1, ls.len() as int);
            }
            let mut j: usize = 0;
            while j < layer.len()
                invariant
                    ls == topology.layers@,
                    topology.genome_len() <= usize::MAX,
                    i < ls.len(),
                    l == ls[i as int]@,
                    layer@ == l,
                    0 <= j <= l.len(),
                    layers_size(ls, i + 1) <= topology.genome_len(),
                    g@.len() == layers_size(ls, i as int) + layer_size(l, j as int),
                    forall|a: int, q: int|
                        ((0 <= a < i && 0 <= q < ls[a]@.len()) || (a == i && 0 <= q < j)) ==> {
                            let b = #[trigger] bias_at(topology, a, q);
                            let n = ls[a]@[q].sources@.len();
                            &&& g@[b] == 0
                            &&& forall|k: int|
                                1 <= k <= n ==> if a == 0 {
                                    g@[b + k] == ONE
                                } else {
                                    -ONE <= #[trigger] g@[b + k] <= ONE
                                }
                        },
                decreases l.len() - j,
            {
                let n = layer[j].sources.len();
                proof {
                    lemma_layer_size_mono(l, j + 1, l.len() as int);
                    assert(layers_size(ls, i + 1) == layers_size(ls, i as int) + layer_size(l, l.len() as int));
                }
                let ghost start = g@.len();
                let ghost prev = g@;
                g.push(0);
                let mut k: usize = 0;
                while k < n
                    invariant
                        g@.len() == start + 1 + k,
                        start + 1 + n <= topology.genome_len(),
                        topology.genome_len() <= usize::MAX,
                        k <= n,
                        g@[start as int] == 0,
                        forall|p: int| 0 <= p < start ==> g@[p] == prev[p],
                        forall|q: int|
                            1 <= q <= k ==> if i == 0 {
                                g@[start + q] == ONE
                            } else {
                                -ONE <= #[trigger] g@[start + q] <= ONE
                            },
                    decreases n - k,
                {
                    let w: i32 = if i == 0 {
                        65536
                    } else {
                        draw_between(rng, -65536, 65536) as i32
                    };
                    g.push(w);
                    k = k + 1;
                }
                proof {
                    assert(bias_at(topology, i as int, j as int) == start);
                    assert(layer_size(l, j + 1) == layer_size(l, j as int) + 1 + n);
                    assert forall|a: int, q: int|
                        ((0 <= a < i && 0 <= q < ls[a]@.len()) || (a == i && 0 <= q < j + 1)) implies {
                            let b = #[trigger] bias_at(topology, a, q);
                            let nn = ls[a]@[q].sources@.len();
                            &&& g@[b] == 0
                            &&& forall|k: int|
                                1 <= k <= nn ==> if a == 0 {
                                    g@[b + k] == ONE
                                } else {
                                    -ONE <= #[trigger] g@[b + k] <= ONE
                                }
                        } by {
                        if a < i || q < j {
                            let b = bias_at(topology, a, q);
                            let nn = ls[a]@[q].sources@.len();
                            if a < i {
                                lemma_layer_size_mono(ls[a]@, q + 1, ls[a]@.len() as int);
                                lemma_layers_size_mono(ls, a + 1, i as int);
                                assert(layers_size(ls, a + 1) == layers_size(ls, a) + layer_size(ls[a]@, ls[a]@.len() as int));
                            } else {
                                lemma_layer_size_mono(l, q + 1, j as int);
                            }
                            assert(layer_size(ls[a]@, q + 1) == layer_size(ls[a]@, q) + 1 + nn);
                            assert(b + nn < start);
                            assert forall|k: int| 1 <= k <= nn implies #[trigger] g@[b + k] == prev[b + k] by {}
                        }
                    }
                }
                j = j + 1;
            }
            i = i + 1;
        }
        FlexNetwork { topology, weights: g }
    }
}

} // verus!
