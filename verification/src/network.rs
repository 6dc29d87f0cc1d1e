//! The feed-forward neural controller: an ordered stack of layers, each a
//! weight matrix (rows = output neurons) and a bias vector.
//!
//! Propagation applies, per layer, `ReLU(weights * input + bias)` in
//! saturating fixed point. A network can flatten all its parameters into a
//! gene sequence — per layer, first the biases, then the weights row by
//! row — and be rebuilt from such a sequence given the same topology;
//! `lemma_weight_round_trip` proves the two orders mirror each other
//! exactly.

use vstd::prelude::*;
use rand_chacha::ChaCha8Rng;
use crate::chromosome::Chromosome;
use crate::chromosome::genes_bounded;
use crate::fixed::add_fx;
use crate::fixed::mul_fx;
use crate::fixed::fx_add;
use crate::fixed::fx_mul;
use crate::fixed::UNIT;
use crate::rng::rng_below;

verus! {

/// One entry of a topology: the width of a layer.
#[derive(Clone, Copy, Debug, PartialEq, Eq, Structural)]
pub struct LayerTopology {
    pub neurons: usize,
}

pub struct Layer {
    /// One row per output neuron; each row has one weight per input.
    pub weights: Vec<Vec<i64>>,
    /// One bias per output neuron.
    pub biases: Vec<i64>,
}

pub struct Network {
    pub layers: Vec<Layer>,
}

/// The widths of a topology, as a sequence of counts.
pub open spec fn topo_view(topology: Seq<LayerTopology>) -> Seq<usize> {
    topology.map(|i: int, t: LayerTopology| t.neurons)
}

/// A usable topology: at least two widths, all positive.
pub open spec fn valid_topology(topo: Seq<usize>) -> bool {
    topo.len() >= 2 && forall|i: int| 0 <= i < topo.len() ==> #[trigger] topo[i] >= 1
}

pub open spec fn layer_in(l: Layer) -> int {
    l.weights[0]@.len() as int
}

pub open spec fn layer_out(l: Layer) -> int {
    l.weights.len() as int
}

pub open spec fn layer_wf(l: Layer) -> bool {
    &&& l.weights.len() >= 1
    &&& l.biases.len() == l.weights.len()
    &&& forall|i: int| 0 <= i < l.weights.len() ==> (#[trigger] l.weights[i]@).len() == layer_in(l)
    &&& genes_bounded(l.biases@)
    &&& forall|i: int| 0 <= i < l.weights.len() ==> genes_bounded(#[trigger] l.weights[i]@)
}

pub open spec fn net_wf(n: Network) -> bool {
    &&& n.layers.len() >= 1
    &&& forall|i: int| 0 <= i < n.layers.len() ==> layer_wf(#[trigger] n.layers[i])
    &&& forall|i: int|
        0 <= i < n.layers.len() - 1 ==> layer_in(#[trigger] n.layers[i + 1]) == layer_out(
            n.layers[i])
}

/// The network's layers have exactly the shapes the topology prescribes.
pub open spec fn matches_topology(n: Network, topo: Seq<usize>) -> bool {
    &&& n.layers.len() + 1 == topo.len()
    &&& forall|i: int|
        0 <= i < n.layers.len() ==> layer_in(#[trigger] n.layers[i]) == topo[i] && layer_out(
            n.layers[i]) == topo[i + 1]
}

/// Weighted sum of the first `k` inputs, accumulated in saturating fixed
/// point, starting from the bias.
pub open spec fn neuron_acc(w: Seq<i64>, x: Seq<int>, bias: i64, k: int) -> int
    decreases k,
{
    if k <= 0 {
        bias as int
    } else {
        add_fx(neuron_acc(w, x, bias, k - 1), mul_fx(w[k - 1] as int, x[k - 1]))
    }
}

pub open spec fn relu(v: int) -> int {
    if v < 0 {
        0
    } else {
        v
    }
}

/// One neuron's output: rectified weighted sum plus bias.
pub open spec fn neuron_out(w: Seq<i64>, x: Seq<int>, bias: i64) -> int {
    relu(neuron_acc(w, x, bias, w.len() as int))
}

/// One layer's output vector.
pub open spec fn layer_out_seq(l: Layer, x: Seq<int>) -> Seq<int> {
    Seq::new(l.weights.len() as nat, |i: int| neuron_out(l.weights[i]@, x, l.biases@[i]))
}

/// The whole network's output: layers applied in order.
pub open spec fn net_out(layers: Seq<Layer>, x: Seq<int>) -> Seq<int>
    decreases layers.len(),
{
    if layers.len() == 0 {
        x
    } else {
        net_out(layers.skip(1), layer_out_seq(layers[0], x))
    }
}

/// A value sequence as mathematical integers.
pub open spec fn ints_of(s: Seq<i64>) -> Seq<int> {
    s.map(|i: int, v: i64| v as int)
}

proof fn lemma_net_out_push(layers: Seq<Layer>, l: Layer, x: Seq<int>)
    ensures
        net_out(layers.push(l), x) == layer_out_seq(l, net_out(layers, x)),
    decreases layers.len(),
{
    if layers.len() == 0 {
        assert(layers.push(l).skip(1) =~= Seq::<Layer>::empty());
        assert(layers.push(l)[0] == l);
        assert(net_out(Seq::<Layer>::empty(), layer_out_seq(l, x)) == layer_out_seq(l, x));
    } else {
        assert(layers.push(l).skip(1) =~= layers.skip(1).push(l));
        assert(layers.push(l)[0] == layers[0]);
        lemma_net_out_push(layers.skip(1), l, layer_out_seq(layers[0], x));
    }
}

/// The first `k` weight rows, laid end to end.
pub open spec fn rows_flat(rows: Seq<Vec<i64>>, k: int) -> Seq<i64>
    decreases k,
{
    if k <= 0 {
        Seq::empty()
    } else {
        rows_flat(rows, k - 1) + rows[k - 1]@
    }
}

/// One layer's parameters in gene order: biases first, then the weight
/// rows.
pub open spec fn layer_flat(l: Layer) -> Seq<i64> {
    l.biases@ + rows_flat(l.weights@, l.weights@.len() as int)
}

/// The first `k` layers' parameters, laid end to end.
pub open spec fn layers_flat(ls: Seq<Layer>, k: int) -> Seq<i64>
    decreases k,
{
    if k <= 0 {
        Seq::empty()
    } else {
        layers_flat(ls, k - 1) + layer_flat(ls[k - 1])
    }
}

/// The whole network as a gene sequence.
pub open spec fn net_flat(n: Network) -> Seq<i64> {
    layers_flat(n.layers@, n.layers@.len() as int)
}

/// Genes one layer consumes: `out * (in + 1)`.
pub open spec fn layer_gene_size(topo: Seq<usize>, i: int) -> int {
    topo[i + 1] * (topo[i] + 1)
}

/// Genes the first `k` layers consume.
pub open spec fn needed_upto(topo: Seq<usize>, k: int) -> int
    decreases k,
{
    if k <= 0 {
        0
    } else {
        needed_upto(topo, k - 1) + layer_gene_size(topo, k - 1)
    }
}

/// The exact gene count a topology requires.
pub open spec fn needed_len(topo: Seq<usize>) -> int {
    needed_upto(topo, topo.len() - 1)
}

proof fn lemma_rows_flat_push(rows: Seq<Vec<i64>>, row: Vec<i64>, k: int)
    requires
        0 <= k <= rows.len(),
    ensures
        rows_flat(rows.push(row), k) == rows_flat(rows, k),
    decreases k,
{
    if k > 0 {
        lemma_rows_flat_push(rows, row, k - 1);
        assert(rows.push(row)[k - 1] == rows[k - 1]);
    }
}

proof fn lemma_layers_flat_push(ls: Seq<Layer>, l: Layer, k: int)
    requires
        0 <= k <= ls.len(),
    ensures
        layers_flat(ls.push(l), k) == layers_flat(ls, k),
    decreases k,
{
    if k > 0 {
        lemma_layers_flat_push(ls, l, k - 1);
        assert(ls.push(l)[k - 1] == ls[k - 1]);
    }
}

/// Genes the layers from index `j` on still consume.
pub open spec fn needed_from(topo: Seq<usize>, j: int) -> int
    decreases topo.len() - j,
{
    if j >= topo.len() - 1 {
        0
    } else {
        layer_gene_size(topo, j) + needed_from(topo, j + 1)
    }
}

proof fn lemma_needed_split(topo: Seq<usize>, k: int)
    requires
        0 <= k <= topo.len() - 1,
    ensures
        needed_upto(topo, k) + needed_from(topo, k) == needed_len(topo),
    decreases topo.len() - 1 - k,
{
    if k < topo.len() - 1 {
        lemma_needed_split(topo, k + 1);
    }
}

proof fn lemma_needed_from_nonneg(topo: Seq<usize>, j: int)
    requires
        0 <= j,
    ensures
        needed_from(topo, j) >= 0,
    decreases topo.len() - j,
{
    if j < topo.len() - 1 {
        lemma_needed_from_nonneg(topo, j + 1);
        assert(layer_gene_size(topo, j) >= 0) by (nonlinear_arith)
            requires
                layer_gene_size(topo, j) == topo[j + 1] * (topo[j] + 1),
                topo[j + 1] >= 0,
                topo[j] >= 0,
        ;
    }
}

proof fn lemma_rows_flat_len(rows: Seq<Vec<i64>>, k: int, w: int)
    requires
        0 <= k <= rows.len(),
        forall|i: int| 0 <= i < k ==> (#[trigger] rows[i]@).len() == w,
    ensures
        rows_flat(rows, k).len() == k * w,
    decreases k,
{
    if k > 0 {
        lemma_rows_flat_len(rows, k - 1, w);
        assert((k - 1) * w + w == k * w) by (nonlinear_arith);
    } else {
        assert(0 * w == 0) by (nonlinear_arith);
    }
}

proof fn lemma_layer_flat_len(l: Layer)
    requires
        layer_wf(l),
    ensures
        layer_flat(l).len() == layer_out(l) + layer_out(l) * layer_in(l),
{
    lemma_rows_flat_len(l.weights@, layer_out(l), layer_in(l));
}

proof fn lemma_layers_flat_len(ls: Seq<Layer>, k: int, topo: Seq<usize>)
    requires
        0 <= k <= ls.len(),
        ls.len() + 1 <= topo.len(),
        forall|i: int| 0 <= i < ls.len() ==> layer_wf(#[trigger] ls[i]),
        forall|i: int|
            0 <= i < ls.len() ==> layer_in(#[trigger] ls[i]) == topo[i] && layer_out(ls[i])
                == topo[i + 1],
    ensures
        layers_flat(ls, k).len() == needed_upto(topo, k),
    decreases k,
{
    if k > 0 {
        lemma_layers_flat_len(ls, k - 1, topo);
        lemma_layer_flat_len(ls[k - 1]);
        assert(layer_gene_size(topo, k - 1) == topo[k] * (topo[k - 1] + 1));
        assert((topo[k] as int) * (topo[k - 1] as int + 1) == topo[k] as int + (topo[k] as int) * (
        topo[k - 1] as int)) by (nonlinear_arith);
    }
}

/// Two appended sequences of matching prefix lengths split equally.
proof fn lemma_append_split(a: Seq<i64>, b: Seq<i64>, c: Seq<i64>, d: Seq<i64>)
    requires
        a + b == c + d,
        a.len() == c.len(),
    ensures
        a == c,
        b == d,
{
    assert((a + b).len() == a.len() + b.len());
    assert((c + d).len() == c.len() + d.len());
    assert(b.len() == d.len());
    assert(a =~= c) by {
        assert forall|i: int| 0 <= i < a.len() implies a[i] == c[i] by {
            assert((a + b)[i] == a[i]);
            assert((c + d)[i] == c[i]);
        }
    }
    assert(b =~= d) by {
        assert forall|i: int| 0 <= i < b.len() implies b[i] == d[i] by {
            assert((a + b)[a.len() + i] == b[i]);
            assert((c + d)[c.len() + i] == d[i]);
        }
    }
}

/// Two layers with the same parameter views.
pub open spec fn layers_equiv(a: Layer, b: Layer) -> bool {
    &&& a.biases@ == b.biases@
    &&& a.weights.len() == b.weights.len()
    &&& forall|r: int| 0 <= r < a.weights.len() ==> (#[trigger] a.weights[r]@) == b.weights[r]@
}

/// Two networks whose layers all have the same parameter views.
pub open spec fn nets_equiv(m: Network, n: Network) -> bool {
    &&& m.layers.len() == n.layers.len()
    &&& forall|i: int|
        0 <= i < m.layers.len() ==> layers_equiv(#[trigger] m.layers[i], n.layers[i])
}

proof fn lemma_equiv_layer_out(a: Layer, b: Layer, x: Seq<int>)
    requires
        layers_equiv(a, b),
    ensures
        layer_out_seq(a, x) == layer_out_seq(b, x),
{
    assert(layer_out_seq(a, x) =~= layer_out_seq(b, x)) by {
        assert forall|i: int| 0 <= i < a.weights.len() implies neuron_out(
            a.weights[i]@,
            x,
            a.biases@[i],
        ) == neuron_out(b.weights[i]@, x, b.biases@[i]) by {
            assert(a.weights[i]@ == b.weights[i]@);
            assert(a.biases@[i] == b.biases@[i]);
        }
    }
}

proof fn lemma_equiv_net_out(ms: Seq<Layer>, ns: Seq<Layer>, x: Seq<int>)
    requires
        ms.len() == ns.len(),
        forall|i: int| 0 <= i < ms.len() ==> layers_equiv(#[trigger] ms[i], ns[i]),
    ensures
        net_out(ms, x) == net_out(ns, x),
    decreases ms.len(),
{
    if ms.len() > 0 {
        lemma_equiv_layer_out(ms[0], ns[0], x);
        assert(forall|i: int|
            0 <= i < ms.skip(1).len() ==> layers_equiv(#[trigger] ms.skip(1)[i], ns.skip(1)[i]));
        lemma_equiv_net_out(ms.skip(1), ns.skip(1), layer_out_seq(ms[0], x));
    }
}

proof fn lemma_rows_flat_injective(ra: Seq<Vec<i64>>, rb: Seq<Vec<i64>>, k: int, w: int)
    requires
        0 <= k <= ra.len(),
        k <= rb.len(),
        forall|i: int| 0 <= i < k ==> (#[trigger] ra[i]@).len() == w,
        forall|i: int| 0 <= i < k ==> (#[trigger] rb[i]@).len() == w,
        rows_flat(ra, k) == rows_flat(rb, k),
    ensures
        forall|i: int| 0 <= i < k ==> (#[trigger] ra[i]@) == rb[i]@,
    decreases k,
{
    if k > 0 {
        lemma_rows_flat_len(ra, k - 1, w);
        lemma_rows_flat_len(rb, k - 1, w);
        lemma_append_split(rows_flat(ra, k - 1), ra[k - 1]@, rows_flat(rb, k - 1), rb[k - 1]@);
        lemma_rows_flat_injective(ra, rb, k - 1, w);
    }
}

proof fn lemma_layer_flat_injective(a: Layer, b: Layer)
    requires
        layer_wf(a),
        layer_wf(b),
        layer_in(a) == layer_in(b),
        layer_out(a) == layer_out(b),
        layer_flat(a) == layer_flat(b),
    ensures
        layers_equiv(a, b),
{
    lemma_append_split(
        a.biases@,
        rows_flat(a.weights@, a.weights@.len() as int),
        b.biases@,
        rows_flat(b.weights@, b.weights@.len() as int),
    );
    lemma_rows_flat_injective(a.weights@, b.weights@, a.weights@.len() as int, layer_in(a));
}

proof fn lemma_layers_flat_injective(ms: Seq<Layer>, ns: Seq<Layer>, topo: Seq<usize>, k: int)
    requires
        0 <= k <= ms.len(),
        ms.len() == ns.len(),
        ms.len() + 1 <= topo.len(),
        forall|i: int| 0 <= i < ms.len() ==> layer_wf(#[trigger] ms[i]),
        forall|i: int| 0 <= i < ns.len() ==> layer_wf(#[trigger] ns[i]),
        forall|i: int|
            0 <= i < ms.len() ==> layer_in(#[trigger] ms[i]) == topo[i] && layer_out(ms[i])
                == topo[i + 1],
        forall|i: int|
            0 <= i < ns.len() ==> layer_in(#[trigger] ns[i]) == topo[i] && layer_out(ns[i])
                == topo[i + 1],
        layers_flat(ms, k) == layers_flat(ns, k),
    ensures
        forall|i: int| 0 <= i < k ==> layers_equiv(#[trigger] ms[i], ns[i]),
    decreases k,
{
    if k > 0 {
        lemma_layers_flat_len(ms, k - 1, topo);
        lemma_layers_flat_len(ns, k - 1, topo);
        lemma_append_split(
            layers_flat(ms, k - 1),
            layer_flat(ms[k - 1]),
            layers_flat(ns, k - 1),
            layer_flat(ns[k - 1]),
        );
        lemma_layer_flat_injective(ms[k - 1], ns[k - 1]);
        lemma_layers_flat_injective(ms, ns, topo, k - 1);
    }
}

/// The flattened parameters pin a network down: two well-formed networks of
/// one topology with the same gene sequence propagate identically on every
/// input. With `from_weights`'s contract this is the weight round-trip:
/// rebuilding from `weights()` reproduces an equivalent network.
pub proof fn lemma_weight_round_trip(m: Network, n: Network, topo: Seq<usize>, x: Seq<int>)
    requires
        net_wf(m),
        net_wf(n),
        matches_topology(m, topo),
        matches_topology(n, topo),
        net_flat(m) == net_flat(n),
    ensures
        nets_equiv(m, n),
        net_out(m.layers@, x) == net_out(n.layers@, x),
{
    lemma_layers_flat_injective(m.layers@, n.layers@, topo, m.layers@.len() as int);
    lemma_equiv_net_out(m.layers@, n.layers@, x);
}

/// A well-formed network's gene sequence has exactly the length its
/// topology prescribes, so `from_weights` accepts it back.
pub proof fn lemma_net_flat_len(n: Network, topo: Seq<usize>)
    requires
        net_wf(n),
        matches_topology(n, topo),
    ensures
        net_flat(n).len() == needed_len(topo),
{
    lemma_layers_flat_len(n.layers@, n.layers@.len() as int, topo);
}

proof fn lemma_rows_flat_bounded(rows: Seq<Vec<i64>>, k: int)
    requires
        0 <= k <= rows.len(),
        forall|i: int| 0 <= i < rows.len() ==> genes_bounded(#[trigger] rows[i]@),
    ensures
        genes_bounded(rows_flat(rows, k)),
    decreases k,
{
    if k > 0 {
        lemma_rows_flat_bounded(rows, k - 1);
        assert forall|j: int|
            0 <= j < rows_flat(rows, k).len() implies -crate::fixed::VAL_MAX <= #[trigger] rows_flat(
            rows,
            k,
        )[j] <= crate::fixed::VAL_MAX by {
            if j < rows_flat(rows, k - 1).len() {
                assert(rows_flat(rows, k)[j] == rows_flat(rows, k - 1)[j]);
            } else {
                assert(rows_flat(rows, k)[j] == rows[k - 1]@[j - rows_flat(rows, k - 1).len()]);
            }
        }
    }
}

/// A well-formed network's gene sequence stays inside the fixed-point
/// domain, so it can be carried as a chromosome.
pub proof fn lemma_net_flat_bounded(n: Network)
    requires
        net_wf(n),
    ensures
        genes_bounded(net_flat(n)),
{
    lemma_layers_flat_bounded(n.layers@, n.layers@.len() as int);
}

proof fn lemma_layers_flat_bounded(ls: Seq<Layer>, k: int)
    requires
        0 <= k <= ls.len(),
        forall|i: int| 0 <= i < ls.len() ==> layer_wf(#[trigger] ls[i]),
    ensures
        genes_bounded(layers_flat(ls, k)),
    decreases k,
{
    if k > 0 {
        lemma_layers_flat_bounded(ls, k - 1);
        lemma_rows_flat_bounded(ls[k - 1].weights@, ls[k - 1].weights@.len() as int);
        assert forall|j: int|
            0 <= j < layers_flat(ls, k).len() implies -crate::fixed::VAL_MAX
            <= #[trigger] layers_flat(ls, k)[j] <= crate::fixed::VAL_MAX by {
            let pre = layers_flat(ls, k - 1);
            let lf = layer_flat(ls[k - 1]);
            if j < pre.len() {
                assert(layers_flat(ls, k)[j] == pre[j]);
            } else {
                assert(layers_flat(ls, k)[j] == lf[j - pre.len()]);
                let jj = j - pre.len();
                if jj < ls[k - 1].biases@.len() {
                    assert(lf[jj] == ls[k - 1].biases@[jj]);
                } else {
                    assert(lf[jj] == rows_flat(
                        ls[k - 1].weights@,
                        ls[k - 1].weights@.len() as int,
                    )[jj - ls[k - 1].biases@.len()]);
                }
            }
        }
    }
}

/// All values of a gene sequence lie within one whole unit.
pub open spec fn genes_within_unit(s: Seq<i64>) -> bool {
    forall|i: int| 0 <= i < s.len() ==> -UNIT <= #[trigger] s[i] <= UNIT
}

/// Every bias and weight of the layer lies in `[-UNIT, UNIT]`.
pub open spec fn layer_within_unit(l: Layer) -> bool {
    &&& genes_within_unit(l.biases@)
    &&& forall|i: int| 0 <= i < l.weights.len() ==> genes_within_unit(#[trigger] l.weights[i]@)
}

/// Every parameter of the network lies in `[-UNIT, UNIT]`.
pub open spec fn net_within_unit(n: Network) -> bool {
    forall|i: int| 0 <= i < n.layers.len() ==> layer_within_unit(#[trigger] n.layers[i])
}

/// A fresh uniform weight in `[-UNIT, UNIT]`.
fn random_gene(rng: &mut ChaCha8Rng) -> (r: i64)
    ensures
        -UNIT <= r <= UNIT,
{
    (rng_below(rng, 2_000_001) as i64) - UNIT
}

impl Network {
    /// Forward propagation: apply each layer in order.
    pub fn propagate(&self, input: &Vec<i64>) -> (r: Vec<i64>)
        requires
            net_wf(*self),
            input@.len() == layer_in(self.layers[0]),
        ensures
            ints_of(r@) == net_out(self.layers@, ints_of(input@)),
            r@.len() == layer_out(self.layers[self.layers@.len() - 1]),
    {
        let n_layers: usize = self.layers.len();
        let mut current: Vec<i64> = Vec::new();
        let mut ci: usize = 0;
        while ci < input.len()
            invariant
                ci <= input@.len(),
                current@ == input@.take(ci as int),
            decreases input@.len() - ci,
        {
            current.push(input[ci]);
            ci = ci + 1;
        }
        proof {
            assert(input@.take(input@.len() as int) =~= input@);
            assert(net_out(self.layers@.take(0), ints_of(input@)) == ints_of(input@));
        }
        let mut li: usize = 0;
        while li < n_layers
            invariant
                li <= n_layers,
                n_layers == self.layers@.len(),
                net_wf(*self),
                ints_of(current@) == net_out(self.layers@.take(li as int), ints_of(input@)),
                li < n_layers ==> current@.len() == layer_in(self.layers[li as int]),
                li == n_layers ==> current@.len() == layer_out(
                    self.layers[self.layers@.len() - 1]),
            decreases n_layers - li,
        {
            let layer = &self.layers[li];
            let rows: usize = layer.weights.len();
            let mut next: Vec<i64> = Vec::new();
            let mut ri: usize = 0;
            while ri < rows
                invariant
                    ri <= rows,
                    rows == layer.weights@.len(),
                    layer_wf(*layer),
                    current@.len() == layer_in(*layer),
                    next@.len() == ri,
                    forall|j: int|
                        0 <= j < ri ==> #[trigger] next@[j] as int == neuron_out(
                            layer.weights@[j]@,
                            ints_of(current@),
                            layer.biases@[j],
                        ),
                decreases rows - ri,
            {
                let row = &layer.weights[ri];
                let cols: usize = row.len();
                let mut acc: i64 = layer.biases[ri];
                let mut wi: usize = 0;
                while wi < cols
                    invariant
                        wi <= cols,
                        cols == row@.len(),
                        cols == current@.len(),
                        acc as int == neuron_acc(
                            row@,
                            ints_of(current@),
                            layer.biases@[ri as int],
                            wi as int,
                        ),
                        ri < layer.weights@.len(),
                        row == &layer.weights@[ri as int],
                    decreases cols - wi,
                {
                    acc = fx_add(acc, fx_mul(row[wi], current[wi]));
                    wi = wi + 1;
                }
                let out: i64 = if acc < 0 {
                    0
                } else {
                    acc
                };
                next.push(out);
                ri = ri + 1;
            }
            proof {
                assert(ints_of(next@) =~= layer_out_seq(*layer, ints_of(current@)));
                assert(self.layers@.take(li as int).push(self.layers@[li as int])
                    =~= self.layers@.take(li as int + 1));
                lemma_net_out_push(
                    self.layers@.take(li as int),
                    self.layers@[li as int],
                    ints_of(input@),
                );
            }
            current = next;
            li = li + 1;
        }
        proof {
            assert(self.layers@.take(n_layers as int) =~= self.layers@);
        }
        current
    }

    /// Flatten every parameter into gene order: per layer, biases first,
    /// then the weight rows.
    pub fn weights(&self) -> (r: Vec<i64>)
        ensures
            r@ == net_flat(*self),
    {
        let mut out: Vec<i64> = Vec::new();
        let n_layers: usize = self.layers.len();
        let mut li: usize = 0;
        while li < n_layers
            invariant
                li <= n_layers,
                n_layers == self.layers@.len(),
                out@ == layers_flat(self.layers@, li as int),
            decreases n_layers - li,
        {
            let layer = &self.layers[li];
            let ghost base = out@;
            let n_biases: usize = layer.biases.len();
            let mut bi: usize = 0;
            while bi < n_biases
                invariant
                    bi <= n_biases,
                    n_biases == layer.biases@.len(),
                    out@ == base + layer.biases@.take(bi as int),
                decreases n_biases - bi,
            {
                out.push(layer.biases[bi]);
                proof {
                    assert(base + layer.biases@.take(bi as int) + seq![
                        layer.biases@[bi as int],
                    ] =~= base + layer.biases@.take(bi as int + 1));
                }
                bi = bi + 1;
            }
            proof {
                assert(layer.biases@.take(n_biases as int) =~= layer.biases@);
            }
            let n_rows: usize = layer.weights.len();
            let mut ri: usize = 0;
            while ri < n_rows
                invariant
                    ri <= n_rows,
                    n_rows == layer.weights@.len(),
                    out@ == base + layer.biases@ + rows_flat(layer.weights@, ri as int),
                decreases n_rows - ri,
            {
                let row = &layer.weights[ri];
                let ghost row_base = out@;
                let n_cols: usize = row.len();
                let mut wi: usize = 0;
                while wi < n_cols
                    invariant
                        wi <= n_cols,
                        n_cols == row@.len(),
                        out@ == row_base + row@.take(wi as int),
                        ri < layer.weights@.len(),
                        row == &layer.weights@[ri as int],
                    decreases n_cols - wi,
                {
                    out.push(row[wi]);
                    proof {
                        assert(row_base + row@.take(wi as int) + seq![row@[wi as int]] =~= row_base
                            + row@.take(wi as int + 1));
                    }
                    wi = wi + 1;
                }
                proof {
                    assert(row@.take(n_cols as int) =~= row@);
                    assert(base + layer.biases@ + rows_flat(layer.weights@, ri as int) + row@
                        =~= base + layer.biases@ + rows_flat(layer.weights@, ri as int + 1));
                }
                ri = ri + 1;
            }
            proof {
                assert(base + layer.biases@ + rows_flat(layer.weights@, n_rows as int) =~= base
                    + layer_flat(self.layers@[li as int]));
                assert(base + layer_flat(self.layers@[li as int]) == layers_flat(
                    self.layers@,
                    li as int + 1,
                ));
            }
            li = li + 1;
        }
        out
    }

    /// Build a network of the given topology with every weight and bias
    /// drawn uniformly from `[-UNIT, UNIT]`.
    pub fn random(topology: &Vec<LayerTopology>, rng: &mut ChaCha8Rng) -> (r: Network)
        requires
            valid_topology(topo_view(topology@)),
        ensures
            net_wf(r),
            matches_topology(r, topo_view(topology@)),
            net_within_unit(r),
    {
        let ghost topo = topo_view(topology@);
        let n_layers: usize = topology.len() - 1;
        let mut layers: Vec<Layer> = Vec::new();
        let mut li: usize = 0;
        while li < n_layers
            invariant
                li <= n_layers,
                n_layers + 1 == topology@.len(),
                topo == topo_view(topology@),
                valid_topology(topo),
                layers@.len() == li,
                forall|i: int| 0 <= i < li ==> layer_wf(#[trigger] layers@[i]),
                forall|i: int| 0 <= i < li ==> layer_within_unit(#[trigger] layers@[i]),
                forall|i: int|
                    0 <= i < li ==> layer_in(#[trigger] layers@[i]) == topo[i] && layer_out(
                        layers@[i]) == topo[i + 1],
            decreases n_layers - li,
        {
            let in_size: usize = topology[li].neurons;
            let out_size: usize = topology[li + 1].neurons;
            let mut biases: Vec<i64> = Vec::new();
            let mut bi: usize = 0;
            while bi < out_size
                invariant
                    bi <= out_size,
                    biases@.len() == bi,
                    genes_bounded(biases@),
                    genes_within_unit(biases@),
                decreases out_size - bi,
            {
                biases.push(random_gene(rng));
                bi = bi + 1;
            }
            let mut rows: Vec<Vec<i64>> = Vec::new();
            let mut ri: usize = 0;
            while ri < out_size
                invariant
                    ri <= out_size,
                    rows@.len() == ri,
                    forall|i: int| 0 <= i < ri ==> (#[trigger] rows@[i]@).len() == in_size,
                    forall|i: int| 0 <= i < ri ==> genes_bounded(#[trigger] rows@[i]@),
                    forall|i: int| 0 <= i < ri ==> genes_within_unit(#[trigger] rows@[i]@),
                decreases out_size - ri,
            {
                let mut row: Vec<i64> = Vec::new();
                let mut wi: usize = 0;
                while wi < in_size
                    invariant
                        wi <= in_size,
                        row@.len() == wi,
                        genes_bounded(row@),
                        genes_within_unit(row@),
                    decreases in_size - wi,
                {
                    row.push(random_gene(rng));
                    wi = wi + 1;
                }
                rows.push(row);
                ri = ri + 1;
            }
            let layer = Layer { weights: rows, biases };
            proof {
                assert(topo[li as int] == topology@[li as int].neurons);
                assert(topo[li as int + 1] == topology@[li as int + 1].neurons);
                assert(layer_wf(layer));
                assert(layer_within_unit(layer));
            }
            layers.push(layer);
            li = li + 1;
        }
        Network { layers }
    }

    /// Rebuild a network from a gene sequence, consuming exactly the genes
    /// the topology prescribes, in the order `weights` emits them.
    pub fn from_weights(topology: &Vec<LayerTopology>, genes: &Chromosome) -> (r: Network)
        requires
            valid_topology(topo_view(topology@)),
            genes@.len() == needed_len(topo_view(topology@)),
            genes.wf(),
        ensures
            net_wf(r),
            matches_topology(r, topo_view(topology@)),
            net_flat(r) == genes@,
    {
        let ghost topo = topo_view(topology@);
        let total: usize = genes.len();
        let n_layers: usize = topology.len() - 1;
        let mut layers: Vec<Layer> = Vec::new();
        let mut pos: usize = 0;
        let mut li: usize = 0;
        while li < n_layers
            invariant
                li <= n_layers,
                n_layers + 1 == topology@.len(),
                topo == topo_view(topology@),
                valid_topology(topo),
                genes@.len() == needed_len(topo),
                genes@.len() <= usize::MAX,
                genes.wf(),
                layers@.len() == li,
                forall|i: int| 0 <= i < li ==> layer_wf(#[trigger] layers@[i]),
                forall|i: int|
                    0 <= i < li ==> layer_in(#[trigger] layers@[i]) == topo[i] && layer_out(
                        layers@[i]) == topo[i + 1],
                pos as int == needed_upto(topo, li as int),
                pos <= genes@.len(),
                layers_flat(layers@, li as int) == genes@.take(pos as int),
            decreases n_layers - li,
        {
            let in_size: usize = topology[li].neurons;
            let out_size: usize = topology[li + 1].neurons;
            let ghost layer_start = pos as int;
            proof {
                lemma_needed_split(topo, li as int);
                lemma_needed_from_nonneg(topo, li as int + 1);
                assert(needed_from(topo, li as int) == layer_gene_size(topo, li as int)
                    + needed_from(topo, li as int + 1));
                assert(layer_gene_size(topo, li as int) == (out_size as int) * (in_size as int
                    + 1));
                assert((out_size as int) * (in_size as int + 1) == out_size as int + (
                out_size as int) * (in_size as int)) by (nonlinear_arith);
                assert((out_size as int) * (in_size as int) >= 0) by (nonlinear_arith)
                    requires
                        out_size as int >= 0,
                        in_size as int >= 0,
                ;
                assert(layer_start + out_size as int + (out_size as int) * (in_size as int)
                    <= genes@.len());
            }
            let mut biases: Vec<i64> = Vec::new();
            let mut bi: usize = 0;
            while bi < out_size
                invariant
                    bi <= out_size,
                    pos as int == layer_start + bi,
                    0 <= layer_start,
                    genes@.len() <= usize::MAX,
                    layer_start + out_size as int + (out_size as int) * (in_size as int)
                        <= genes@.len(),
                    0 <= (out_size as int) * (in_size as int),
                    genes.wf(),
                    biases@ == genes@.subrange(layer_start, pos as int),
                decreases out_size - bi,
            {
                let g: i64 = genes.gene(pos);
                biases.push(g);
                proof {
                    assert(genes@.subrange(layer_start, pos as int) + seq![
                        genes@[pos as int],
                    ] =~= genes@.subrange(layer_start, pos as int + 1));
                }
                pos = pos + 1;
                bi = bi + 1;
            }
            let ghost rows_start = pos as int;
            let mut rows: Vec<Vec<i64>> = Vec::new();
            let mut ri: usize = 0;
            while ri < out_size
                invariant
                    ri <= out_size,
                    pos as int == rows_start + (ri as int) * (in_size as int),
                    0 <= rows_start,
                    genes@.len() <= usize::MAX,
                    rows_start + (out_size as int) * (in_size as int) <= genes@.len(),
                    genes.wf(),
                    rows@.len() == ri,
                    forall|i: int| 0 <= i < ri ==> (#[trigger] rows@[i]@).len() == in_size,
                    forall|i: int| 0 <= i < ri ==> genes_bounded(#[trigger] rows@[i]@),
                    rows_flat(rows@, ri as int) == genes@.subrange(rows_start, pos as int),
                decreases out_size - ri,
            {
                proof {
                    assert((ri as int + 1) * (in_size as int) <= (out_size as int) * (
                    in_size as int)) by (nonlinear_arith)
                        requires
                            ri as int + 1 <= out_size as int,
                            in_size as int >= 0,
                    ;
                    assert((ri as int) * (in_size as int) + in_size as int == (ri as int + 1) * (
                    in_size as int)) by (nonlinear_arith);
                    assert((ri as int) * (in_size as int) >= 0) by (nonlinear_arith)
                        requires
                            ri as int >= 0,
                            in_size as int >= 0,
                    ;
                }
                let ghost row_start = pos as int;
                let mut row: Vec<i64> = Vec::new();
                let mut wi: usize = 0;
                while wi < in_size
                    invariant
                        wi <= in_size,
                        pos as int == row_start + wi,
                        0 <= row_start,
                        genes@.len() <= usize::MAX,
                        row_start + in_size as int <= genes@.len(),
                        genes.wf(),
                        row@ == genes@.subrange(row_start, pos as int),
                    decreases in_size - wi,
                {
                    let g: i64 = genes.gene(pos);
                    row.push(g);
                    proof {
                        assert(genes@.subrange(row_start, pos as int) + seq![
                            genes@[pos as int],
                        ] =~= genes@.subrange(row_start, pos as int + 1));
                    }
                    pos = pos + 1;
                    wi = wi + 1;
                }
                proof {
                    lemma_rows_flat_push(rows@, row, ri as int);
                    assert(genes@.subrange(rows_start, row_start) + genes@.subrange(
                        row_start,
                        pos as int,
                    ) =~= genes@.subrange(rows_start, pos as int));
                    assert(genes_bounded(row@));
                }
                rows.push(row);
                ri = ri + 1;
            }
            let layer = Layer { weights: rows, biases };
            proof {
                assert(layer_wf(layer));
                assert(layer_in(layer) == topo[li as int]);
                assert(layer_out(layer) == topo[li as int + 1]);
                assert(layer_flat(layer) =~= genes@.subrange(layer_start, pos as int));
                lemma_layers_flat_push(layers@, layer, li as int);
                assert(genes@.take(layer_start) + genes@.subrange(layer_start, pos as int)
                    =~= genes@.take(pos as int));
                assert(layers_flat(layers@.push(layer), li as int + 1) == genes@.take(
                pos as int));
            }
            layers.push(layer);
            li = li + 1;
        }
        proof {
            assert(pos as int == needed_len(topo));
            assert(genes@.take(pos as int) =~= genes@);
        }
        Network { layers }
    }
}

} // verus!
