//! The feed-forward neural network: topology-shaped construction (random or
//! from a flat gene sequence), forward propagation, and the flat encoding
//! that makes a network round-trip through a chromosome.

use vstd::prelude::*;
use crate::{Error, SCALE};
use crate::random::RandomSource;

verus! {

/// One layer size in a topology description. At least two entries (the
/// input width plus one transformation) describe a network.
#[derive(Clone, Copy, Debug, PartialEq, Eq, Structural)]
pub struct LayerTopology {
    pub neurons: usize,
}

/// One neuron: a bias plus one weight per input.
#[derive(Clone, Debug)]
pub struct Neuron {
    bias: i32,
    weights: Vec<i32>,
}

/// One layer: an ordered sequence of neurons, each reading the whole input.
#[derive(Clone, Debug)]
pub struct Layer {
    neurons: Vec<Neuron>,
}

/// A feed-forward network: an ordered sequence of layers.
#[derive(Clone, Debug)]
pub struct Network {
    layers: Vec<Layer>,
}

/// A sequence of fixed-point scalars, read as unbounded integers.
pub open spec fn int_view(s: Seq<i32>) -> Seq<int> {
    s.map_values(|x: i32| x as int)
}

/// Integer division truncating toward zero (the scaling step of the
/// fixed-point multiply-accumulate).
pub open spec fn tdiv(a: int, b: int) -> int {
    if a >= 0 {
        a / b
    } else {
        -((-a) / b)
    }
}

/// The dot product of the first `k` weights with the first `k` inputs.
pub open spec fn dot(ws: Seq<i32>, xs: Seq<int>, k: int) -> int
    decreases k,
{
    if k <= 0 {
        0
    } else {
        dot(ws, xs, k - 1) + ws[k - 1] * xs[k - 1]
    }
}

impl Neuron {
    /// The bias, as the contracts see it.
    pub closed spec fn bias_spec(&self) -> i32 {
        self.bias
    }

    /// The weights, as the contracts see them.
    pub closed spec fn weights_spec(&self) -> Seq<i32> {
        self.weights@
    }

    /// A neuron with the given bias and weights.
    pub fn new(bias: i32, weights: Vec<i32>) -> (r: Neuron)
        ensures
            r.bias_spec() == bias,
            r.weights_spec() == weights@,
    {
        Neuron { bias, weights }
    }
}

/// The biased weighted sum of a neuron over an input vector, before the
/// activation: `bias + (Σ weight_i * input_i) / SCALE`.
pub open spec fn neuron_raw(n: Neuron, xs: Seq<int>) -> int {
    n.bias_spec() + tdiv(dot(n.weights_spec(), xs, n.weights_spec().len() as int), SCALE as int)
}

/// The neuron's output: the biased weighted sum passed through the zero
/// floor (ReLU).
pub open spec fn neuron_out(n: Neuron, xs: Seq<int>) -> int {
    if neuron_raw(n, xs) <= 0 {
        0
    } else {
        neuron_raw(n, xs)
    }
}

/// Each neuron of the layer expects exactly `n_in` inputs.
pub open spec fn layer_accepts(l: Layer, n_in: int) -> bool {
    forall|i: int| 0 <= i < l.neurons_spec().len()
        ==> (#[trigger] l.neurons_spec()[i]).weights_spec().len() == n_in
}

/// The layer's output vector: one activation per neuron, in order.
pub open spec fn layer_out(l: Layer, xs: Seq<int>) -> Seq<int> {
    Seq::new(l.neurons_spec().len(), |i: int| neuron_out(l.neurons_spec()[i], xs))
}

/// Every activation of the layer on this input fits the fixed-point range.
pub open spec fn layer_fits(l: Layer, xs: Seq<int>) -> bool {
    forall|i: int| 0 <= i < l.neurons_spec().len()
        ==> neuron_out(#[trigger] l.neurons_spec()[i], xs) <= i32::MAX
}

/// The input widths chain through the whole network from an input of
/// width `n_in`.
pub open spec fn net_accepts(layers: Seq<Layer>, n_in: int) -> bool
    decreases layers.len(),
{
    if layers.len() == 0 {
        true
    } else {
        layer_accepts(layers[0], n_in)
            && net_accepts(layers.skip(1), layers[0].neurons_spec().len() as int)
    }
}

/// Every intermediate activation of the whole forward pass fits the
/// fixed-point range (the machine-limit headroom propagation needs).
pub open spec fn net_fits(layers: Seq<Layer>, xs: Seq<int>) -> bool
    decreases layers.len(),
{
    if layers.len() == 0 {
        true
    } else {
        layer_fits(layers[0], xs) && net_fits(layers.skip(1), layer_out(layers[0], xs))
    }
}

/// The network's output vector: the input folded through every layer.
pub open spec fn net_out(layers: Seq<Layer>, xs: Seq<int>) -> Seq<int>
    decreases layers.len(),
{
    if layers.len() == 0 {
        xs
    } else {
        net_out(layers.skip(1), layer_out(layers[0], xs))
    }
}

impl Neuron {
    /// The biased weighted sum with the zero floor, exactly as the model
    /// states it.
    fn value(&self, inputs: &Vec<i32>) -> (r: i32)
        requires
            self.weights_spec().len() == inputs@.len(),
            neuron_out(*self, int_view(inputs@)) <= i32::MAX,
        ensures
            r as int == neuron_out(*self, int_view(inputs@)),
    {
        let m = self.weights.len();
        let mut acc: i128 = 0;
        let mut k: usize = 0;
        while k < m
            invariant
                m == self.weights@.len(),
                m == inputs@.len(),
                k <= m,
                acc == dot(self.weights@, int_view(inputs@), k as int),
                -(k as int) * 0x4000_0000_0000_0000 <= acc
                    <= (k as int) * 0x4000_0000_0000_0000,
            decreases m - k,
        {
            let w = self.weights[k];
            let x = inputs[k];
            proof {
                assert(int_view(inputs@)[k as int] == x as int);
                assert(-0x4000_0000_0000_0000 <= (w as int) * (x as int)
                    <= 0x4000_0000_0000_0000) by (nonlinear_arith)
                    requires
                        -0x8000_0000 <= w as int <= 0x7fff_ffff,
                        -0x8000_0000 <= x as int <= 0x7fff_ffff;
                assert((k + 1) as int * 0x4000_0000_0000_0000
                    <= 0x1_0000_0000_0000_0000 * 0x4000_0000_0000_0000) by (nonlinear_arith)
                    requires 0 <= k as int, (k + 1) as int <= 0x1_0000_0000_0000_0000;
                assert(-((k + 1) as int) * 0x4000_0000_0000_0000
                    >= -(0x1_0000_0000_0000_0000 * 0x4000_0000_0000_0000)) by (nonlinear_arith)
                    requires 0 <= k as int, (k + 1) as int <= 0x1_0000_0000_0000_0000;
            }
            let term: i128 = (w as i128) * (x as i128);
            acc = acc + term;
            k = k + 1;
        }
        proof {
            assert((k as int) * 0x4000_0000_0000_0000
                <= 0x1_0000_0000_0000_0000 * 0x4000_0000_0000_0000) by (nonlinear_arith)
                requires 0 <= k as int, k as int <= 0x1_0000_0000_0000_0000;
        }
        let q: i128 = if acc >= 0 {
            ((acc as u128) / 1_000_000u128) as i128
        } else {
            -((((-acc) as u128) / 1_000_000u128) as i128)
        };
        proof {
            assert(q == tdiv(acc as int, SCALE as int));
            assert(-acc <= (k as int) * 0x4000_0000_0000_0000);
        }
        let raw: i128 = (self.bias as i128) + q;
        proof {
            assert(raw == neuron_raw(*self, int_view(inputs@)));
        }
        if raw <= 0 {
            0
        } else {
            proof {
                assert(neuron_out(*self, int_view(inputs@)) == raw);
            }
            raw as i32
        }
    }

    /// One neuron's forward step: fails with `InputSizeMismatch` exactly
    /// when the input width differs from the weight count, else returns the
    /// activation `max(0, bias + (Σ weight_i * input_i) / SCALE)`.
    pub fn propagate(&self, inputs: &Vec<i32>) -> (r: Result<i32, Error>)
        requires
            self.weights_spec().len() == inputs@.len()
                ==> neuron_out(*self, int_view(inputs@)) <= i32::MAX,
        ensures
            r is Ok <==> self.weights_spec().len() == inputs@.len(),
            r matches Ok(v) ==> v as int == neuron_out(*self, int_view(inputs@)),
            r is Err ==> r->Err_0 == Error::InputSizeMismatch,
    {
        if self.weights.len() != inputs.len() {
            return Err(Error::InputSizeMismatch);
        }
        Ok(self.value(inputs))
    }

    /// A neuron whose bias and weights are drawn independently and
    /// uniformly from `[-1, 1]` (in fixed-point ticks: `[-SCALE, SCALE]`).
    pub fn random(rng: &mut RandomSource, input_size: usize) -> (r: Neuron)
        ensures
            r.weights_spec().len() == input_size,
            -SCALE <= r.bias_spec() <= SCALE,
            forall|i: int| 0 <= i < input_size
                ==> -SCALE <= #[trigger] r.weights_spec()[i] <= SCALE,
    {
        let bias = rng.next_in_range(-SCALE, SCALE);
        let mut weights: Vec<i32> = Vec::new();
        let mut i: usize = 0;
        while i < input_size
            invariant
                i <= input_size,
                weights@.len() == i,
                forall|j: int| 0 <= j < i ==> -SCALE <= #[trigger] weights@[j] <= SCALE,
            decreases input_size - i,
        {
            weights.push(rng.next_in_range(-SCALE, SCALE));
            i = i + 1;
        }
        Neuron { bias, weights }
    }
}

impl Layer {
    /// The neurons, as the contracts see them.
    pub closed spec fn neurons_spec(&self) -> Seq<Neuron> {
        self.neurons@
    }

    /// A layer made of the given neurons, in order.
    pub fn new(neurons: Vec<Neuron>) -> (r: Layer)
        ensures
            r.neurons_spec() == neurons@,
    {
        Layer { neurons }
    }

    /// One layer's forward step: fails with `InputSizeMismatch` exactly
    /// when some neuron's weight count differs from the input width, else
    /// returns one activation per neuron, in order.
    pub fn propagate(&self, inputs: &Vec<i32>) -> (r: Result<Vec<i32>, Error>)
        requires
            layer_fits(*self, int_view(inputs@)),
        ensures
            r is Ok <==> layer_accepts(*self, inputs@.len() as int),
            r matches Ok(out) ==> int_view(out@) == layer_out(*self, int_view(inputs@)),
            r is Err ==> r->Err_0 == Error::InputSizeMismatch,
    {
        let count = self.neurons.len();
        let mut out: Vec<i32> = Vec::new();
        let mut i: usize = 0;
        while i < count
            invariant
                count == self.neurons@.len(),
                i <= count,
                out@.len() == i,
                layer_fits(*self, int_view(inputs@)),
                forall|j: int| 0 <= j < i
                    ==> #[trigger] out@[j] as int == neuron_out(self.neurons@[j], int_view(inputs@)),
                forall|j: int| 0 <= j < i
                    ==> (#[trigger] self.neurons@[j]).weights_spec().len() == inputs@.len(),
            decreases count - i,
        {
            let neuron = &self.neurons[i];
            proof {
                assert(*neuron == self.neurons@[i as int]);
                assert(neuron_out(self.neurons_spec()[i as int], int_view(inputs@))
                    <= i32::MAX);
            }
            match neuron.propagate(inputs) {
                Ok(v) => {
                    out.push(v);
                },
                Err(e) => {
                    proof {
                        assert((self.neurons_spec()[i as int]).weights_spec().len()
                            != inputs@.len());
                    }
                    return Err(e);
                },
            }
            i = i + 1;
        }
        proof {
            assert(int_view(out@) =~= layer_out(*self, int_view(inputs@)));
        }
        Ok(out)
    }

    /// A layer of `output_neurons` random neurons, each reading
    /// `input_neurons` inputs (bias and weights uniform in `[-1, 1]`).
    pub fn random(rng: &mut RandomSource, input_neurons: usize, output_neurons: usize)
        -> (r: Layer)
        ensures
            r.neurons_spec().len() == output_neurons,
            forall|i: int| 0 <= i < output_neurons
                ==> (#[trigger] r.neurons_spec()[i]).weights_spec().len() == input_neurons,
            forall|i: int| 0 <= i < output_neurons
                ==> -SCALE <= (#[trigger] r.neurons_spec()[i]).bias_spec() <= SCALE
                    && forall|j: int| 0 <= j < input_neurons
                        ==> -SCALE <= #[trigger] r.neurons_spec()[i].weights_spec()[j] <= SCALE,
    {
        let mut neurons: Vec<Neuron> = Vec::new();
        let mut i: usize = 0;
        while i < output_neurons
            invariant
                i <= output_neurons,
                neurons@.len() == i,
                forall|k: int| 0 <= k < i
                    ==> (#[trigger] neurons@[k]).weights_spec().len() == input_neurons,
                forall|k: int| 0 <= k < i
                    ==> -SCALE <= (#[trigger] neurons@[k]).bias_spec() <= SCALE
                        && forall|j: int| 0 <= j < input_neurons
                            ==> -SCALE <= #[trigger] neurons@[k].weights_spec()[j] <= SCALE,
            decreases output_neurons - i,
        {
            neurons.push(Neuron::random(rng, input_neurons));
            i = i + 1;
        }
        Layer { neurons }
    }
}

/// The network's layers have the shape the topology describes: one layer
/// per adjacent pair of entries, with layer `l` holding
/// `topology[l + 1].neurons` neurons of `topology[l].neurons` weights each.
pub open spec fn shaped(net: Network, top: Seq<LayerTopology>) -> bool {
    net.layers_spec().len() == top.len() - 1
        && forall|l: int| 0 <= l < top.len() - 1
            ==> (#[trigger] net.layers_spec()[l]).neurons_spec().len() == top[l + 1].neurons
                && forall|n: int| 0 <= n < top[l + 1].neurons
                    ==> (#[trigger] net.layers_spec()[l].neurons_spec()[n])
                        .weights_spec().len() == top[l].neurons
}

/// Every bias and weight of the network lies in the unit range
/// `[-1, 1]`, i.e. in `[-SCALE, SCALE]` ticks.
pub open spec fn within_unit(net: Network) -> bool {
    forall|l: int| 0 <= l < net.layers_spec().len()
        ==> forall|n: int| 0 <= n < (#[trigger] net.layers_spec()[l]).neurons_spec().len()
            ==> -SCALE <= (#[trigger] net.layers_spec()[l].neurons_spec()[n]).bias_spec()
                    <= SCALE
                && forall|w: int|
                    0 <= w < net.layers_spec()[l].neurons_spec()[n].weights_spec().len()
                    ==> -SCALE
                        <= #[trigger] net.layers_spec()[l].neurons_spec()[n]
                            .weights_spec()[w]
                        <= SCALE
}

impl Network {
    /// The layers, as the contracts see them.
    pub closed spec fn layers_spec(&self) -> Seq<Layer> {
        self.layers@
    }

    /// A network made of the given layers, in order.
    pub fn new(layers: Vec<Layer>) -> (r: Network)
        ensures
            r.layers_spec() == layers@,
    {
        Network { layers }
    }

    /// A randomly initialized network of the given topology: one layer per
    /// adjacent pair of sizes, every bias and weight uniform in `[-1, 1]`.
    /// Fails with `InvalidTopology` exactly when fewer than two sizes are
    /// supplied.
    pub fn random(rng: &mut RandomSource, topology: &Vec<LayerTopology>)
        -> (r: Result<Network, Error>)
        ensures
            r is Ok <==> topology@.len() >= 2,
            r matches Ok(net) ==> shaped(net, topology@) && within_unit(net),
            r is Err ==> r->Err_0 == Error::InvalidTopology,
    {
        if topology.len() < 2 {
            return Err(Error::InvalidTopology);
        }
        let count = topology.len() - 1;
        let mut layers: Vec<Layer> = Vec::new();
        let mut l: usize = 0;
        while l < count
            invariant
                count == topology@.len() - 1,
                l <= count,
                layers@.len() == l,
                forall|k: int| 0 <= k < l
                    ==> (#[trigger] layers@[k]).neurons_spec().len()
                        == topology@[k + 1].neurons
                        && forall|n: int| 0 <= n < topology@[k + 1].neurons
                            ==> (#[trigger] layers@[k].neurons_spec()[n])
                                .weights_spec().len() == topology@[k].neurons,
                forall|k: int| 0 <= k < l
                    ==> forall|n: int| 0 <= n < (#[trigger] layers@[k]).neurons_spec().len()
                        ==> -SCALE <= (#[trigger] layers@[k].neurons_spec()[n]).bias_spec()
                                <= SCALE
                            && forall|w: int|
                                0 <= w < layers@[k].neurons_spec()[n].weights_spec().len()
                                ==> -SCALE
                                    <= #[trigger] layers@[k].neurons_spec()[n]
                                        .weights_spec()[w]
                                    <= SCALE,
            decreases count - l,
        {
            let layer = Layer::random(rng, topology[l].neurons, topology[l + 1].neurons);
            layers.push(layer);
            l = l + 1;
        }
        Ok(Network { layers })
    }

    /// The whole forward pass: the input vector folded through every layer
    /// in order. Fails with `InputSizeMismatch` exactly when the input
    /// width (or, layer by layer, an intermediate width) does not match
    /// what the next layer expects.
    pub fn propagate(&self, inputs: Vec<i32>) -> (r: Result<Vec<i32>, Error>)
        requires
            net_fits(self.layers_spec(), int_view(inputs@)),
        ensures
            r is Ok <==> net_accepts(self.layers_spec(), inputs@.len() as int),
            r matches Ok(out) ==> int_view(out@) == net_out(self.layers_spec(), int_view(inputs@)),
            r is Err ==> r->Err_0 == Error::InputSizeMismatch,
    {
        let ghost xs0 = int_view(inputs@);
        proof {
            assert(self.layers@.skip(0) =~= self.layers@);
            assert(xs0.len() == inputs@.len());
        }
        let num = self.layers.len();
        let mut current = inputs;
        let mut l: usize = 0;
        while l < num
            invariant
                num == self.layers@.len(),
                l <= num,
                xs0 == int_view(inputs@),
                xs0.len() == inputs@.len(),
                net_fits(self.layers@.skip(l as int), int_view(current@)),
                net_out(self.layers@.skip(l as int), int_view(current@))
                    == net_out(self.layers@, xs0),
                net_accepts(self.layers@, xs0.len() as int)
                    <==> net_accepts(self.layers@.skip(l as int), current@.len() as int),
            decreases num - l,
        {
            proof {
                assert(self.layers@.skip(l as int)[0] == self.layers@[l as int]);
                assert(self.layers@.skip(l as int).skip(1)
                    =~= self.layers@.skip(l as int + 1));
            }
            let layer = &self.layers[l];
            match layer.propagate(&current) {
                Ok(next) => {
                    proof {
                        assert(int_view(next@)
                            == layer_out(self.layers@[l as int], int_view(current@)));
                        assert(int_view(next@).len() == next@.len());
                        assert(next@.len()
                            == self.layers@[l as int].neurons_spec().len());
                    }
                    current = next;
                },
                Err(e) => {
                    proof {
                        assert(!layer_accepts(self.layers@[l as int], current@.len() as int));
                        assert(!net_accepts(self.layers@.skip(l as int), current@.len() as int));
                    }
                    return Err(e);
                },
            }
            l = l + 1;
        }
        proof {
            assert(self.layers@.skip(num as int) =~= Seq::<Layer>::empty());
        }
        Ok(current)
    }
}

/// The flat encoding of one neuron: first the bias, then each weight in
/// order.
pub open spec fn neuron_genes(n: Neuron) -> Seq<i32> {
    seq![n.bias_spec()] + n.weights_spec()
}

/// The flat encoding of a sequence of neurons, in order.
pub open spec fn neurons_genes(ns: Seq<Neuron>) -> Seq<i32>
    decreases ns.len(),
{
    if ns.len() == 0 {
        Seq::empty()
    } else {
        neuron_genes(ns[0]) + neurons_genes(ns.skip(1))
    }
}

/// The flat encoding of a sequence of layers, in order: for each layer in
/// order, for each neuron in order, first the bias then each weight.
pub open spec fn layers_genes(ls: Seq<Layer>) -> Seq<i32>
    decreases ls.len(),
{
    if ls.len() == 0 {
        Seq::empty()
    } else {
        neurons_genes(ls[0].neurons_spec()) + layers_genes(ls.skip(1))
    }
}

/// The number of genes a topology consumes: the sum over its adjacent
/// pairs of `(1 + inputs) * neurons`.
pub open spec fn required_genes(top: Seq<LayerTopology>) -> int
    decreases top.len(),
{
    if top.len() < 2 {
        0
    } else {
        (1 + top[0].neurons) * top[1].neurons + required_genes(top.skip(1))
    }
}

/// The layers have the shape the topology describes (the sequence-level
/// core of `shaped`).
pub open spec fn layers_shaped(ls: Seq<Layer>, top: Seq<LayerTopology>) -> bool {
    ls.len() == top.len() - 1
        && forall|l: int| 0 <= l < top.len() - 1
            ==> (#[trigger] ls[l]).neurons_spec().len() == top[l + 1].neurons
                && forall|n: int| 0 <= n < top[l + 1].neurons
                    ==> (#[trigger] ls[l].neurons_spec()[n]).weights_spec().len()
                        == top[l].neurons
}

/// Two layer sequences carry the same parameters: same counts everywhere,
/// same biases, same weights.
pub open spec fn layers_equiv(a: Seq<Layer>, b: Seq<Layer>) -> bool {
    a.len() == b.len()
        && forall|l: int| 0 <= l < a.len()
            ==> (#[trigger] a[l]).neurons_spec().len() == b[l].neurons_spec().len()
                && forall|n: int| 0 <= n < a[l].neurons_spec().len()
                    ==> (#[trigger] a[l].neurons_spec()[n]).bias_spec()
                            == b[l].neurons_spec()[n].bias_spec()
                        && a[l].neurons_spec()[n].weights_spec()
                            == b[l].neurons_spec()[n].weights_spec()
}

/// A network fit for encoding: at least one layer, no empty layer, equal
/// weight counts within a layer, and widths that chain layer to layer.
pub open spec fn net_wf(net: Network) -> bool {
    net.layers_spec().len() >= 1
        && (forall|l: int| 0 <= l < net.layers_spec().len()
            ==> (#[trigger] net.layers_spec()[l]).neurons_spec().len() >= 1)
        && (forall|l: int, n: int| 0 <= l < net.layers_spec().len()
                && 0 <= n < net.layers_spec()[l].neurons_spec().len()
            ==> (#[trigger] net.layers_spec()[l].neurons_spec()[n]).weights_spec().len()
                == net.layers_spec()[l].neurons_spec()[0].weights_spec().len())
        && (forall|l: int| 1 <= l < net.layers_spec().len()
            ==> (#[trigger] net.layers_spec()[l]).neurons_spec()[0].weights_spec().len()
                == net.layers_spec()[l - 1].neurons_spec().len())
}

/// The topology a well-formed network was built over: its input width
/// followed by each layer's neuron count.
pub open spec fn topology_of(net: Network) -> Seq<LayerTopology> {
    Seq::new(
        net.layers_spec().len() + 1,
        |i: int| LayerTopology {
            neurons: if i == 0 {
                net.layers_spec()[0].neurons_spec()[0].weights_spec().len() as usize
            } else {
                net.layers_spec()[i - 1].neurons_spec().len() as usize
            },
        },
    )
}

/// Appending a neuron appends its genes.
proof fn lemma_neurons_genes_push(ns: Seq<Neuron>, n: Neuron)
    ensures
        neurons_genes(ns.push(n)) == neurons_genes(ns) + neuron_genes(n),
    decreases ns.len(),
{
    if ns.len() == 0 {
        assert(ns.push(n).skip(1) =~= Seq::<Neuron>::empty());
        assert(ns.push(n)[0] == n);
        assert(neuron_genes(n) + neurons_genes(Seq::<Neuron>::empty())
            =~= neurons_genes(ns) + neuron_genes(n));
    } else {
        lemma_neurons_genes_push(ns.skip(1), n);
        assert(ns.push(n).skip(1) =~= ns.skip(1).push(n));
        assert(ns.push(n)[0] == ns[0]);
        assert(neuron_genes(ns[0]) + (neurons_genes(ns.skip(1)) + neuron_genes(n))
            =~= (neuron_genes(ns[0]) + neurons_genes(ns.skip(1))) + neuron_genes(n));
    }
}

/// Appending a layer appends its genes.
proof fn lemma_layers_genes_push(ls: Seq<Layer>, l: Layer)
    ensures
        layers_genes(ls.push(l)) == layers_genes(ls) + neurons_genes(l.neurons_spec()),
    decreases ls.len(),
{
    if ls.len() == 0 {
        assert(ls.push(l).skip(1) =~= Seq::<Layer>::empty());
        assert(ls.push(l)[0] == l);
        assert(neurons_genes(l.neurons_spec()) + layers_genes(Seq::<Layer>::empty())
            =~= layers_genes(ls) + neurons_genes(l.neurons_spec()));
    } else {
        lemma_layers_genes_push(ls.skip(1), l);
        assert(ls.push(l).skip(1) =~= ls.skip(1).push(l));
        assert(ls.push(l)[0] == ls[0]);
        assert(neurons_genes(ls[0].neurons_spec())
                + (layers_genes(ls.skip(1)) + neurons_genes(l.neurons_spec()))
            =~= (neurons_genes(ls[0].neurons_spec()) + layers_genes(ls.skip(1)))
                + neurons_genes(l.neurons_spec()));
    }
}

/// A topology never asks for a negative number of genes.
proof fn lemma_required_nonneg(top: Seq<LayerTopology>)
    ensures
        required_genes(top) >= 0,
    decreases top.len(),
{
    if top.len() >= 2 {
        lemma_required_nonneg(top.skip(1));
        assert((1 + top[0].neurons) * top[1].neurons >= 0) by (nonlinear_arith);
    }
}

/// Neurons of equal input width encode to `count * (1 + width)` genes.
proof fn lemma_neurons_genes_len(ns: Seq<Neuron>, m: int)
    requires
        forall|i: int| 0 <= i < ns.len()
            ==> (#[trigger] ns[i]).weights_spec().len() == m,
    ensures
        neurons_genes(ns).len() == ns.len() * (1 + m),
    decreases ns.len(),
{
    if ns.len() > 0 {
        assert(ns.skip(1).len() == ns.len() - 1);
        assert(forall|i: int| 0 <= i < ns.skip(1).len()
            ==> (#[trigger] ns.skip(1)[i]).weights_spec().len() == m);
        lemma_neurons_genes_len(ns.skip(1), m);
        assert((ns.len() - 1) * (1 + m) + (1 + m) == ns.len() * (1 + m)) by (nonlinear_arith);
    }
}

/// A shaped layer sequence encodes to exactly the topology's gene count.
proof fn lemma_required_matches(ls: Seq<Layer>, top: Seq<LayerTopology>)
    requires
        top.len() >= 1,
        layers_shaped(ls, top),
    ensures
        layers_genes(ls).len() == required_genes(top),
    decreases ls.len(),
{
    if ls.len() == 0 {
        assert(required_genes(top) == 0);
    } else {
        assert(forall|l: int| 0 <= l < top.skip(1).len() - 1
            ==> (#[trigger] ls.skip(1)[l]).neurons_spec().len()
                == top.skip(1)[l + 1].neurons);
        assert(layers_shaped(ls.skip(1), top.skip(1)));
        lemma_required_matches(ls.skip(1), top.skip(1));
        lemma_neurons_genes_len(ls[0].neurons_spec(), top[0].neurons as int);
        assert((top[1].neurons as int) * (1 + top[0].neurons as int)
            == (1 + top[0].neurons as int) * (top[1].neurons as int)) by (nonlinear_arith);
    }
}

/// Equal gene sequences on equally shaped neuron rows pin every bias and
/// every weight.
proof fn lemma_neurons_determined(a: Seq<Neuron>, b: Seq<Neuron>, m: int)
    requires
        a.len() == b.len(),
        forall|i: int| 0 <= i < a.len()
            ==> (#[trigger] a[i]).weights_spec().len() == m,
        forall|i: int| 0 <= i < b.len()
            ==> (#[trigger] b[i]).weights_spec().len() == m,
        neurons_genes(a) == neurons_genes(b),
    ensures
        forall|i: int| 0 <= i < a.len()
            ==> (#[trigger] a[i]).bias_spec() == b[i].bias_spec()
                && a[i].weights_spec() == b[i].weights_spec(),
    decreases a.len(),
{
    if a.len() > 0 {
        let ga = neuron_genes(a[0]);
        let gb = neuron_genes(b[0]);
        assert(ga.len() == 1 + m);
        assert(gb.len() == 1 + m);
        assert(neurons_genes(a) == ga + neurons_genes(a.skip(1)));
        assert(neurons_genes(b) == gb + neurons_genes(b.skip(1)));
        assert(ga =~= neurons_genes(a).take(1 + m));
        assert(gb =~= neurons_genes(b).take(1 + m));
        assert(a[0].bias_spec() == ga[0]);
        assert(b[0].bias_spec() == gb[0]);
        assert(a[0].weights_spec() =~= ga.skip(1));
        assert(b[0].weights_spec() =~= gb.skip(1));
        assert(neurons_genes(a.skip(1)) =~= neurons_genes(a).skip(1 + m));
        assert(neurons_genes(b.skip(1)) =~= neurons_genes(b).skip(1 + m));
        assert(forall|i: int| 0 <= i < a.skip(1).len()
            ==> (#[trigger] a.skip(1)[i]).weights_spec().len() == m);
        assert(forall|i: int| 0 <= i < b.skip(1).len()
            ==> (#[trigger] b.skip(1)[i]).weights_spec().len() == m);
        lemma_neurons_determined(a.skip(1), b.skip(1), m);
        assert forall|i: int| 0 <= i < a.len()
            implies (#[trigger] a[i]).bias_spec() == b[i].bias_spec()
                && a[i].weights_spec() == b[i].weights_spec() by {
            if i > 0 {
                assert(a.skip(1)[i - 1] == a[i]);
                assert(b.skip(1)[i - 1] == b[i]);
            }
        }
    }
}

/// Equal gene sequences on equally shaped layer sequences pin every
/// parameter of every layer.
proof fn lemma_layers_determined(a: Seq<Layer>, b: Seq<Layer>, top: Seq<LayerTopology>)
    requires
        top.len() >= 1,
        layers_shaped(a, top),
        layers_shaped(b, top),
        layers_genes(a) == layers_genes(b),
    ensures
        layers_equiv(a, b),
    decreases a.len(),
{
    if a.len() > 0 {
        let m = top[0].neurons as int;
        let cnt = top[1].neurons as int;
        let block = cnt * (1 + m);
        lemma_neurons_genes_len(a[0].neurons_spec(), m);
        lemma_neurons_genes_len(b[0].neurons_spec(), m);
        assert(layers_genes(a) == neurons_genes(a[0].neurons_spec()) + layers_genes(a.skip(1)));
        assert(layers_genes(b) == neurons_genes(b[0].neurons_spec()) + layers_genes(b.skip(1)));
        assert(neurons_genes(a[0].neurons_spec()) =~= layers_genes(a).take(block));
        assert(neurons_genes(b[0].neurons_spec()) =~= layers_genes(b).take(block));
        lemma_neurons_determined(a[0].neurons_spec(), b[0].neurons_spec(), m);
        assert(layers_genes(a.skip(1)) =~= layers_genes(a).skip(block));
        assert(layers_genes(b.skip(1)) =~= layers_genes(b).skip(block));
        assert(layers_shaped(a.skip(1), top.skip(1)));
        assert(layers_shaped(b.skip(1), top.skip(1)));
        lemma_layers_determined(a.skip(1), b.skip(1), top.skip(1));
        assert forall|l: int| 0 <= l < a.len()
            implies (#[trigger] a[l]).neurons_spec().len() == b[l].neurons_spec().len()
                && forall|n: int| 0 <= n < a[l].neurons_spec().len()
                    ==> (#[trigger] a[l].neurons_spec()[n]).bias_spec()
                            == b[l].neurons_spec()[n].bias_spec()
                        && a[l].neurons_spec()[n].weights_spec()
                            == b[l].neurons_spec()[n].weights_spec() by {
            if l > 0 {
                assert(a.skip(1)[l - 1] == a[l]);
                assert(b.skip(1)[l - 1] == b[l]);
            }
        }
    }
}

/// Networks with the same parameters everywhere propagate identically.
proof fn lemma_equiv_out(a: Seq<Layer>, b: Seq<Layer>, xs: Seq<int>)
    requires
        layers_equiv(a, b),
    ensures
        net_out(a, xs) == net_out(b, xs),
    decreases a.len(),
{
    if a.len() > 0 {
        assert forall|i: int| 0 <= i < a[0].neurons_spec().len()
            implies neuron_out(#[trigger] a[0].neurons_spec()[i], xs)
                == neuron_out(b[0].neurons_spec()[i], xs) by {
            assert(a[0].neurons_spec()[i].bias_spec() == b[0].neurons_spec()[i].bias_spec());
            assert(a[0].neurons_spec()[i].weights_spec() == b[0].neurons_spec()[i].weights_spec());
        }
        assert(layer_out(a[0], xs) =~= layer_out(b[0], xs));
        assert(layers_equiv(a.skip(1), b.skip(1))) by {
            assert forall|l: int| 0 <= l < a.skip(1).len()
                implies (#[trigger] a.skip(1)[l]).neurons_spec().len()
                    == b.skip(1)[l].neurons_spec().len()
                    && forall|n: int| 0 <= n < a.skip(1)[l].neurons_spec().len()
                        ==> (#[trigger] a.skip(1)[l].neurons_spec()[n]).bias_spec()
                                == b.skip(1)[l].neurons_spec()[n].bias_spec()
                            && a.skip(1)[l].neurons_spec()[n].weights_spec()
                                == b.skip(1)[l].neurons_spec()[n].weights_spec() by {
                assert(a.skip(1)[l] == a[l + 1]);
                assert(b.skip(1)[l] == b[l + 1]);
            }
        }
        lemma_equiv_out(a.skip(1), b.skip(1), layer_out(a[0], xs));
    }
}

/// A well-formed network is shaped by its own topology.
proof fn lemma_wf_shaped(net: Network)
    requires
        net_wf(net),
    ensures
        layers_shaped(net.layers_spec(), topology_of(net)),
        topology_of(net).len() >= 2,
{
    broadcast use vstd::std_specs::vec::axiom_spec_len;

    let top = topology_of(net);
    let ls = net.layers_spec();
    assert forall|l: int| 0 <= l < top.len() - 1
        implies (#[trigger] ls[l]).neurons_spec().len() == top[l + 1].neurons
            && forall|n: int| 0 <= n < top[l + 1].neurons
                ==> (#[trigger] ls[l].neurons_spec()[n]).weights_spec().len()
                    == top[l].neurons by {
        assert(vstd::std_specs::vec::spec_vec_len(&ls[l].neurons)
            == ls[l].neurons@.len());
        assert(ls[l].neurons_spec().len() == top[l + 1].neurons);
        assert(vstd::std_specs::vec::spec_vec_len(&ls[0].neurons_spec()[0].weights)
            == ls[0].neurons_spec()[0].weights@.len());
        if l > 0 {
            assert(vstd::std_specs::vec::spec_vec_len(&ls[l - 1].neurons)
                == ls[l - 1].neurons@.len());
        }
        assert forall|n: int| 0 <= n < top[l + 1].neurons
            implies (#[trigger] ls[l].neurons_spec()[n]).weights_spec().len()
                == top[l].neurons by {
            assert(ls[l].neurons_spec()[n].weights_spec().len()
                == ls[l].neurons_spec()[0].weights_spec().len());
            if l > 0 {
                assert(ls[l].neurons_spec()[0].weights_spec().len()
                    == ls[l - 1].neurons_spec().len());
            }
        }
    }
}

/// The round-trip law: decoding a network's own flat encoding over its own
/// topology rebuilds a network that propagates identically to the original
/// on every input.
pub proof fn lemma_round_trip(net: Network, rebuilt: Network)
    requires
        net_wf(net),
        shaped(rebuilt, topology_of(net)),
        layers_genes(rebuilt.layers_spec())
            == layers_genes(net.layers_spec()).take(required_genes(topology_of(net))),
    ensures
        layers_equiv(rebuilt.layers_spec(), net.layers_spec()),
        forall|xs: Seq<int>| net_out(rebuilt.layers_spec(), xs)
            == net_out(net.layers_spec(), xs),
{
    let top = topology_of(net);
    lemma_wf_shaped(net);
    lemma_required_matches(net.layers_spec(), top);
    assert(layers_genes(net.layers_spec()).take(required_genes(top))
        =~= layers_genes(net.layers_spec()));
    lemma_layers_determined(rebuilt.layers_spec(), net.layers_spec(), top);
    assert forall|xs: Seq<int>| net_out(rebuilt.layers_spec(), xs)
        == net_out(net.layers_spec(), xs) by {
        lemma_equiv_out(rebuilt.layers_spec(), net.layers_spec(), xs);
    }
}

impl Network {
    /// The flat encoding of the network: for each layer in order, for each
    /// neuron in order, first the bias then each weight in order. Decoding
    /// this sequence over the network's own topology rebuilds an equivalent
    /// network.
    pub fn weights(&self) -> (r: Vec<i32>)
        ensures
            r@ == layers_genes(self.layers_spec()),
    {
        let mut out: Vec<i32> = Vec::new();
        let num = self.layers.len();
        let mut l: usize = 0;
        while l < num
            invariant
                num == self.layers@.len(),
                l <= num,
                out@ == layers_genes(self.layers@.take(l as int)),
            decreases num - l,
        {
            let layer = &self.layers[l];
            let count = layer.neurons.len();
            let mut n: usize = 0;
            while n < count
                invariant
                    num == self.layers@.len(),
                    l < num,
                    *layer == self.layers@[l as int],
                    count == layer.neurons@.len(),
                    n <= count,
                    out@ == layers_genes(self.layers@.take(l as int))
                        + neurons_genes(layer.neurons@.take(n as int)),
                decreases count - n,
            {
                let neuron = &layer.neurons[n];
                out.push(neuron.bias);
                let wc = neuron.weights.len();
                let mut w: usize = 0;
                while w < wc
                    invariant
                        num == self.layers@.len(),
                        l < num,
                        *layer == self.layers@[l as int],
                        count == layer.neurons@.len(),
                        n < count,
                        *neuron == layer.neurons@[n as int],
                        wc == neuron.weights@.len(),
                        w <= wc,
                        out@ == layers_genes(self.layers@.take(l as int))
                            + neurons_genes(layer.neurons@.take(n as int))
                            + seq![neuron.bias] + neuron.weights@.take(w as int),
                    decreases wc - w,
                {
                    out.push(neuron.weights[w]);
                    w = w + 1;
                    proof {
                        assert(neuron.weights@.take(w as int)
                            =~= neuron.weights@.take(w as int - 1)
                                .push(neuron.weights@[w as int - 1]));
                        assert(out@ =~= layers_genes(self.layers@.take(l as int))
                            + neurons_genes(layer.neurons@.take(n as int))
                            + seq![neuron.bias] + neuron.weights@.take(w as int));
                    }
                }
                proof {
                    lemma_neurons_genes_push(
                        layer.neurons@.take(n as int),
                        layer.neurons@[n as int],
                    );
                    assert(layer.neurons@.take(n as int + 1)
                        =~= layer.neurons@.take(n as int).push(layer.neurons@[n as int]));
                    assert(neuron.weights@.take(wc as int) =~= neuron.weights@);
                    assert(out@ =~= layers_genes(self.layers@.take(l as int))
                        + neurons_genes(layer.neurons@.take(n as int + 1)));
                }
                n = n + 1;
            }
            proof {
                lemma_layers_genes_push(self.layers@.take(l as int), self.layers@[l as int]);
                assert(self.layers@.take(l as int + 1)
                    =~= self.layers@.take(l as int).push(self.layers@[l as int]));
                assert(layer.neurons@.take(count as int) =~= layer.neurons@);
                assert(out@ =~= layers_genes(self.layers@.take(l as int + 1)));
            }
            l = l + 1;
        }
        proof {
            assert(self.layers@.take(num as int) =~= self.layers@);
        }
        out
    }

    /// The topology of a well-formed network: its input width followed by
    /// each layer's neuron count.
    pub fn topology(&self) -> (r: Vec<LayerTopology>)
        requires
            net_wf(*self),
        ensures
            r@ == topology_of(*self),
    {
        let mut out: Vec<LayerTopology> = Vec::new();
        out.push(LayerTopology { neurons: self.layers[0].neurons[0].weights.len() });
        let num = self.layers.len();
        let mut l: usize = 0;
        while l < num
            invariant
                net_wf(*self),
                num == self.layers@.len(),
                l <= num,
                out@.len() == l + 1,
                forall|i: int| 0 <= i < l + 1 ==> out@[i] == topology_of(*self)[i],
            decreases num - l,
        {
            out.push(LayerTopology { neurons: self.layers[l].neurons.len() });
            l = l + 1;
        }
        proof {
            assert(out@ =~= topology_of(*self));
        }
        out
    }

    /// A network built deterministically from a flat gene sequence over a
    /// topology: the genes are consumed in a fixed order — for each layer
    /// in order, for each neuron in order, first the bias then each weight
    /// in order. Fails with `InvalidTopology` when fewer than two sizes are
    /// supplied and with `ChromosomeLengthMismatch` when the sequence is
    /// shorter than the topology requires; trailing excess genes are
    /// accepted and ignored.
    pub fn from_weights(topology: &Vec<LayerTopology>, genes: &Vec<i32>)
        -> (r: Result<Network, Error>)
        ensures
            topology@.len() < 2 ==> r is Err && r->Err_0 == Error::InvalidTopology,
            topology@.len() >= 2 && genes@.len() < required_genes(topology@)
                ==> r is Err && r->Err_0 == Error::ChromosomeLengthMismatch,
            (topology@.len() >= 2 && genes@.len() >= required_genes(topology@))
                <==> r is Ok,
            r matches Ok(net) ==> shaped(net, topology@)
                && layers_genes(net.layers_spec())
                    == genes@.take(required_genes(topology@)),
    {
        if topology.len() < 2 {
            return Err(Error::InvalidTopology);
        }
        let count = topology.len() - 1;
        proof {
            assert(topology@.skip(0) =~= topology@);
            assert(vstd::std_specs::vec::spec_vec_len(genes) == genes@.len());
        }

        // How many genes the topology requires. A count that overflows
        // usize cannot be met by any gene sequence, so overflow reports
        // the sequence as too short.
        let mut req: usize = 0;
        let mut l: usize = 0;
        while l < count
            invariant
                count == topology@.len() - 1,
                topology@.len() >= 2,
                l <= count,
                genes@.len() <= usize::MAX,
                req + required_genes(topology@.skip(l as int)) == required_genes(topology@),
            decreases count - l,
        {
            proof {
                assert(topology@.skip(l as int)[0] == topology@[l as int]);
                assert(topology@.skip(l as int)[1] == topology@[l as int + 1]);
                assert(topology@.skip(l as int).skip(1) =~= topology@.skip(l as int + 1));
                lemma_required_nonneg(topology@.skip(l as int + 1));
            }
            let inw = topology[l].neurons;
            let outn = topology[l + 1].neurons;
            let per: usize = if outn == 0 {
                proof {
                    assert((1 + inw as int) * (outn as int) == 0) by (nonlinear_arith)
                        requires outn as int == 0;
                }
                0
            } else {
                let a = match inw.checked_add(1) {
                    Some(v) => v,
                    None => {
                        proof {
                            assert((1 + inw as int) * (outn as int) >= (1 + inw as int))
                                by (nonlinear_arith)
                                requires outn as int >= 1, inw as int >= 0;
                            assert(required_genes(topology@) > usize::MAX);
                        }
                        return Err(Error::ChromosomeLengthMismatch);
                    },
                };
                match a.checked_mul(outn) {
                    Some(p) => p,
                    None => {
                        proof {
                            assert((1 + inw as int) * (outn as int)
                                == (a as int) * (outn as int));
                            assert(required_genes(topology@) > usize::MAX);
                        }
                        return Err(Error::ChromosomeLengthMismatch);
                    },
                }
            };
            proof {
                assert(per as int == (1 + inw as int) * (outn as int));
            }
            req = match req.checked_add(per) {
                Some(v) => v,
                None => {
                    proof {
                        assert(required_genes(topology@) > usize::MAX);
                    }
                    return Err(Error::ChromosomeLengthMismatch);
                },
            };
            l = l + 1;
        }
        proof {
            assert(topology@.skip(count as int).len() == 1);
            assert(req == required_genes(topology@));
        }
        if genes.len() < req {
            return Err(Error::ChromosomeLengthMismatch);
        }

        proof {
            assert(topology@.skip(0) =~= topology@);
            assert(genes@.take(0) =~= layers_genes(Seq::<Layer>::empty()));
        }
        let mut layers: Vec<Layer> = Vec::new();
        let mut idx: usize = 0;
        let mut l: usize = 0;
        while l < count
            invariant
                count == topology@.len() - 1,
                topology@.len() >= 2,
                l <= count,
                layers@.len() == l,
                genes@.len() <= usize::MAX,
                req == required_genes(topology@),
                req <= genes@.len(),
                idx as int + required_genes(topology@.skip(l as int)) == req,
                idx <= req,
                layers_genes(layers@) == genes@.take(idx as int),
                forall|k: int| 0 <= k < l
                    ==> (#[trigger] layers@[k]).neurons_spec().len()
                        == topology@[k + 1].neurons
                        && forall|n: int| 0 <= n < topology@[k + 1].neurons
                            ==> (#[trigger] layers@[k].neurons_spec()[n])
                                .weights_spec().len() == topology@[k].neurons,
            decreases count - l,
        {
            proof {
                assert(topology@.skip(l as int)[0] == topology@[l as int]);
                assert(topology@.skip(l as int)[1] == topology@[l as int + 1]);
                assert(topology@.skip(l as int).skip(1) =~= topology@.skip(l as int + 1));
                lemma_required_nonneg(topology@.skip(l as int + 1));
            }
            let inw = topology[l].neurons;
            let outn = topology[l + 1].neurons;
            let ghost layer_start = idx as int;
            proof {
                assert(required_genes(topology@.skip(l as int))
                    == (1 + inw as int) * (outn as int)
                        + required_genes(topology@.skip(l as int + 1)));
                assert(layer_start + (1 + inw as int) * (outn as int) <= genes@.len());
                assert((1 + inw as int) * 0 == 0) by (nonlinear_arith);
                assert(genes@.subrange(layer_start, layer_start)
                    =~= neurons_genes(Seq::<Neuron>::empty()));
            }
            let mut neurons: Vec<Neuron> = Vec::new();
            let mut n: usize = 0;
            while n < outn
                invariant
                    n <= outn,
                    neurons@.len() == n,
                    genes@.len() <= usize::MAX,
                    idx as int == layer_start + (1 + inw as int) * (n as int),
                    layer_start >= 0,
                    layer_start + (1 + inw as int) * (outn as int) <= genes@.len(),
                    neurons_genes(neurons@)
                        == genes@.subrange(layer_start, idx as int),
                    forall|k: int| 0 <= k < n
                        ==> (#[trigger] neurons@[k]).weights_spec().len() == inw,
                decreases outn - n,
            {
                proof {
                    assert((1 + inw as int) * (n as int) + (1 + inw as int)
                        == (1 + inw as int) * (n as int + 1)) by (nonlinear_arith);
                    assert((1 + inw as int) * (n as int + 1)
                        <= (1 + inw as int) * (outn as int)) by (nonlinear_arith)
                        requires n as int + 1 <= outn as int, inw as int >= 0;
                    assert((1 + inw as int) * (n as int) >= 0) by (nonlinear_arith)
                        requires n as int >= 0, inw as int >= 0;
                }
                let ghost neuron_start = idx as int;
                let bias = genes[idx];
                idx = idx + 1;
                let mut weights: Vec<i32> = Vec::new();
                let mut w: usize = 0;
                while w < inw
                    invariant
                        w <= inw,
                        weights@.len() == w,
                        genes@.len() <= usize::MAX,
                        idx as int == neuron_start + 1 + w as int,
                        neuron_start >= 0,
                        neuron_start + 1 + inw as int <= genes@.len(),
                        bias == genes@[neuron_start],
                        weights@ == genes@.subrange(neuron_start + 1, idx as int),
                    decreases inw - w,
                {
                    weights.push(genes[idx]);
                    idx = idx + 1;
                    w = w + 1;
                    proof {
                        assert(weights@ =~= genes@.subrange(neuron_start + 1, idx as int));
                    }
                }
                let neuron = Neuron { bias, weights };
                proof {
                    assert(neuron_genes(neuron)
                        =~= genes@.subrange(neuron_start, idx as int));
                    lemma_neurons_genes_push(neurons@, neuron);
                    assert(genes@.subrange(layer_start, neuron_start)
                            + genes@.subrange(neuron_start, idx as int)
                        =~= genes@.subrange(layer_start, idx as int));
                }
                neurons.push(neuron);
                n = n + 1;
            }
            let layer = Layer { neurons };
            proof {
                lemma_layers_genes_push(layers@, layer);
                assert(genes@.take(layer_start) + genes@.subrange(layer_start, idx as int)
                    =~= genes@.take(idx as int));
            }
            layers.push(layer);
            l = l + 1;
        }
        proof {
            assert(topology@.skip(count as int).len() == 1);
            assert(idx == req);
        }
        Ok(Network { layers })
    }
}

} // verus!
