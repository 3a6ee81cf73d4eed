//! The multilayer feedforward network: per-layer weight and bias matrices,
//! the forward pass with its cached pre-activations and activations, the
//! backward pass computing per-layer gradients by the chain rule, the
//! in-place parameter update, and the full-batch training loop.
//!
//! Randomness stays outside: the constructor takes the already drawn raw
//! samples for the weights and rescales them itself, so that everything the
//! network computes is a function of plain values.

use vstd::prelude::*;
use vstd::pervasive::unreached;
use crate::scalar::mul_bits;
use crate::scalar::real_mul;
use crate::scalar::real_of_u64;
use crate::scalar::real_sub;
use crate::scalar::sub_bits;
use crate::scalar::u64_to_bits;
use crate::scalar::ZERO_BITS;
use crate::vector2d::div_scalar_vals;
use crate::vector2d::dot_vals;
use crate::vector2d::mean0_vals;
use crate::vector2d::mul_scalar_vals;
use crate::vector2d::mul_vals;
use crate::vector2d::row_add_vals;
use crate::vector2d::sub_vals;
use crate::vector2d::transpose_vals;
use crate::vector2d::MatrixError;
use crate::vector2d::Vector2D;
use crate::activation::sigmoid;
use crate::activation::sigmoid_derivative;
use crate::activation::sigmoid_derivative_vals;
use crate::activation::sigmoid_vals;
use crate::loss::ce_derivative_vals;
use crate::loss::ce_loss_vals;
use crate::loss::cross_entropy_derivative;
use crate::loss::cross_entropy_loss;

verus! {

/// The owned state of a network: the parameters proper and the caches the
/// forward pass fills for the backward pass to consume.
pub struct Parameters {
    /// One weight matrix per layer transition, of shape shape[l] by
    /// shape[l+1].
    pub weights: Vec<Vector2D>,
    /// One bias row per layer transition, of shape 1 by shape[l+1].
    pub biases: Vec<Vector2D>,
    /// Cached pre-activations of the most recent forward pass.
    pub z: Vec<Vector2D>,
    /// Cached activations of the most recent forward pass; entry 0 is the
    /// input and the last entry the prediction.
    pub a: Vec<Vector2D>,
}

/// The fixed description of a network: its layer widths and learning rate.
pub struct HyperParameters {
    /// The layer widths, input first.
    pub shape: Vec<usize>,
    /// The learning rate, fixed for the network's lifetime.
    pub learning_rate: u64,
    /// The number of entries of `shape`.
    pub layers: usize,
}

/// The per-layer gradients the backward pass computes.
pub struct Gradients {
    /// Gradients with respect to the pre-activations.
    pub z: Vec<Vector2D>,
    /// Gradients with respect to the activations.
    pub a: Vec<Vector2D>,
    /// Gradients with respect to the weights.
    pub weights: Vec<Vector2D>,
    /// Gradients with respect to the biases.
    pub biases: Vec<Vector2D>,
}

/// The assembled network.
pub struct NeuralNetwork {
    /// Weights, biases and forward-pass caches.
    pub parameters: Parameters,
    /// Layer widths and learning rate.
    pub hyperparameters: HyperParameters,
    /// The gradients of the most recent backward pass.
    pub gradients: Gradients,
}

/// A sequence of the given length holding only the bit pattern of +0.0.
pub open spec fn zero_vals(count: int) -> Seq<u64> {
    Seq::new(count as nat, |q: int| ZERO_BITS)
}

/// The rescale applied to each raw weight sample: two times the sample,
/// minus one.
pub open spec fn rescale_spec(s: u64) -> u64 {
    sub_bits(mul_bits(u64_to_bits(2), s), u64_to_bits(1))
}

/// The rescaled slice of raw samples a weight matrix is built from.
pub open spec fn rescaled_vals(init: Seq<u64>, off: int, count: int) -> Seq<u64> {
    Seq::new(count as nat, |q: int| rescale_spec(init[off + q]))
}

/// The number of weight entries a shape calls for: the sum over all layer
/// transitions of the product of adjacent widths.
pub open spec fn weight_count_spec(s: Seq<usize>) -> int
    decreases s.len(),
{
    if s.len() <= 1 {
        0
    } else {
        weight_count_spec(s.drop_last()) + s[s.len() - 2] * s[s.len() - 1]
    }
}

/// Extending the counted prefix by one transition adds that transition's
/// product.
proof fn lemma_weight_count_step(s: Seq<usize>, l: int)
    requires
        0 <= l,
        l + 1 < s.len(),
    ensures
        weight_count_spec(s.take(l + 2)) == weight_count_spec(s.take(l + 1)) + s[l] * s[l + 1],
{
    assert(s.take(l + 2).drop_last() =~= s.take(l + 1));
}

/// The weight count never goes down as the prefix grows, and the count of
/// the whole shape bounds every prefix count.
proof fn lemma_weight_count_mono(s: Seq<usize>, m: int)
    requires
        0 <= m <= s.len(),
    ensures
        weight_count_spec(s.take(m)) <= weight_count_spec(s),
        weight_count_spec(s.take(m)) >= 0,
    decreases s.len() - m,
{
    lemma_weight_count_nonneg(s.take(m));
    if m == s.len() {
        assert(s.take(m) =~= s);
    } else {
        lemma_weight_count_mono(s, m + 1);
        if m == 0 {
            assert(weight_count_spec(s.take(0)) == 0);
        } else {
            lemma_weight_count_step(s, m - 1);
            assert(s[m - 1] * s[m] >= 0) by (nonlinear_arith);
        }
    }
}

/// The weight count is a sum of products of widths, so it is never negative.
proof fn lemma_weight_count_nonneg(s: Seq<usize>)
    ensures
        weight_count_spec(s) >= 0,
    decreases s.len(),
{
    if s.len() > 1 {
        lemma_weight_count_nonneg(s.drop_last());
        assert(s[s.len() - 2] * s[s.len() - 1] >= 0) by (nonlinear_arith);
    }
}

/// Counts the weight entries a shape calls for, or reports that the count
/// does not fit the machine.
pub fn weight_count(shape: &Vec<usize>) -> (r: Option<usize>)
    ensures
        r matches Some(n) ==> n == weight_count_spec(shape@),
        r is None ==> weight_count_spec(shape@) > usize::MAX,
{
    let mut total: usize = 0;
    let mut l: usize = 0;
    let sl: usize = shape.len();
    if sl == 0 {
        return Some(0);
    }
    while l + 1 < sl
        invariant
            sl == shape@.len(),
            sl >= 1,
            l + 1 <= sl,
            total == weight_count_spec(shape@.take(l + 1)),
        decreases sl - l,
    {
        proof {
            lemma_weight_count_step(shape@, l as int);
        }
        let p: usize = match shape[l].checked_mul(shape[l + 1]) {
            Some(p) => p,
            None => {
                proof {
                    lemma_weight_count_mono(shape@, l + 2);
                }
                return None;
            },
        };
        let t: usize = match total.checked_add(p) {
            Some(t) => t,
            None => {
                proof {
                    lemma_weight_count_mono(shape@, l + 2);
                }
                return None;
            },
        };
        total = t;
        l += 1;
    }
    proof {
        assert(shape@.take(l + 1) =~= shape@);
    }
    Some(total)
}

/// Builds the per-transition weight matrices from the raw samples, rescaling
/// each sample into roughly [-1, 1]. Fails with a shape mismatch exactly
/// when the sample count differs from what the shape calls for.
fn initialize_weights(shape: &Vec<usize>, init: &Vec<u64>) -> (r: Result<
    Vec<Vector2D>,
    MatrixError,
>)
    requires
        shape@.len() >= 1,
    ensures
        r is Ok <==> init@.len() == weight_count_spec(shape@),
        r matches Ok(ws) ==> ws@.len() == shape@.len() - 1 && forall|l: int|
            0 <= l < ws@.len() ==> (#[trigger] ws@[l]).wf() && ws@[l].rows == shape@[l]
                && ws@[l].cols == shape@[l + 1] && ws@[l].values@ == rescaled_vals(
                init@,
                weight_count_spec(shape@.take(l + 1)),
                shape@[l] * shape@[l + 1],
            ),
        r matches Err(e) ==> e == MatrixError::ShapeMismatch,
{
    let two: u64 = real_of_u64(2);
    let one: u64 = real_of_u64(1);
    let mut ws: Vec<Vector2D> = Vec::new();
    let mut cursor: usize = 0;
    let mut l: usize = 0;
    let sl: usize = shape.len();
    let il: usize = init.len();
    while l + 1 < sl
        invariant
            sl == shape@.len(),
            il == init@.len(),
            sl >= 1,
            l + 1 <= sl,
            cursor == weight_count_spec(shape@.take(l + 1)),
            cursor <= il,
            two == u64_to_bits(2),
            one == u64_to_bits(1),
            ws@.len() == l,
            forall|t: int|
                0 <= t < ws@.len() ==> (#[trigger] ws@[t]).wf() && ws@[t].rows == shape@[t]
                    && ws@[t].cols == shape@[t + 1] && ws@[t].values@ == rescaled_vals(
                    init@,
                    weight_count_spec(shape@.take(t + 1)),
                    shape@[t] * shape@[t + 1],
                ),
        decreases shape@.len() - l,
    {
        proof {
            lemma_weight_count_step(shape@, l as int);
        }
        let ri: usize = shape[l];
        let ci: usize = shape[l + 1];
        let need: usize = match ri.checked_mul(ci) {
            Some(p) => p,
            None => {
                proof {
                    lemma_weight_count_mono(shape@, l + 2);
                }
                return Err(MatrixError::ShapeMismatch);
            },
        };
        let end: usize = match cursor.checked_add(need) {
            Some(e) => e,
            None => {
                proof {
                    lemma_weight_count_mono(shape@, l + 2);
                }
                return Err(MatrixError::ShapeMismatch);
            },
        };
        if end > il {
            proof {
                lemma_weight_count_mono(shape@, l + 2);
            }
            return Err(MatrixError::ShapeMismatch);
        }
        let mut vals: Vec<u64> = Vec::new();
        let mut q: usize = 0;
        while q < need
            invariant
                q <= need,
                il == init@.len(),
                cursor + need <= il,
                two == u64_to_bits(2),
                one == u64_to_bits(1),
                vals@.len() == q,
                forall|p: int|
                    0 <= p < q ==> vals@[p] == rescale_spec(init@[cursor + p]),
            decreases need - q,
        {
            vals.push(real_sub(real_mul(two, init[cursor + q]), one));
            q += 1;
        }
        proof {
            assert(vals@ =~= rescaled_vals(init@, cursor as int, need as int));
        }
        ws.push(Vector2D { values: vals, rows: ri, cols: ci });
        cursor = end;
        l += 1;
    }
    proof {
        assert(shape@.take(l + 1) =~= shape@);
    }
    if cursor == init.len() {
        Ok(ws)
    } else {
        Err(MatrixError::ShapeMismatch)
    }
}

/// Builds the per-transition bias rows, all zero.
fn initialize_biases(shape: &Vec<usize>) -> (r: Vec<Vector2D>)
    requires
        shape@.len() >= 1,
    ensures
        r@.len() == shape@.len() - 1,
        forall|l: int|
            0 <= l < r@.len() ==> (#[trigger] r@[l]).wf() && r@[l].rows == 1 && r@[l].cols
                == shape@[l + 1] && r@[l].values@ == zero_vals(shape@[l + 1] as int),
{
    let mut bs: Vec<Vector2D> = Vec::new();
    let mut l: usize = 0;
    let sl: usize = shape.len();
    while l + 1 < sl
        invariant
            sl == shape@.len(),
            sl >= 1,
            l + 1 <= sl,
            bs@.len() == l,
            forall|t: int|
                0 <= t < bs@.len() ==> (#[trigger] bs@[t]).wf() && bs@[t].rows == 1
                    && bs@[t].cols == shape@[t + 1] && bs@[t].values@ == zero_vals(
                    shape@[t + 1] as int,
                ),
        decreases sl - l,
    {
        let ci: usize = shape[l + 1];
        let mut vals: Vec<u64> = Vec::new();
        let mut q: usize = 0;
        while q < ci
            invariant
                q <= ci,
                vals@.len() == q,
                forall|p: int| 0 <= p < q ==> vals@[p] == ZERO_BITS,
            decreases ci - q,
        {
            vals.push(ZERO_BITS);
            q += 1;
        }
        proof {
            assert(vals@ =~= zero_vals(ci as int));
            assert(vals@.len() == ci as int);
        }
        bs.push(Vector2D { values: vals, rows: 1, cols: ci });
        l += 1;
    }
    bs
}

impl Parameters {
    /// Takes ownership of the freshly built weights and biases and lays out
    /// empty caches, one slot per layer.
    pub fn new(layers: usize, weights: Vec<Vector2D>, biases: Vec<Vector2D>) -> (r: Parameters)
        ensures
            r.weights@ == weights@,
            r.biases@ == biases@,
            r.z@.len() == layers,
            r.a@.len() == layers,
            forall|l: int|
                0 <= l < layers ==> (#[trigger] r.z@[l]).wf() && r.z@[l].rows == 0
                    && r.z@[l].cols == 0 && r.z@[l].values@.len() == 0,
            forall|l: int|
                0 <= l < layers ==> (#[trigger] r.a@[l]).wf() && r.a@[l].rows == 0
                    && r.a@[l].cols == 0 && r.a@[l].values@.len() == 0,
    {
        let mut z: Vec<Vector2D> = Vec::new();
        let mut n: usize = 0;
        while n < layers
            invariant
                n <= layers,
                z@.len() == n,
                forall|l: int|
                    0 <= l < z@.len() ==> (#[trigger] z@[l]).wf() && z@[l].rows == 0
                        && z@[l].cols == 0 && z@[l].values@.len() == 0,
            decreases layers - n,
        {
            z.push(Vector2D::default());
            n += 1;
        }
        let mut a: Vec<Vector2D> = Vec::new();
        let mut m: usize = 0;
        while m < layers
            invariant
                m <= layers,
                a@.len() == m,
                forall|l: int|
                    0 <= l < a@.len() ==> (#[trigger] a@[l]).wf() && a@[l].rows == 0
                        && a@[l].cols == 0 && a@[l].values@.len() == 0,
            decreases layers - m,
        {
            a.push(Vector2D::default());
            m += 1;
        }
        Parameters { weights, biases, z, a }
    }

    /// The most recent prediction: an owned copy of the last cached
    /// activation.
    pub fn h(&self) -> (r: Vector2D)
        requires
            self.a@.len() >= 1,
        ensures
            r.values@ == self.a@[self.a@.len() - 1].values@,
            r.rows == self.a@[self.a@.len() - 1].rows,
            r.cols == self.a@[self.a@.len() - 1].cols,
    {
        self.a[self.a.len() - 1].duplicate()
    }
}

impl HyperParameters {
    /// Records the layer widths and learning rate; the layer count is the
    /// width count.
    pub fn new(shape: Vec<usize>, learning_rate: u64) -> (r: HyperParameters)
        ensures
            r.shape@ == shape@,
            r.learning_rate == learning_rate,
            r.layers == shape@.len(),
    {
        let layers: usize = shape.len();
        HyperParameters { shape, learning_rate, layers }
    }
}

impl Gradients {
    /// Lays out empty gradient slots: one per transition for the weight,
    /// bias and pre-activation gradients, one per layer for the activation
    /// gradients.
    pub fn new(layers: usize) -> (r: Gradients)
        requires
            layers >= 1,
        ensures
            r.z@.len() == layers - 1,
            r.a@.len() == layers,
            r.weights@.len() == layers - 1,
            r.biases@.len() == layers - 1,
            forall|l: int| 0 <= l < layers - 1 ==> (#[trigger] r.z@[l]).wf(),
            forall|l: int| 0 <= l < layers ==> (#[trigger] r.a@[l]).wf(),
            forall|l: int| 0 <= l < layers - 1 ==> (#[trigger] r.weights@[l]).wf(),
            forall|l: int| 0 <= l < layers - 1 ==> (#[trigger] r.biases@[l]).wf(),
    {
        let mut z: Vec<Vector2D> = Vec::new();
        let mut n: usize = 0;
        while n < layers - 1
            invariant
                n <= layers - 1,
                z@.len() == n,
                forall|l: int| 0 <= l < z@.len() ==> (#[trigger] z@[l]).wf(),
            decreases layers - 1 - n,
        {
            z.push(Vector2D::default());
            n += 1;
        }
        let mut a: Vec<Vector2D> = Vec::new();
        let mut m: usize = 0;
        while m < layers
            invariant
                m <= layers,
                a@.len() == m,
                forall|l: int| 0 <= l < a@.len() ==> (#[trigger] a@[l]).wf(),
            decreases layers - m,
        {
            a.push(Vector2D::default());
            m += 1;
        }
        let mut w: Vec<Vector2D> = Vec::new();
        let mut p: usize = 0;
        while p < layers - 1
            invariant
                p <= layers - 1,
                w@.len() == p,
                forall|l: int| 0 <= l < w@.len() ==> (#[trigger] w@[l]).wf(),
            decreases layers - 1 - p,
        {
            w.push(Vector2D::default());
            p += 1;
        }
        let mut b: Vec<Vector2D> = Vec::new();
        let mut q: usize = 0;
        while q < layers - 1
            invariant
                q <= layers - 1,
                b@.len() == q,
                forall|l: int| 0 <= l < b@.len() ==> (#[trigger] b@[l]).wf(),
            decreases layers - 1 - q,
        {
            b.push(Vector2D::default());
            q += 1;
        }
        Gradients { z, a, weights: w, biases: b }
    }
}

impl NeuralNetwork {
    /// The structural invariant: the layer count matches the shape, every
    /// per-transition matrix has its documented shape, and every held
    /// matrix satisfies its own invariant.
    pub open spec fn wf(self) -> bool {
        let s = self.hyperparameters.shape@;
        let ly = self.hyperparameters.layers as int;
        &&& ly == s.len()
        &&& ly >= 1
        &&& self.parameters.weights@.len() == ly - 1
        &&& self.parameters.biases@.len() == ly - 1
        &&& self.parameters.z@.len() == ly
        &&& self.parameters.a@.len() == ly
        &&& self.gradients.z@.len() == ly - 1
        &&& self.gradients.a@.len() == ly
        &&& self.gradients.weights@.len() == ly - 1
        &&& self.gradients.biases@.len() == ly - 1
        &&& forall|l: int|
            0 <= l < ly - 1 ==> (#[trigger] self.parameters.weights@[l]).wf()
                && self.parameters.weights@[l].rows == s[l]
                && self.parameters.weights@[l].cols == s[l + 1]
        &&& forall|l: int|
            0 <= l < ly - 1 ==> (#[trigger] self.parameters.biases@[l]).wf()
                && self.parameters.biases@[l].rows == 1
                && self.parameters.biases@[l].cols == s[l + 1]
        &&& forall|l: int| 0 <= l < ly ==> (#[trigger] self.parameters.z@[l]).wf()
        &&& forall|l: int| 0 <= l < ly ==> (#[trigger] self.parameters.a@[l]).wf()
        &&& forall|l: int| 0 <= l < ly - 1 ==> (#[trigger] self.gradients.z@[l]).wf()
        &&& forall|l: int| 0 <= l < ly ==> (#[trigger] self.gradients.a@[l]).wf()
        &&& forall|l: int| 0 <= l < ly - 1 ==> (#[trigger] self.gradients.weights@[l]).wf()
        &&& forall|l: int| 0 <= l < ly - 1 ==> (#[trigger] self.gradients.biases@[l]).wf()
    }

    /// Builds a network over the given layer widths from the raw weight
    /// samples, with learning rate 1: weights are the rescaled samples laid
    /// out transition by transition, biases start at zero, and the caches
    /// are empty. Fails with a shape mismatch exactly when the shape is
    /// empty or the sample count differs from what the shape calls for.
    pub fn new(shape: Vec<usize>, init: Vec<u64>) -> (r: Result<NeuralNetwork, MatrixError>)
        ensures
            r is Ok <==> shape@.len() >= 1 && init@.len() == weight_count_spec(shape@),
            r matches Ok(n) ==> n.wf() && n.hyperparameters.shape@ == shape@
                && n.hyperparameters.layers == shape@.len()
                && n.hyperparameters.learning_rate == u64_to_bits(1) && forall|l: int|
                0 <= l < shape@.len() - 1 ==> (#[trigger] n.parameters.weights@[l].values@)
                    == rescaled_vals(
                    init@,
                    weight_count_spec(shape@.take(l + 1)),
                    shape@[l] * shape@[l + 1],
                ) && n.parameters.biases@[l].values@ == zero_vals(shape@[l + 1] as int),
            r matches Err(e) ==> e == MatrixError::ShapeMismatch,
    {
        if shape.len() == 0 {
            return Err(MatrixError::ShapeMismatch);
        }
        let learning_rate: u64 = real_of_u64(1);
        let hyperparameters: HyperParameters = HyperParameters::new(shape, learning_rate);
        let weights: Vec<Vector2D> = match initialize_weights(&hyperparameters.shape, &init) {
            Ok(ws) => ws,
            Err(e) => {
                return Err(e);
            },
        };
        let biases: Vec<Vector2D> = initialize_biases(&hyperparameters.shape);
        let parameters: Parameters = Parameters::new(hyperparameters.layers, weights, biases);
        let gradients: Gradients = Gradients::new(hyperparameters.layers);
        Ok(NeuralNetwork { parameters, hyperparameters, gradients })
    }
}


impl NeuralNetwork {
    /// One layer of the forward pass, as cached: the pre-activation is the
    /// activation below it times that transition's weights with the bias row
    /// broadcast on, and the next activation is its elementwise sigmoid.
    pub open spec fn forward_layer_ok(self, batch: int, l: int) -> bool {
        let s = self.hyperparameters.shape@;
        let zl = self.parameters.z@[l];
        let al = self.parameters.a@[l];
        let al1 = self.parameters.a@[l + 1];
        let wl = self.parameters.weights@[l];
        let bl = self.parameters.biases@[l];
        &&& zl.rows == batch
        &&& zl.cols == s[l + 1]
        &&& zl.values@ == row_add_vals(
            dot_vals(al.values@, wl.values@, batch, s[l] as int, s[l + 1] as int),
            bl.values@,
            s[l + 1] as int,
        )
        &&& al1.rows == batch
        &&& al1.cols == s[l + 1]
        &&& al1.values@ == sigmoid_vals(zl.values@)
    }

    /// The caches describe one full forward pass on the given input: the
    /// first activation is the input itself and every layer follows from
    /// the one below it.
    pub open spec fn caches_follow(self, input: Vector2D) -> bool {
        let ly = self.hyperparameters.layers as int;
        &&& self.parameters.a@[0].values@ == input.values@
        &&& self.parameters.a@[0].rows == input.rows
        &&& self.parameters.a@[0].cols == input.cols
        &&& forall|l: int| 0 <= l < ly - 1 ==> self.forward_layer_ok(input.rows as int, l)
    }

    /// The first `upto` cache slots carry the shapes of a forward pass over
    /// a batch of the given size.
    pub open spec fn shaped_upto(self, batch: int, upto: int) -> bool {
        forall|t: int| 0 <= t < upto ==> self.slot_shaped(batch, t)
    }

    /// Every cache slot carries the shapes of a forward pass over a batch of
    /// the given size; this is what the backward pass checks before it reads
    /// the caches.
    pub open spec fn caches_shaped(self, batch: int) -> bool {
        self.shaped_upto(batch, self.hyperparameters.layers as int)
    }

    /// Runs the forward pass: seeds the activation cache with the input,
    /// then chains dot, row-broadcast bias add and sigmoid through every
    /// layer, and hands back an owned copy of the final activation — the
    /// prediction, of shape batch by shape[last]. Fails with a dimension
    /// mismatch exactly when the input width differs from shape[0]; the
    /// parameters, hyperparameters and gradients are never touched.
    #[verifier::loop_isolation(false)]
    pub fn forward(&mut self, input: &Vector2D) -> (r: Result<Vector2D, MatrixError>)
        requires
            old(self).wf(),
            input.wf(),
        ensures
            final(self).wf(),
            final(self).hyperparameters == old(self).hyperparameters,
            final(self).parameters.weights == old(self).parameters.weights,
            final(self).parameters.biases == old(self).parameters.biases,
            final(self).gradients == old(self).gradients,
            r is Ok <==> input.cols == old(self).hyperparameters.shape@[0],
            r is Err ==> *final(self) == *old(self),
            r matches Err(e) ==> e == MatrixError::DimensionMismatch,
            r matches Ok(m) ==> final(self).caches_follow(*input) && final(self).caches_shaped(
                input.rows as int,
            ) && m.wf() && m.rows == input.rows && m.cols
                == old(self).hyperparameters.shape@[old(self).hyperparameters.layers - 1]
                && m.values@ == final(self).parameters.a@[old(self).hyperparameters.layers
                - 1].values@,
    {
        if input.cols != self.hyperparameters.shape[0] {
            return Err(MatrixError::DimensionMismatch);
        }
        self.parameters.a.set(0, input.duplicate());
        let ly: usize = self.hyperparameters.layers;
        let mut layer: usize = 0;
        while layer < ly - 1
            invariant
                layer <= ly - 1,
                self.wf(),
                self.hyperparameters == old(self).hyperparameters,
                self.parameters.weights == old(self).parameters.weights,
                self.parameters.biases == old(self).parameters.biases,
                self.gradients == old(self).gradients,
                self.parameters.a@[0].values@ == input.values@,
                self.parameters.a@[0].rows == input.rows,
                self.parameters.a@[0].cols == input.cols,
                self.parameters.a@[layer as int].rows == input.rows,
                self.parameters.a@[layer as int].cols == self.hyperparameters.shape@[
                    layer as int
                ],
                forall|l: int| 0 <= l < layer ==> self.forward_layer_ok(input.rows as int, l),
            decreases ly - 1 - layer,
        {
            let zi: Vector2D = match self.parameters.a[layer].dot(
                &self.parameters.weights[layer],
            ) {
                Ok(m) => m,
                Err(_) => unreached(),
            };
            let zb: Vector2D = match zi.row_add(&self.parameters.biases[layer]) {
                Ok(m) => m,
                Err(_) => unreached(),
            };
            let an: Vector2D = sigmoid(&zb);
            let ghost pre: NeuralNetwork = *self;
            self.parameters.z.set(layer, zb);
            self.parameters.a.set(layer + 1, an);
            proof {
                let batch: int = input.rows as int;
                let li: int = layer as int;
                assert forall|l: int| 0 <= l <= li implies self.forward_layer_ok(batch, l) by {
                    if l < li {
                        assert(pre.forward_layer_ok(batch, l));
                        assert(self.parameters.z@[l] == pre.parameters.z@[l]);
                        assert(self.parameters.a@[l] == pre.parameters.a@[l]);
                        assert(self.parameters.a@[l + 1] == pre.parameters.a@[l + 1]);
                    } else {
                        assert(self.parameters.z@[li] == zb);
                        assert(self.parameters.a@[li + 1] == an);
                        assert(self.parameters.a@[li] == pre.parameters.a@[li]);
                    }
                }
            }
            layer += 1;
        }
        proof {
            assert forall|t: int| 0 <= t < ly implies self.slot_shaped(
                input.rows as int,
                t,
            ) by {
                if t > 0 {
                    assert(self.forward_layer_ok(input.rows as int, t - 1));
                }
                if t < ly - 1 {
                    assert(self.forward_layer_ok(input.rows as int, t));
                }
            }
        }
        Ok(self.parameters.a[ly - 1].duplicate())
    }
}


/// Cache shapes depend only on the parameters and hyperparameters, so they
/// carry over to any network state sharing those.
proof fn lemma_caches_shaped_same_params(n1: NeuralNetwork, n2: NeuralNetwork, batch: int)
    requires
        n1.caches_shaped(batch),
        n2.parameters == n1.parameters,
        n2.hyperparameters == n1.hyperparameters,
    ensures
        n2.caches_shaped(batch),
{
    assert forall|t: int|
        0 <= t < n2.hyperparameters.layers as int implies n2.slot_shaped(batch, t) by {
        assert(n1.slot_shaped(batch, t));
    }
}

impl NeuralNetwork {
    /// One cache slot has the shapes of a forward pass over the given batch.
    pub open spec fn slot_shaped(self, batch: int, t: int) -> bool {
        let s = self.hyperparameters.shape@;
        let ly = self.hyperparameters.layers as int;
        &&& self.parameters.a@[t].rows == batch
        &&& self.parameters.a@[t].cols == s[t]
        &&& (t < ly - 1 ==> self.parameters.z@[t].rows == batch && self.parameters.z@[t].cols
            == s[t + 1])
    }

    /// Checks at run time that every cache slot has the shape of a forward
    /// pass over the given batch size.
    #[verifier::loop_isolation(false)]
    fn caches_shaped_check(&self, batch: usize) -> (ok: bool)
        requires
            self.wf(),
        ensures
            ok == self.caches_shaped(batch as int),
    {
        let ly: usize = self.hyperparameters.layers;
        let mut ok: bool = true;
        let mut l: usize = 0;
        while l < ly
            invariant
                l <= ly,
                ok == self.shaped_upto(batch as int, l as int),
            decreases ly - l,
        {
            let mut this_ok: bool = self.parameters.a[l].rows == batch
                && self.parameters.a[l].cols == self.hyperparameters.shape[l];
            if l < ly - 1 {
                this_ok = this_ok && self.parameters.z[l].rows == batch
                    && self.parameters.z[l].cols == self.hyperparameters.shape[l + 1];
            }
            proof {
                let bi: int = batch as int;
                let li: int = l as int;
                assert(this_ok == self.slot_shaped(bi, li));
                if self.shaped_upto(bi, li) && self.slot_shaped(bi, li) {
                    assert forall|t: int| 0 <= t < li + 1 implies self.slot_shaped(bi, t) by {}
                }
                if self.shaped_upto(bi, li + 1) {
                    assert(self.slot_shaped(bi, li));
                    assert forall|t: int| 0 <= t < li implies self.slot_shaped(bi, t) by {}
                }
            }
            ok = ok && this_ok;
            l += 1;
        }
        ok
    }

    /// One layer of the backward pass, as cached: the pre-activation
    /// gradient is the activation gradient above it times the sigmoid
    /// derivative of the cached pre-activation, elementwise; the activation
    /// gradient is that times the transposed weights; the bias gradient is
    /// its column means over the batch; and the weight gradient is the
    /// transposed cached activation times it, divided by the batch size.
    pub open spec fn backward_layer_ok(self, batch: int, l: int) -> bool {
        let s = self.hyperparameters.shape@;
        let gz = self.gradients.z@[l];
        let ga = self.gradients.a@[l];
        let gw = self.gradients.weights@[l];
        let gb = self.gradients.biases@[l];
        let wl = self.parameters.weights@[l];
        let al = self.parameters.a@[l];
        let zl = self.parameters.z@[l];
        &&& gz.rows == batch
        &&& gz.cols == s[l + 1]
        &&& gz.values@ == mul_vals(
            self.gradients.a@[l + 1].values@,
            sigmoid_derivative_vals(zl.values@),
        )
        &&& ga.rows == batch
        &&& ga.cols == s[l]
        &&& ga.values@ == dot_vals(
            gz.values@,
            transpose_vals(wl.values@, s[l] as int, s[l + 1] as int),
            batch,
            s[l + 1] as int,
            s[l] as int,
        )
        &&& gb.rows == 1
        &&& gb.cols == s[l + 1]
        &&& gb.values@ == mean0_vals(gz.values@, batch, s[l + 1] as int)
        &&& gw.rows == s[l]
        &&& gw.cols == s[l + 1]
        &&& gw.values@ == div_scalar_vals(
            dot_vals(
                transpose_vals(al.values@, batch, s[l] as int),
                gz.values@,
                s[l] as int,
                batch,
                s[l + 1] as int,
            ),
            u64_to_bits(batch as u64),
        )
    }

    /// The gradients describe one full backward pass against the given
    /// labels: the topmost activation gradient is the loss derivative of the
    /// cached prediction, and every layer below follows by the chain rule.
    pub open spec fn gradients_follow(self, y: Vector2D) -> bool {
        let s = self.hyperparameters.shape@;
        let ly = self.hyperparameters.layers as int;
        let batch = self.parameters.a@[0].rows as int;
        &&& self.gradients.a@[ly - 1].rows == batch
        &&& self.gradients.a@[ly - 1].cols == s[ly - 1]
        &&& self.gradients.a@[ly - 1].values@ == ce_derivative_vals(
            self.parameters.a@[ly - 1].values@,
            y.values@,
        )
        &&& forall|l: int| 0 <= l < ly - 1 ==> self.backward_layer_ok(batch, l)
    }

    /// Runs the backward pass against the labels, filling every gradient
    /// slot by the chain rule from the cached forward pass. Fails with a
    /// dimension mismatch, touching nothing, exactly when the caches do not
    /// carry the shapes of a forward pass or the labels do not match the
    /// prediction's shape; a forward pass on the same batch first makes it
    /// succeed. The parameters and hyperparameters are never touched.
    #[verifier::loop_isolation(false)]
    pub fn backward(&mut self, true_output: &Vector2D) -> (r: Result<(), MatrixError>)
        requires
            old(self).wf(),
            true_output.wf(),
        ensures
            final(self).wf(),
            final(self).hyperparameters == old(self).hyperparameters,
            final(self).parameters == old(self).parameters,
            r is Ok <==> old(self).caches_shaped(old(self).parameters.a@[0].rows as int)
                && true_output.rows == old(self).parameters.a@[0].rows && true_output.cols
                == old(self).hyperparameters.shape@[old(self).hyperparameters.layers - 1],
            r is Err ==> *final(self) == *old(self),
            r matches Err(e) ==> e == MatrixError::DimensionMismatch,
            r is Ok ==> final(self).gradients_follow(*true_output),
    {
        let ly: usize = self.hyperparameters.layers;
        let batch: usize = self.parameters.a[0].rows;
        let shaped: bool = self.caches_shaped_check(batch);
        if !(shaped && true_output.rows == batch && true_output.cols
            == self.hyperparameters.shape[ly - 1]) {
            return Err(MatrixError::DimensionMismatch);
        }
        let hm: Vector2D = self.parameters.h();
        proof {
            assert(self.slot_shaped(batch as int, ly - 1));
        }
        let d: Vector2D = match cross_entropy_derivative(&hm, true_output) {
            Ok(m) => m,
            Err(_) => unreached(),
        };
        let ghost before_top: NeuralNetwork = *self;
        self.gradients.a.set(ly - 1, d);
        proof {
            lemma_caches_shaped_same_params(before_top, *self, batch as int);
        }
        let mut layer: usize = ly - 1;
        while layer > 0
            invariant
                layer <= ly - 1,
                self.wf(),
                self.hyperparameters == old(self).hyperparameters,
                self.parameters == old(self).parameters,
                self.caches_shaped(batch as int),
                self.gradients.a@[ly - 1].rows == batch,
                self.gradients.a@[ly - 1].cols == self.hyperparameters.shape@[ly - 1],
                self.gradients.a@[ly - 1].values@ == ce_derivative_vals(
                    self.parameters.a@[ly - 1].values@,
                    true_output.values@,
                ),
                self.gradients.a@[layer as int].rows == batch,
                self.gradients.a@[layer as int].cols == self.hyperparameters.shape@[
                    layer as int
                ],
                forall|t: int|
                    layer <= t < ly - 1 ==> self.backward_layer_ok(batch as int, t),
            decreases layer,
        {
            let l: usize = layer - 1;
            proof {
                assert(self.slot_shaped(batch as int, l as int));
                assert(self.slot_shaped(batch as int, l + 1));
            }
            let sd: Vector2D = sigmoid_derivative(&self.parameters.z[l]);
            let dz: Vector2D = match self.gradients.a[l + 1].mul(&sd) {
                Ok(m) => m,
                Err(_) => unreached(),
            };
            let wt: Vector2D = self.parameters.weights[l].transpose();
            let da: Vector2D = match dz.dot(&wt) {
                Ok(m) => m,
                Err(_) => unreached(),
            };
            let db: Vector2D = match dz.mean(0) {
                Ok(m) => m,
                Err(_) => unreached(),
            };
            let at: Vector2D = self.parameters.a[l].transpose();
            let dwu: Vector2D = match at.dot(&dz) {
                Ok(m) => m,
                Err(_) => unreached(),
            };
            let dw: Vector2D = dwu.div_scalar(real_of_u64(batch as u64));
            let ghost pre: NeuralNetwork = *self;
            self.gradients.z.set(l, dz);
            self.gradients.a.set(l, da);
            self.gradients.biases.set(l, db);
            self.gradients.weights.set(l, dw);
            proof {
                lemma_caches_shaped_same_params(pre, *self, batch as int);
                let bi: int = batch as int;
                let li: int = l as int;
                assert forall|t: int| li <= t < ly - 1 implies self.backward_layer_ok(bi, t)
                    by {
                    if t > li {
                        assert(pre.backward_layer_ok(bi, t));
                        assert(self.gradients.z@[t] == pre.gradients.z@[t]);
                        assert(self.gradients.a@[t] == pre.gradients.a@[t]);
                        assert(self.gradients.a@[t + 1] == pre.gradients.a@[t + 1]);
                        assert(self.gradients.weights@[t] == pre.gradients.weights@[t]);
                        assert(self.gradients.biases@[t] == pre.gradients.biases@[t]);
                    } else {
                        assert(self.gradients.z@[li] == dz);
                        assert(self.gradients.a@[li] == da);
                        assert(self.gradients.a@[li + 1] == pre.gradients.a@[li + 1]);
                        assert(self.gradients.biases@[li] == db);
                        assert(self.gradients.weights@[li] == dw);
                    }
                }
            }
            layer -= 1;
        }
        Ok(())
    }
}


impl NeuralNetwork {
    /// One gradient slot matches its parameter matrices in shape.
    pub open spec fn grad_slot_shaped(self, l: int) -> bool {
        &&& self.gradients.weights@[l].rows == self.parameters.weights@[l].rows
        &&& self.gradients.weights@[l].cols == self.parameters.weights@[l].cols
        &&& self.gradients.biases@[l].rows == self.parameters.biases@[l].rows
        &&& self.gradients.biases@[l].cols == self.parameters.biases@[l].cols
    }

    /// The first `upto` gradient slots match their parameters in shape.
    pub open spec fn grads_shaped_upto(self, upto: int) -> bool {
        forall|l: int| 0 <= l < upto ==> self.grad_slot_shaped(l)
    }

    /// Every weight and bias gradient matches its parameter matrix in
    /// shape; this is what the update checks before it applies them.
    pub open spec fn grads_shaped(self) -> bool {
        self.grads_shaped_upto(self.hyperparameters.layers - 1)
    }

    /// Checks at run time that every gradient slot matches its parameters.
    #[verifier::loop_isolation(false)]
    fn grads_shaped_check(&self) -> (ok: bool)
        requires
            self.wf(),
        ensures
            ok == self.grads_shaped(),
    {
        let ly: usize = self.hyperparameters.layers;
        let mut ok: bool = true;
        let mut l: usize = 0;
        while l < ly - 1
            invariant
                l <= ly - 1,
                ok == self.grads_shaped_upto(l as int),
            decreases ly - 1 - l,
        {
            let this_ok: bool = self.gradients.weights[l].rows == self.parameters.weights[l].rows
                && self.gradients.weights[l].cols == self.parameters.weights[l].cols
                && self.gradients.biases[l].rows == self.parameters.biases[l].rows
                && self.gradients.biases[l].cols == self.parameters.biases[l].cols;
            proof {
                let li: int = l as int;
                assert(this_ok == self.grad_slot_shaped(li));
                if self.grads_shaped_upto(li) && self.grad_slot_shaped(li) {
                    assert forall|t: int| 0 <= t < li + 1 implies self.grad_slot_shaped(t) by {}
                }
                if self.grads_shaped_upto(li + 1) {
                    assert(self.grad_slot_shaped(li));
                    assert forall|t: int| 0 <= t < li implies self.grad_slot_shaped(t) by {}
                }
            }
            ok = ok && this_ok;
            l += 1;
        }
        ok
    }

    /// Applies the most recent gradients in place: every weight matrix loses
    /// the learning rate times its gradient, and every bias row likewise.
    /// Fails with a shape mismatch, touching nothing, exactly when some
    /// gradient does not match its parameter matrix in shape; a completed
    /// backward pass first makes it succeed. The caches, gradients and
    /// hyperparameters are never touched.
    #[verifier::loop_isolation(false)]
    pub fn update(&mut self) -> (r: Result<(), MatrixError>)
        requires
            old(self).wf(),
        ensures
            final(self).wf(),
            final(self).hyperparameters == old(self).hyperparameters,
            final(self).gradients == old(self).gradients,
            final(self).parameters.z == old(self).parameters.z,
            final(self).parameters.a == old(self).parameters.a,
            r is Ok <==> old(self).grads_shaped(),
            r is Err ==> *final(self) == *old(self),
            r matches Err(e) ==> e == MatrixError::ShapeMismatch,
            r is Ok ==> forall|l: int|
                0 <= l < old(self).hyperparameters.layers - 1 ==> (#[trigger] final(self).parameters.weights@[l]).rows == old(self).parameters.weights@[l].rows
                    && final(self).parameters.weights@[l].cols
                    == old(self).parameters.weights@[l].cols
                    && final(self).parameters.weights@[l].values@ == sub_vals(
                    old(self).parameters.weights@[l].values@,
                    mul_scalar_vals(
                        old(self).gradients.weights@[l].values@,
                        old(self).hyperparameters.learning_rate,
                    ),
                ) && final(self).parameters.biases@[l].rows
                    == old(self).parameters.biases@[l].rows
                    && final(self).parameters.biases@[l].cols
                    == old(self).parameters.biases@[l].cols
                    && final(self).parameters.biases@[l].values@ == sub_vals(
                    old(self).parameters.biases@[l].values@,
                    mul_scalar_vals(
                        old(self).gradients.biases@[l].values@,
                        old(self).hyperparameters.learning_rate,
                    ),
                ),
    {
        if !self.grads_shaped_check() {
            return Err(MatrixError::ShapeMismatch);
        }
        let ly: usize = self.hyperparameters.layers;
        let lr: u64 = self.hyperparameters.learning_rate;
        let mut l: usize = 0;
        while l < ly - 1
            invariant
                l <= ly - 1,
                self.wf(),
                self.hyperparameters == old(self).hyperparameters,
                self.gradients == old(self).gradients,
                self.parameters.z == old(self).parameters.z,
                self.parameters.a == old(self).parameters.a,
                forall|t: int|
                    l <= t < ly - 1 ==> self.parameters.weights@[t]
                        == old(self).parameters.weights@[t] && self.parameters.biases@[t]
                        == old(self).parameters.biases@[t],
                forall|t: int|
                    0 <= t < l ==> (#[trigger] self.parameters.weights@[t]).rows == old(self).parameters.weights@[t].rows && self.parameters.weights@[t].cols == old(self).parameters.weights@[t].cols && self.parameters.weights@[t].values@
                        == sub_vals(
                        old(self).parameters.weights@[t].values@,
                        mul_scalar_vals(old(self).gradients.weights@[t].values@, lr),
                    ) && self.parameters.biases@[t].rows == old(self).parameters.biases@[t].rows && self.parameters.biases@[t].cols == old(self).parameters.biases@[t].cols && self.parameters.biases@[t].values@
                        == sub_vals(
                        old(self).parameters.biases@[t].values@,
                        mul_scalar_vals(old(self).gradients.biases@[t].values@, lr),
                    ),
            decreases ly - 1 - l,
        {
            proof {
                assert(old(self).grad_slot_shaped(l as int));
            }
            let gw: Vector2D = self.gradients.weights[l].mul_scalar(lr);
            let nw: Vector2D = match self.parameters.weights[l].sub(&gw) {
                Ok(m) => m,
                Err(_) => unreached(),
            };
            self.parameters.weights.set(l, nw);
            let gb: Vector2D = self.gradients.biases[l].mul_scalar(lr);
            let nb: Vector2D = match self.parameters.biases[l].sub(&gb) {
                Ok(m) => m,
                Err(_) => unreached(),
            };
            self.parameters.biases.set(l, nb);
            l += 1;
        }
        Ok(())
    }

    /// Runs full-batch gradient descent: each epoch is one forward pass,
    /// one loss evaluation, one backward pass and one update, and the
    /// returned vector holds the loss of every epoch in order. With at
    /// least one epoch asked for, it succeeds exactly when the input width
    /// is shape[0] and the labels are a single column matching the batch,
    /// against a single-output network; with zero epochs nothing at all
    /// happens. A failure is reported as the step's own error.
    #[verifier::loop_isolation(false)]
    pub fn training(&mut self, input: &Vector2D, true_output: &Vector2D, epochs: usize) -> (r:
        Result<Vec<u64>, MatrixError>)
        requires
            old(self).wf(),
            input.wf(),
            true_output.wf(),
        ensures
            final(self).wf(),
            final(self).hyperparameters == old(self).hyperparameters,
            r matches Ok(losses) ==> losses@.len() == epochs && forall|e: int|
                0 <= e < epochs ==> losses@[e] == training_loss_at(
                    *old(self),
                    *input,
                    *true_output,
                    e as nat,
                ),
            r is Ok ==> weights_view(*final(self)) == training_params_at(
                *old(self),
                *input,
                *true_output,
                epochs as nat,
            ).0 && biases_view(*final(self)) == training_params_at(
                *old(self),
                *input,
                *true_output,
                epochs as nat,
            ).1,
            epochs == 0 ==> r is Ok && *final(self) == *old(self),
            epochs >= 1 ==> (r is Ok <==> input.cols == old(self).hyperparameters.shape@[0]
                && true_output.rows == input.rows && true_output.cols
                == old(self).hyperparameters.shape@[old(self).hyperparameters.layers - 1]
                && old(self).hyperparameters.shape@[old(self).hyperparameters.layers - 1]
                == 1),
    {
        let ly: usize = self.hyperparameters.layers;
        let mut losses: Vec<u64> = Vec::new();
        let mut epoch: usize = 0;
        while epoch < epochs
            invariant
                epoch <= epochs,
                losses@.len() == epoch,
                self.wf(),
                self.hyperparameters == old(self).hyperparameters,
                epoch == 0 ==> *self == *old(self),
                weights_view(*self) == training_params_at(
                    *old(self),
                    *input,
                    *true_output,
                    epoch as nat,
                ).0,
                biases_view(*self) == training_params_at(
                    *old(self),
                    *input,
                    *true_output,
                    epoch as nat,
                ).1,
                forall|e: int|
                    0 <= e < epoch ==> losses@[e] == training_loss_at(
                        *old(self),
                        *input,
                        *true_output,
                        e as nat,
                    ),
                epoch > 0 ==> input.cols == old(self).hyperparameters.shape@[0]
                    && true_output.rows == input.rows && true_output.cols
                    == old(self).hyperparameters.shape@[ly - 1]
                    && old(self).hyperparameters.shape@[ly - 1] == 1,
            decreases epochs - epoch,
        {
            let ghost net0: NeuralNetwork = *self;
            let h: Vector2D = match self.forward(input) {
                Ok(m) => m,
                Err(e) => {
                    return Err(e);
                },
            };
            let ghost net1: NeuralNetwork = *self;
            let ghost cur: (Seq<Seq<u64>>, Seq<Seq<u64>>) = training_params_at(
                *old(self),
                *input,
                *true_output,
                epoch as nat,
            );
            proof {
                lemma_views_same(net0, net1);
                lemma_forward_acts(net1, *input, ly - 1);
                assert(h.values@ == acts_at(
                    net1.hyperparameters.shape@,
                    cur.0,
                    cur.1,
                    input.values@,
                    input.rows as int,
                    ly - 1,
                ));
            }
            let lossm: Vector2D = match cross_entropy_loss(&h, true_output) {
                Ok(m) => m,
                Err(e) => {
                    return Err(e);
                },
            };
            proof {
                assert(lossm.values@.len() == 1);
                assert(lossm.values@[0] == training_loss_at(
                    *old(self),
                    *input,
                    *true_output,
                    epoch as nat,
                ));
            }
            losses.push(lossm.values[0]);
            match self.backward(true_output) {
                Ok(u) => u,
                Err(e) => {
                    return Err(e);
                },
            };
            let ghost net2: NeuralNetwork = *self;
            proof {
                lemma_views_same(net1, net2);
                lemma_caches_follow_same_params(net1, net2, *input);
                assert forall|l: int| 0 <= l < ly - 1 implies self.grad_slot_shaped(l) by {
                    assert(self.backward_layer_ok(
                        self.parameters.a@[0].rows as int,
                        l,
                    ));
                }
                assert forall|l: int|
                    0 <= l < ly - 1 implies net2.gradients.weights@[l].values@ == grad_w_at(
                    net2.hyperparameters.shape@,
                    cur.0,
                    cur.1,
                    input.values@,
                    true_output.values@,
                    input.rows as int,
                    l,
                ) && net2.gradients.biases@[l].values@ == grad_b_at(
                    net2.hyperparameters.shape@,
                    cur.0,
                    cur.1,
                    input.values@,
                    true_output.values@,
                    input.rows as int,
                    l,
                ) by {
                    assert(net2.backward_layer_ok(input.rows as int, l));
                    lemma_backward_gz(net2, *input, *true_output, l);
                    lemma_forward_acts(net2, *input, l);
                }
            }
            match self.update() {
                Ok(u) => u,
                Err(e) => {
                    return Err(e);
                },
            };
            proof {
                let ghost nxt: (Seq<Seq<u64>>, Seq<Seq<u64>>) = training_params_at(
                    *old(self),
                    *input,
                    *true_output,
                    (epoch + 1) as nat,
                );
                assert(weights_view(*self) =~~= nxt.0);
                assert forall|l: int| 0 <= l < ly - 1 implies biases_view(*self)[l]
                    == nxt.1[l] by {
                    assert(self.parameters.weights@[l].values@ == sub_vals(
                        net2.parameters.weights@[l].values@,
                        mul_scalar_vals(
                            net2.gradients.weights@[l].values@,
                            net2.hyperparameters.learning_rate,
                        ),
                    ));
                }
                assert(biases_view(*self) =~~= nxt.1);
            }
            epoch += 1;
        }
        Ok(losses)
    }
}


/// The activations of a forward pass, written as a recurrence over plain
/// value sequences: layer 0 is the input, and each following layer is the
/// sigmoid of the one below it times that transition's weights with the
/// bias row broadcast on. `s` is the shape, `ws` and `bs` the per-transition
/// weight and bias values, `x` the input values, `m` the batch size.
pub open spec fn acts_at(
    s: Seq<usize>,
    ws: Seq<Seq<u64>>,
    bs: Seq<Seq<u64>>,
    x: Seq<u64>,
    m: int,
    l: int,
) -> Seq<u64>
    decreases l,
{
    if l <= 0 {
        x
    } else {
        sigmoid_vals(
            row_add_vals(
                dot_vals(
                    acts_at(s, ws, bs, x, m, l - 1),
                    ws[l - 1],
                    m,
                    s[l - 1] as int,
                    s[l] as int,
                ),
                bs[l - 1],
                s[l] as int,
            ),
        )
    }
}

/// The pre-activation of one layer of the same forward pass.
pub open spec fn preact_at(
    s: Seq<usize>,
    ws: Seq<Seq<u64>>,
    bs: Seq<Seq<u64>>,
    x: Seq<u64>,
    m: int,
    l: int,
) -> Seq<u64> {
    row_add_vals(
        dot_vals(acts_at(s, ws, bs, x, m, l), ws[l], m, s[l] as int, s[l + 1] as int),
        bs[l],
        s[l + 1] as int,
    )
}

/// The pre-activation gradient of one layer of the backward pass, as a
/// recurrence downward from the loss derivative at the prediction.
pub open spec fn grad_z_at(
    s: Seq<usize>,
    ws: Seq<Seq<u64>>,
    bs: Seq<Seq<u64>>,
    x: Seq<u64>,
    y: Seq<u64>,
    m: int,
    l: int,
) -> Seq<u64>
    decreases s.len() - 2 - l,
{
    let ga_next: Seq<u64> = if l + 1 >= s.len() - 1 {
        ce_derivative_vals(acts_at(s, ws, bs, x, m, s.len() - 1), y)
    } else {
        dot_vals(
            grad_z_at(s, ws, bs, x, y, m, l + 1),
            transpose_vals(ws[l + 1], s[l + 1] as int, s[l + 2] as int),
            m,
            s[l + 2] as int,
            s[l + 1] as int,
        )
    };
    mul_vals(ga_next, sigmoid_derivative_vals(preact_at(s, ws, bs, x, m, l)))
}

/// The weight gradient of one layer of the backward pass.
pub open spec fn grad_w_at(
    s: Seq<usize>,
    ws: Seq<Seq<u64>>,
    bs: Seq<Seq<u64>>,
    x: Seq<u64>,
    y: Seq<u64>,
    m: int,
    l: int,
) -> Seq<u64> {
    div_scalar_vals(
        dot_vals(
            transpose_vals(acts_at(s, ws, bs, x, m, l), m, s[l] as int),
            grad_z_at(s, ws, bs, x, y, m, l),
            s[l] as int,
            m,
            s[l + 1] as int,
        ),
        u64_to_bits(m as u64),
    )
}

/// The bias gradient of one layer of the backward pass.
pub open spec fn grad_b_at(
    s: Seq<usize>,
    ws: Seq<Seq<u64>>,
    bs: Seq<Seq<u64>>,
    x: Seq<u64>,
    y: Seq<u64>,
    m: int,
    l: int,
) -> Seq<u64> {
    mean0_vals(grad_z_at(s, ws, bs, x, y, m, l), m, s[l + 1] as int)
}

/// One gradient-descent step on every weight matrix.
pub open spec fn step_weights(
    s: Seq<usize>,
    ws: Seq<Seq<u64>>,
    bs: Seq<Seq<u64>>,
    x: Seq<u64>,
    y: Seq<u64>,
    m: int,
    lr: u64,
) -> Seq<Seq<u64>> {
    Seq::new(
        ws.len(),
        |l: int| sub_vals(ws[l], mul_scalar_vals(grad_w_at(s, ws, bs, x, y, m, l), lr)),
    )
}

/// One gradient-descent step on every bias row.
pub open spec fn step_biases(
    s: Seq<usize>,
    ws: Seq<Seq<u64>>,
    bs: Seq<Seq<u64>>,
    x: Seq<u64>,
    y: Seq<u64>,
    m: int,
    lr: u64,
) -> Seq<Seq<u64>> {
    Seq::new(
        bs.len(),
        |l: int| sub_vals(bs[l], mul_scalar_vals(grad_b_at(s, ws, bs, x, y, m, l), lr)),
    )
}

/// The weights and biases after e full epochs of full-batch gradient
/// descent from the given starting parameters.
pub open spec fn params_at(
    s: Seq<usize>,
    ws0: Seq<Seq<u64>>,
    bs0: Seq<Seq<u64>>,
    x: Seq<u64>,
    y: Seq<u64>,
    m: int,
    lr: u64,
    e: nat,
) -> (Seq<Seq<u64>>, Seq<Seq<u64>>)
    decreases e,
{
    if e == 0 {
        (ws0, bs0)
    } else {
        let prev: (Seq<Seq<u64>>, Seq<Seq<u64>>) = params_at(
            s,
            ws0,
            bs0,
            x,
            y,
            m,
            lr,
            (e - 1) as nat,
        );
        (step_weights(s, prev.0, prev.1, x, y, m, lr), step_biases(s, prev.0, prev.1, x, y, m, lr))
    }
}

/// The cross-entropy loss that one epoch reports on the given parameters.
pub open spec fn epoch_loss(
    s: Seq<usize>,
    ws: Seq<Seq<u64>>,
    bs: Seq<Seq<u64>>,
    x: Seq<u64>,
    y: Seq<u64>,
    m: int,
) -> u64 {
    ce_loss_vals(acts_at(s, ws, bs, x, m, s.len() - 1), y, m)[0]
}

/// The per-transition weight values a network holds.
pub open spec fn weights_view(n: NeuralNetwork) -> Seq<Seq<u64>> {
    Seq::new((n.hyperparameters.layers - 1) as nat, |l: int| n.parameters.weights@[l].values@)
}

/// The per-transition bias values a network holds.
pub open spec fn biases_view(n: NeuralNetwork) -> Seq<Seq<u64>> {
    Seq::new((n.hyperparameters.layers - 1) as nat, |l: int| n.parameters.biases@[l].values@)
}



/// The parameters the training loop holds when epoch e begins, as iterates
/// of the gradient-descent step from the network's starting parameters.
pub open spec fn training_params_at(n: NeuralNetwork, input: Vector2D, y: Vector2D, e: nat) -> (
    Seq<Seq<u64>>,
    Seq<Seq<u64>>,
) {
    params_at(
        n.hyperparameters.shape@,
        weights_view(n),
        biases_view(n),
        input.values@,
        y.values@,
        input.rows as int,
        n.hyperparameters.learning_rate,
        e,
    )
}

/// The loss that epoch e of training reports: the cross-entropy loss of the
/// forward pass on that epoch's parameters.
pub open spec fn training_loss_at(n: NeuralNetwork, input: Vector2D, y: Vector2D, e: nat) -> u64 {
    let p = (training_params_at(n, input, y, e));
    epoch_loss(
        n.hyperparameters.shape@,
        p.0,
        p.1,
        input.values@,
        y.values@,
        input.rows as int,
    )
}

/// The parameter views depend only on the parameters and hyperparameters,
/// so they carry over to any network state sharing those.
proof fn lemma_views_same(n1: NeuralNetwork, n2: NeuralNetwork)
    requires
        n2.parameters.weights == n1.parameters.weights,
        n2.parameters.biases == n1.parameters.biases,
        n2.hyperparameters == n1.hyperparameters,
    ensures
        weights_view(n2) == weights_view(n1),
        biases_view(n2) == biases_view(n1),
{
    assert(weights_view(n2) =~~= weights_view(n1));
    assert(biases_view(n2) =~~= biases_view(n1));
}

/// A cached forward pass depends only on the parameters and
/// hyperparameters, so it carries over to any network state sharing those.
proof fn lemma_caches_follow_same_params(n1: NeuralNetwork, n2: NeuralNetwork, input: Vector2D)
    requires
        n1.caches_follow(input),
        n2.parameters == n1.parameters,
        n2.hyperparameters == n1.hyperparameters,
    ensures
        n2.caches_follow(input),
{
    assert forall|l: int|
        0 <= l < n2.hyperparameters.layers as int - 1 implies n2.forward_layer_ok(
        input.rows as int,
        l,
    ) by {
        assert(n1.forward_layer_ok(input.rows as int, l));
    }
}

/// After a forward pass, each cached activation equals the `acts_at`
/// recurrence on the network's own parameter views.
proof fn lemma_forward_acts(n: NeuralNetwork, input: Vector2D, l: int)
    requires
        n.wf(),
        n.caches_follow(input),
        0 <= l <= n.hyperparameters.layers - 1,
    ensures
        n.parameters.a@[l].values@ == acts_at(
            n.hyperparameters.shape@,
            weights_view(n),
            biases_view(n),
            input.values@,
            input.rows as int,
            l,
        ),
    decreases l,
{
    if l > 0 {
        lemma_forward_acts(n, input, l - 1);
        assert(n.forward_layer_ok(input.rows as int, l - 1));
        assert(weights_view(n)[l - 1] == n.parameters.weights@[l - 1].values@);
        assert(biases_view(n)[l - 1] == n.parameters.biases@[l - 1].values@);
    }
}

/// After a backward pass, each cached pre-activation gradient equals the
/// `grad_z_at` recurrence on the network's own parameter views.
proof fn lemma_backward_gz(n: NeuralNetwork, input: Vector2D, y: Vector2D, l: int)
    requires
        n.wf(),
        n.caches_follow(input),
        n.gradients_follow(y),
        0 <= l <= n.hyperparameters.layers - 2,
    ensures
        n.gradients.z@[l].values@ == grad_z_at(
            n.hyperparameters.shape@,
            weights_view(n),
            biases_view(n),
            input.values@,
            y.values@,
            input.rows as int,
            l,
        ),
    decreases n.hyperparameters.layers - l,
{
    let ly: int = n.hyperparameters.layers as int;
    let batch: int = input.rows as int;
    assert(n.backward_layer_ok(batch, l));
    lemma_forward_acts(n, input, l);
    assert(n.forward_layer_ok(batch, l));
    if l == ly - 2 {
        lemma_forward_acts(n, input, ly - 1);
    } else {
        lemma_backward_gz(n, input, y, l + 1);
        assert(n.backward_layer_ok(batch, l + 1));
        assert(weights_view(n)[l + 1] == n.parameters.weights@[l + 1].values@);
    }
}

} // verus!
