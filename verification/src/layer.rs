use vstd::prelude::*;

use crate::activators::Activation;
use crate::network::Error;
use crate::num::{Num, Sampler};

verus! {

/// One fully connected layer: a weight matrix with one row per node, a single
/// scalar bias shared by all nodes of the layer (a deliberate simplification —
/// not one bias per node), and the activator every node applies.
pub struct Layer<T> {
    pub num_nodes: usize,
    pub bias: T,
    pub weights: Vec<Vec<T>>,
    pub activator: Activation,
}

/// A weight matrix fits a `(num_inputs -> num_nodes)` shape: one row per
/// node, every row as long as the input width.
pub open spec fn seed_shape_ok<T>(w: Seq<Vec<T>>, num_nodes: nat, num_inputs: nat) -> bool {
    &&& w.len() == num_nodes
    &&& forall|i: int| 0 <= i < w.len() ==> (#[trigger] w[i])@.len() == num_inputs
}

/// The stored matrix `a` holds exactly the rows `b`, entry for entry.
pub open spec fn matrix_eq<T>(a: Seq<Vec<T>>, b: Seq<Seq<T>>) -> bool {
    &&& a.len() == b.len()
    &&& forall|i: int| 0 <= i < a.len() ==> (#[trigger] a[i])@ == b[i]
}

/// Two layers hold the same weight values, entry for entry.
pub open spec fn same_weights<T>(x: Layer<T>, y: Layer<T>) -> bool {
    &&& x.weights@.len() == y.weights@.len()
    &&& forall|i: int| 0 <= i < x.weights@.len() ==> (#[trigger] x.weights@[i])@ == y.weights@[i]@
}

/// Two layers agree on everything the training step never touches: both
/// widths, the activator, and the bias (the bias is not updated by training).
pub open spec fn same_frame<T>(a: Layer<T>, b: Layer<T>) -> bool {
    &&& a.out_width() == b.out_width()
    &&& a.in_width() == b.in_width()
    &&& a.activator == b.activator
    &&& a.bias == b.bias
}

/// The weighted sum of the first `k` inputs against the first `k` entries of
/// one weight row, folded left exactly as the forward pass accumulates it:
/// starting from zero, adding `inputs[j] * row[j]` for `j` ascending.
pub open spec fn dot_prefix_spec<T: Num>(row: Seq<T>, inputs: Seq<T>, k: int) -> T
    decreases k,
{
    if k <= 0 {
        T::zero_spec()
    } else {
        dot_prefix_spec(row, inputs, k - 1).add_spec(inputs[k - 1].mul_spec(row[k - 1]))
    }
}

/// What node `i` of a layer outputs on `inputs`: the activator applied to
/// the full weighted sum of the inputs against row `i`, plus the layer bias.
pub open spec fn node_output_spec<T: Num>(layer: Layer<T>, inputs: Seq<T>, i: int) -> T {
    layer.activator.activate_spec(
        dot_prefix_spec(layer.weights@[i]@, inputs, inputs.len() as int).add_spec(layer.bias),
    )
}

/// The full output vector of one layer on `inputs`: one node output per row.
pub open spec fn layer_output_spec<T: Num>(layer: Layer<T>, inputs: Seq<T>) -> Seq<T> {
    Seq::new(layer.out_width(), |i: int| node_output_spec(layer, inputs, i))
}

/// The width-scaled sampling bound for a `(n_in -> n_out)` matrix:
/// `sqrt(2 / (n_in + n_out))` in the scalar representation, with the two
/// computed as `1 + 1`.
pub open spec fn xavier_bound_spec<T: Num>(n_in: usize, n_out: usize) -> T {
    T::one_spec().add_spec(T::one_spec()).div_spec(
        T::from_usize_spec(n_in).add_spec(T::from_usize_spec(n_out)),
    ).sqrt_spec()
}

/// The row of `n` samples drawn from state `s` with bounds `[low, high)`,
/// and the sampler state left behind.
pub open spec fn draw_row_spec<T: Num, S: Sampler<T>>(s: S, low: T, high: T, n: nat) -> (Seq<
    T,
>, S)
    decreases n,
{
    if n == 0 {
        (Seq::<T>::empty(), s)
    } else {
        let prev = draw_row_spec(s, low, high, (n - 1) as nat);
        let step = prev.1.gen_range_spec(low, high);
        (prev.0.push(step.0), step.1)
    }
}

/// The `rows` x `cols` matrix of samples drawn from state `s` with bounds
/// `[low, high)`, row by row, and the sampler state left behind.
pub open spec fn draw_matrix_spec<T: Num, S: Sampler<T>>(
    s: S,
    low: T,
    high: T,
    rows: nat,
    cols: nat,
) -> (Seq<Seq<T>>, S)
    decreases rows,
{
    if rows == 0 {
        (Seq::<Seq<T>>::empty(), s)
    } else {
        let prev = draw_matrix_spec(s, low, high, (rows - 1) as nat, cols);
        let row = draw_row_spec(prev.1, low, high, cols);
        (prev.0.push(row.0), row.1)
    }
}

impl<T> Layer<T> {
    /// The number of nodes: the length of every output vector of this layer.
    pub open spec fn out_width(self) -> nat {
        self.num_nodes as nat
    }

    /// The input width: the length every weight row has.
    pub open spec fn in_width(self) -> nat {
        self.weights@[0]@.len()
    }

    /// Shape invariant: at least one node, one weight row per node, and all
    /// rows of equal length. Construction establishes it; training preserves
    /// it (weights are only ever overwritten with a matrix of the same shape).
    pub open spec fn wf(self) -> bool {
        &&& self.out_width() >= 1
        &&& self.weights@.len() == self.out_width()
        &&& forall|i: int| 0 <= i < self.weights@.len()
                ==> (#[trigger] self.weights@[i])@.len() == self.in_width()
    }
}

/// Width-scaled uniform seeding for a weight matrix of shape
/// `(n_in -> n_out)`: every entry is drawn from `[-v, v)` where
/// `v = sqrt(2 / (n_in + n_out))` in the scalar representation. The result
/// is exactly the matrix [`draw_matrix_spec`] names for the sampler's
/// starting state and those bounds.
#[verifier::loop_isolation(false)]
fn xavier_init<T: Num, S: Sampler<T>>(n_in: usize, n_out: usize, rng: &mut S) -> (r: Vec<Vec<T>>)
    ensures
        seed_shape_ok(r@, n_out as nat, n_in as nat),
        ({
            let v = xavier_bound_spec::<T>(n_in, n_out);
            let draw = draw_matrix_spec(*old(rng), v.neg_spec(), v, n_out as nat, n_in as nat);
            matrix_eq(r@, draw.0) && *final(rng) == draw.1
        }),
{
    let two = T::one().plus(&T::one());
    let width_sum = T::from_usize(n_in).plus(&T::from_usize(n_out));
    let variance = two.div_by(&width_sum).sqrt();

    let ghost s0: S = *rng;
    let ghost low: T = variance.neg_spec();

    let mut rows: Vec<Vec<T>> = Vec::new();
    let mut i: usize = 0;
    while i < n_out
        invariant
            i <= n_out,
            rows@.len() == i,
            forall|k: int| 0 <= k < rows@.len() ==> (#[trigger] rows@[k])@.len() == n_in,
            matrix_eq(rows@, draw_matrix_spec(s0, low, variance, i as nat, n_in as nat).0),
            *rng == draw_matrix_spec(s0, low, variance, i as nat, n_in as nat).1,
        decreases n_out - i,
    {
        let ghost s_row: S = *rng;
        let mut row: Vec<T> = Vec::new();
        let mut j: usize = 0;
        while j < n_in
            invariant
                j <= n_in,
                row@.len() == j,
                row@ == draw_row_spec(s_row, low, variance, j as nat).0,
                *rng == draw_row_spec(s_row, low, variance, j as nat).1,
            decreases n_in - j,
        {
            row.push(rng.gen_range(variance.negate(), variance));
            j += 1;
        }
        rows.push(row);
        i += 1;
        proof {
            let prev = draw_matrix_spec(s0, low, variance, (i - 1) as nat, n_in as nat);
            let cur = draw_matrix_spec(s0, low, variance, i as nat, n_in as nat);
            assert(cur.0 == prev.0.push(draw_row_spec(s_row, low, variance, n_in as nat).0));
            assert(matrix_eq(rows@, cur.0));
        }
    }
    rows
}

impl<T: Num> Layer<T> {
    /// Builds one layer of `num_nodes` nodes reading `num_inputs` inputs.
    ///
    /// A supplied seed weight matrix must have exactly one row per node and
    /// every row as long as the input width; otherwise the layer is refused
    /// with [`Error::ShapeMismatch`] — exactly then, and the sampler is not
    /// consulted. When no seed weights are given they are exactly the
    /// width-scaled draw [`draw_matrix_spec`] names, with bounds
    /// `[-v, v)` for `v = ` [`xavier_bound_spec`]; when no seed bias is
    /// given it is exactly the one plain sample drawn next.
    #[verifier::loop_isolation(false)]
    pub fn new<S: Sampler<T>>(
        num_nodes: usize,
        num_inputs: usize,
        seed_bias: Option<T>,
        seed_weights: Option<Vec<Vec<T>>>,
        activator: Activation,
        rng: &mut S,
    ) -> (r: Result<Layer<T>, Error>)
        requires
            num_nodes >= 1,
        ensures
            (r is Err) <==> (seed_weights matches Some(w)
                && !seed_shape_ok(w@, num_nodes as nat, num_inputs as nat)),
            r is Err ==> r == Result::<Layer<T>, Error>::Err(Error::ShapeMismatch)
                && *final(rng) == *old(rng),
            r matches Ok(layer) ==> {
                &&& layer.wf()
                &&& layer.out_width() == num_nodes
                &&& layer.in_width() == num_inputs
                &&& layer.activator == activator
                &&& (seed_weights matches Some(w) ==> layer.weights == w)
                &&& (seed_bias matches Some(b) ==> layer.bias == b)
                &&& ({
                    let v = xavier_bound_spec::<T>(num_inputs, num_nodes);
                    let wdraw = draw_matrix_spec(
                        *old(rng),
                        v.neg_spec(),
                        v,
                        num_nodes as nat,
                        num_inputs as nat,
                    );
                    let after_w = if seed_weights is Some {
                        *old(rng)
                    } else {
                        wdraw.1
                    };
                    &&& (seed_weights is None ==> matrix_eq(layer.weights@, wdraw.0))
                    &&& (seed_bias is None ==> layer.bias == after_w.gen_spec().0)
                    &&& *final(rng) == (if seed_bias is Some {
                        after_w
                    } else {
                        after_w.gen_spec().1
                    })
                })
            },
    {
        let weights: Vec<Vec<T>> = match seed_weights {
            Some(w) => {
                if w.len() != num_nodes {
                    return Err(Error::ShapeMismatch);
                }
                let mut i: usize = 0;
                while i < w.len()
                    invariant
                        i <= w@.len(),
                        forall|k: int| 0 <= k < i ==> (#[trigger] w@[k])@.len() == num_inputs,
                    decreases w@.len() - i,
                {
                    if w[i].len() != num_inputs {
                        proof {
                            assert(w@[i as int]@.len() != num_inputs as nat);
                        }
                        return Err(Error::ShapeMismatch);
                    }
                    i += 1;
                }
                w
            }
            None => xavier_init(num_inputs, num_nodes, rng),
        };
        let bias: T = match seed_bias {
            Some(b) => b,
            None => rng.gen(),
        };
        Ok(Layer { num_nodes: num_nodes, bias: bias, weights: weights, activator: activator })
    }

    /// The forward pass of one layer: for each node, the activation of the
    /// weighted sum of the inputs plus the layer bias — output `i` is
    /// exactly [`node_output_spec`] of row `i`. Pure in the inputs and the
    /// current weights; always one output per node.
    #[verifier::loop_isolation(false)]
    pub fn calculate_output(&self, inputs: &Vec<T>) -> (r: Vec<T>)
        requires
            self.wf(),
            inputs@.len() == self.in_width(),
        ensures
            r@.len() == self.out_width(),
            forall|i: int| 0 <= i < r@.len() ==> r@[i] == node_output_spec(*self, inputs@, i),
    {
        let mut outputs: Vec<T> = Vec::new();
        let mut i: usize = 0;
        while i < self.weights.len()
            invariant
                i <= self.weights@.len(),
                outputs@.len() == i,
                forall|k: int| 0 <= k < i ==> outputs@[k] == node_output_spec(
                    *self,
                    inputs@,
                    k,
                ),
            decreases self.weights@.len() - i,
        {
            let mut sum: T = T::zero();
            let mut j: usize = 0;
            while j < inputs.len()
                invariant
                    j <= inputs@.len(),
                    i < self.weights@.len(),
                    sum == dot_prefix_spec(self.weights@[i as int]@, inputs@, j as int),
                decreases inputs@.len() - j,
            {
                sum = sum.plus(&inputs[j].times(&self.weights[i][j]));
                j += 1;
            }
            outputs.push(self.activator.activate(sum.plus(&self.bias)));
            i += 1;
        }
        outputs
    }

    /// Overwrites the weight matrix with one of the same shape; nothing else
    /// of the layer changes.
    pub(crate) fn replace_weights(&mut self, new_weights: Vec<Vec<T>>)
        requires
            old(self).wf(),
            seed_shape_ok(new_weights@, old(self).out_width(), old(self).in_width()),
        ensures
            final(self).wf(),
            final(self).weights == new_weights,
            same_frame(*final(self), *old(self)),
    {
        self.weights = new_weights;
    }
}

} // verus!
