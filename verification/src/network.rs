use vstd::prelude::*;

use crate::activators::Activation;
use crate::layer::{
    draw_matrix_spec, layer_output_spec, matrix_eq, same_frame, same_weights, xavier_bound_spec,
    Layer,
};
use crate::num::{Num, Sampler};

verus! {

/// The two ways a caller can misuse the trainer. Both are caller errors, not
/// recoverable runtime conditions: nothing is retried internally.
#[derive(Clone, Copy, Debug, PartialEq, Eq, Structural)]
pub enum Error {
    /// Declared and seeded dimensions disagree at blueprint or network
    /// construction time.
    ShapeMismatch,
    /// The input or target vector handed to a training call does not match
    /// the network's declared shape.
    DimensionMismatch,
}

/// A validated, immutable description of one layer to build: node count,
/// optional seed bias, optional seed weight matrix, and the activator
/// (rectified linear when unspecified). Consumed once at network build time.
pub struct LayerBlueprint<T> {
    num_nodes: usize,
    seed_bias: Option<T>,
    seed_weights: Option<Vec<Vec<T>>>,
    activator: Activation,
}

impl<T: Num> LayerBlueprint<T> {
    /// The node count the blueprint declares.
    pub closed spec fn nodes(self) -> nat {
        self.num_nodes as nat
    }

    /// The seed bias, if one was supplied.
    pub closed spec fn seed_bias_spec(self) -> Option<T> {
        self.seed_bias
    }

    /// The seed weight matrix, if one was supplied.
    pub closed spec fn seed_weights_spec(self) -> Option<Seq<Vec<T>>> {
        match self.seed_weights {
            Some(w) => Some(w@),
            None => None,
        }
    }

    /// The activator the built layer will be bound to.
    pub closed spec fn activator_spec(self) -> Activation {
        self.activator
    }

    /// Blueprint validity: at least one node, and a supplied seed matrix has
    /// exactly one row per node. [`LayerBlueprint::new`] refuses anything
    /// else, so every blueprint a caller can hold satisfies this.
    pub open spec fn wf(self) -> bool {
        &&& self.nodes() >= 1
        &&& match self.seed_weights_spec() {
                Some(w) => w.len() == self.nodes(),
                None => true,
            }
    }

    /// Validates and records the description of one layer.
    ///
    /// Refused with [`Error::ShapeMismatch`] exactly when the node count is
    /// zero or a supplied seed weight matrix does not have one row per node.
    /// (Row lengths are checked against the running input width when the
    /// network is assembled, where that width is known.)
    pub fn new(
        num_nodes: usize,
        seed_bias: Option<T>,
        seed_weights: Option<Vec<Vec<T>>>,
        activator: Option<Activation>,
    ) -> (r: Result<LayerBlueprint<T>, Error>)
        ensures
            (r is Err) <==> (num_nodes < 1
                || (seed_weights matches Some(w) && w@.len() != num_nodes)),
            r is Err ==> r == Result::<LayerBlueprint<T>, Error>::Err(Error::ShapeMismatch),
            r matches Ok(bp) ==> {
                &&& bp.wf()
                &&& bp.nodes() == num_nodes
                &&& bp.seed_bias_spec() == seed_bias
                &&& (match seed_weights {
                        Some(w) => bp.seed_weights_spec() == Some(w@),
                        None => bp.seed_weights_spec() is None,
                    })
                &&& bp.activator_spec() == (match activator {
                        Some(a) => a,
                        None => Activation::Relu,
                    })
            },
    {
        if num_nodes < 1 {
            return Err(Error::ShapeMismatch);
        }
        if let Some(w) = &seed_weights {
            if w.len() != num_nodes {
                return Err(Error::ShapeMismatch);
            }
        }
        let activator = match activator {
            Some(a) => a,
            None => Activation::Relu,
        };
        Ok(LayerBlueprint {
            num_nodes: num_nodes,
            seed_bias: seed_bias,
            seed_weights: seed_weights,
            activator: activator,
        })
    }
}

/// The input width the layer at position `i` must read, given the network
/// input width `num_inputs`: the declared width for the first layer, the
/// previous blueprint's node count after that.
pub open spec fn blueprint_width<T: Num>(
    bps: Seq<LayerBlueprint<T>>,
    num_inputs: nat,
    i: int,
) -> nat {
    if i == 0 {
        num_inputs
    } else {
        bps[i - 1].nodes()
    }
}

/// Every supplied seed weight matrix fits the running input width at its
/// position: the shape condition network assembly checks, blueprint by
/// blueprint, threading each node count forward.
pub open spec fn blueprints_ok<T: Num>(bps: Seq<LayerBlueprint<T>>, num_inputs: nat) -> bool
    decreases bps.len(),
{
    bps.len() == 0 || {
        &&& match bps[0].seed_weights_spec() {
                Some(w) => forall|i: int| 0 <= i < w.len()
                    ==> (#[trigger] w[i])@.len() == num_inputs,
                None => true,
            }
        &&& blueprints_ok(bps.drop_first(), bps[0].nodes())
    }
}

/// The layer at one position matches its blueprint: declared node count,
/// the running input width, the chosen activator, and — wherever the
/// blueprint pinned them — the exact seed weights and seed bias.
pub open spec fn layer_matches<T: Num>(layer: Layer<T>, bp: LayerBlueprint<T>, width: nat) -> bool {
    &&& layer.wf()
    &&& layer.out_width() == bp.nodes()
    &&& layer.in_width() == width
    &&& layer.activator == bp.activator_spec()
    &&& (bp.seed_weights_spec() matches Some(w) ==> layer.weights@ == w)
    &&& (bp.seed_bias_spec() matches Some(b) ==> layer.bias == b)
}

/// The sampler state left behind by building one layer from `bp` at input
/// width `width`, starting from state `s`: unchanged where the blueprint
/// seeds a value, advanced by the width-scaled matrix draw and/or the one
/// plain bias sample where it does not.
pub open spec fn layer_draw_state_spec<T: Num, S: Sampler<T>>(
    s: S,
    bp: LayerBlueprint<T>,
    width: nat,
) -> S {
    let v = xavier_bound_spec::<T>(width as usize, bp.nodes() as usize);
    let after_w = if bp.seed_weights_spec() is Some {
        s
    } else {
        draw_matrix_spec(s, v.neg_spec(), v, bp.nodes(), width).1
    };
    if bp.seed_bias_spec() is Some {
        after_w
    } else {
        after_w.gen_spec().1
    }
}

/// The sampler state after the first `k` layers of an assembly that started
/// from state `s`.
pub open spec fn built_sampler_state_spec<T: Num, S: Sampler<T>>(
    s: S,
    bps: Seq<LayerBlueprint<T>>,
    num_inputs: nat,
    k: int,
) -> S
    decreases k,
{
    if k <= 0 {
        s
    } else {
        layer_draw_state_spec(
            built_sampler_state_spec(s, bps, num_inputs, k - 1),
            bps[k - 1],
            blueprint_width(bps, num_inputs, k - 1),
        )
    }
}

/// Where the blueprint leaves a value to the sampler, the built layer holds
/// exactly the draw from state `s`: the width-scaled weight matrix, and the
/// one plain bias sample drawn after it.
pub open spec fn layer_built_with<T: Num, S: Sampler<T>>(
    layer: Layer<T>,
    bp: LayerBlueprint<T>,
    width: nat,
    s: S,
) -> bool {
    let v = xavier_bound_spec::<T>(width as usize, bp.nodes() as usize);
    let wdraw = draw_matrix_spec(s, v.neg_spec(), v, bp.nodes(), width);
    let after_w = if bp.seed_weights_spec() is Some {
        s
    } else {
        wdraw.1
    };
    &&& (bp.seed_weights_spec() is None ==> matrix_eq(layer.weights@, wdraw.0))
    &&& (bp.seed_bias_spec() is None ==> layer.bias == after_w.gen_spec().0)
}

/// Every layer of `net` holds, wherever its blueprint left a value to the
/// sampler, exactly the draw from the threaded sampler state: assembly is a
/// pure function of the input width, the blueprints, and the sampler's
/// starting state `s`.
pub open spec fn drawn_from<T: Num, S: Sampler<T>>(
    net: Network<T>,
    bps: Seq<LayerBlueprint<T>>,
    num_inputs: nat,
    s: S,
) -> bool {
    forall|i: int| 0 <= i < bps.len()
        ==> layer_built_with(
            #[trigger] net.layers@[i],
            bps[i],
            blueprint_width(bps, num_inputs, i),
            built_sampler_state_spec(s, bps, num_inputs, i),
        )
}

/// What assembly guarantees of a network built from `bps` with declared
/// input width `num_inputs`: well-formed, one layer per blueprint, the first
/// layer reading `num_inputs` inputs, every layer matching its blueprint at
/// the threaded width.
pub open spec fn built_from<T: Num>(
    net: Network<T>,
    bps: Seq<LayerBlueprint<T>>,
    num_inputs: nat,
) -> bool {
    &&& net.wf()
    &&& net.layers@.len() == bps.len()
    &&& (bps.len() > 0 ==> net.in_width() == num_inputs)
    &&& forall|i: int| 0 <= i < bps.len()
            ==> layer_matches(#[trigger] net.layers@[i], bps[i], blueprint_width(bps, num_inputs, i))
}

/// An ordered sequence of layers with chained shapes: each layer reads
/// exactly as many inputs as the previous layer has nodes.
pub struct Network<T> {
    pub layers: Vec<Layer<T>>,
}

/// The value flowing out of stage `k` of the forward pass on `inputs`: the
/// raw inputs for `k == 0`, and layer `k - 1` applied to the previous stage
/// after that.
pub open spec fn forward_outputs_spec<T: Num>(net: Network<T>, inputs: Seq<T>, k: int) -> Seq<T>
    decreases k,
{
    if k <= 0 {
        inputs
    } else {
        layer_output_spec(net.layers@[k - 1], forward_outputs_spec(net, inputs, k - 1))
    }
}

/// The elementwise error of the network's final output against the targets:
/// `output[i] - targets[i]`, computed with the weights `net` holds.
pub open spec fn output_error_spec<T: Num>(
    net: Network<T>,
    inputs: Seq<T>,
    targets: Seq<T>,
) -> Seq<T> {
    Seq::new(
        targets.len(),
        |i: int|
            forward_outputs_spec(net, inputs, net.layers@.len() as int)[i].sub_spec(targets[i]),
    )
}

/// One half in the scalar representation, computed as `1 / (1 + 1)`.
pub open spec fn half_spec<T: Num>() -> T {
    T::one_spec().div_spec(T::one_spec().add_spec(T::one_spec()))
}

/// The half-squared-error fold over the first `k` error terms, accumulated
/// exactly as the training step does: starting from zero, adding
/// `0.5 * err[i] * err[i]` for `i` ascending.
pub open spec fn loss_prefix_spec<T: Num>(err: Seq<T>, k: int) -> T
    decreases k,
{
    if k <= 0 {
        T::zero_spec()
    } else {
        loss_prefix_spec(err, k - 1).add_spec(
            half_spec::<T>().mul_spec(err[k - 1].mul_spec(err[k - 1])),
        )
    }
}

/// The loss one training step reports: the half-squared-error of the
/// network's output (with the weights held at entry) against the targets.
pub open spec fn loss_spec<T: Num>(net: Network<T>, inputs: Seq<T>, targets: Seq<T>) -> T {
    loss_prefix_spec(output_error_spec(net, inputs, targets), targets.len() as int)
}

/// The fold of `deltas` against column `j` of the weight matrix `w` over the
/// first `k` rows, accumulated exactly as backpropagation does: starting
/// from zero, adding `deltas[i] * w[i][j]` for `i` ascending.
pub open spec fn col_sum_prefix_spec<T: Num>(deltas: Seq<T>, w: Seq<Vec<T>>, j: int, k: int) -> T
    decreases k,
{
    if k <= 0 {
        T::zero_spec()
    } else {
        col_sum_prefix_spec(deltas, w, j, k - 1).add_spec(deltas[k - 1].mul_spec(w[k - 1]@[j]))
    }
}

/// The error vector charged to layer `l`'s output during one training step
/// on `net` (all of it computed from the weights `net` holds — the
/// pre-update snapshot): for the last layer the output error itself, and
/// for every shallower layer the deltas of layer `l + 1` folded against the
/// columns of layer `l + 1`'s (pre-update) weights.
pub open spec fn layer_error_spec<T: Num>(
    net: Network<T>,
    inputs: Seq<T>,
    targets: Seq<T>,
    l: int,
) -> Seq<T>
    decreases net.layers@.len() - l, 0int,
{
    if l >= net.layers@.len() - 1 {
        output_error_spec(net, inputs, targets)
    } else {
        let next = net.layers@[l + 1];
        Seq::new(
            next.in_width(),
            |j: int|
                col_sum_prefix_spec(
                    deltas_spec(net, inputs, targets, l + 1),
                    next.weights@,
                    j,
                    next.out_width() as int,
                ),
        )
    }
}

/// The per-node deltas of layer `l` during one training step on `net`: the
/// error charged to the layer, scaled by the activator's slope evaluated on
/// the layer's retained *post-activation* output (uniformly for every
/// activator kind — exact for the sigmoid, and preserved as the rule here).
pub open spec fn deltas_spec<T: Num>(
    net: Network<T>,
    inputs: Seq<T>,
    targets: Seq<T>,
    l: int,
) -> Seq<T>
    decreases net.layers@.len() - l, 1int,
{
    let err = layer_error_spec(net, inputs, targets, l);
    let out = forward_outputs_spec(net, inputs, l + 1);
    Seq::new(
        net.layers@[l].out_width(),
        |i: int| err[i].mul_spec(net.layers@[l].activator.derived_spec(out[i])),
    )
}

/// What one training step with rate `learning_rate` leaves in layer `l`'s
/// weight matrix: each entry decreased by `learning_rate * delta_i *
/// previous_stage_output_j`, everything on the right-hand side computed
/// from the weights `net` held at entry.
pub open spec fn updated_weights_spec<T: Num>(
    net: Network<T>,
    inputs: Seq<T>,
    targets: Seq<T>,
    learning_rate: T,
    l: int,
) -> Seq<Seq<T>> {
    let w = net.layers@[l].weights@;
    let d = deltas_spec(net, inputs, targets, l);
    let prev = forward_outputs_spec(net, inputs, l);
    Seq::new(
        w.len(),
        |i: int|
            Seq::new(
                w[i]@.len(),
                |j: int| w[i]@[j].sub_spec(learning_rate.mul_spec(d[i]).mul_spec(prev[j])),
            ),
    )
}

impl<T: Num> Network<T> {
    /// Shape invariant: every layer is well-formed and adjacent layers
    /// agree on their shared width.
    pub open spec fn wf(self) -> bool {
        &&& forall|i: int| 0 <= i < self.layers@.len() ==> (#[trigger] self.layers@[i]).wf()
        &&& forall|i: int| 1 <= i < self.layers@.len()
                ==> (#[trigger] self.layers@[i]).in_width() == self.layers@[i - 1].out_width()
    }

    /// The width of the input vector the network reads.
    pub open spec fn in_width(self) -> nat {
        self.layers@[0].in_width()
    }

    /// The width of the output vector the network produces.
    pub open spec fn out_width(self) -> nat {
        self.layers@[self.layers@.len() - 1].out_width()
    }

    /// The width of the value flowing between layer `k - 1` and layer `k`:
    /// the network input for `k == 0`, layer `k - 1`'s node count after that.
    pub open spec fn width_at(self, k: int) -> nat {
        if k == 0 {
            self.in_width()
        } else {
            self.layers@[k - 1].out_width()
        }
    }

    /// Assembles the layers in blueprint order, threading the running input
    /// width forward (it starts at `num_inputs` and becomes each blueprint's
    /// node count after that layer is built).
    ///
    /// Refused with [`Error::ShapeMismatch`] exactly when some supplied seed
    /// weight matrix has a row that does not match the running width at its
    /// position. On success the result is pinned by [`built_from`]: wherever
    /// a blueprint seeds weights or bias explicitly, the built layer holds
    /// exactly those values.
    #[verifier::loop_isolation(false)]
    pub fn new<S: Sampler<T>>(
        num_inputs: usize,
        layer_blueprints: Vec<LayerBlueprint<T>>,
        rng: &mut S,
    ) -> (r: Result<Network<T>, Error>)
        requires
            forall|i: int| 0 <= i < layer_blueprints@.len()
                ==> (#[trigger] layer_blueprints@[i]).wf(),
        ensures
            (r is Err) <==> !blueprints_ok(layer_blueprints@, num_inputs as nat),
            r is Err ==> r == Result::<Network<T>, Error>::Err(Error::ShapeMismatch),
            r matches Ok(net) ==> {
                &&& built_from(net, layer_blueprints@, num_inputs as nat)
                &&& drawn_from(net, layer_blueprints@, num_inputs as nat, *old(rng))
                &&& *final(rng) == built_sampler_state_spec(
                    *old(rng),
                    layer_blueprints@,
                    num_inputs as nat,
                    layer_blueprints@.len() as int,
                )
            },
    {
        let ghost bps0: Seq<LayerBlueprint<T>> = layer_blueprints@;
        let ghost rng0: S = *rng;
        let mut remaining = layer_blueprints;
        let mut layers: Vec<Layer<T>> = Vec::new();
        let mut running_width: usize = num_inputs;

        proof {
            assert(bps0.skip(0) =~= bps0);
        }

        while remaining.len() > 0
            invariant
                layers@.len() <= bps0.len(),
                remaining@ =~= bps0.skip(layers@.len() as int),
                forall|i: int| 0 <= i < bps0.len() ==> (#[trigger] bps0[i]).wf(),
                running_width as nat == blueprint_width(bps0, num_inputs as nat, layers@.len() as int),
                forall|k: int| 0 <= k < layers@.len()
                    ==> layer_matches(#[trigger] layers@[k], bps0[k], blueprint_width(bps0, num_inputs as nat, k)),
                forall|k: int| 0 <= k < layers@.len()
                    ==> layer_built_with(
                        #[trigger] layers@[k],
                        bps0[k],
                        blueprint_width(bps0, num_inputs as nat, k),
                        built_sampler_state_spec(rng0, bps0, num_inputs as nat, k),
                    ),
                *rng == built_sampler_state_spec(rng0, bps0, num_inputs as nat, layers@.len() as int),
                blueprints_ok(bps0, num_inputs as nat)
                    <==> blueprints_ok(remaining@, running_width as nat),
            decreases remaining@.len(),
        {
            let ghost done: int = layers@.len() as int;
            proof {
                assert(remaining@[0] == bps0[done]);
                assert(remaining@.drop_first() =~= bps0.skip(done + 1));
            }
            let blueprint = remaining.remove(0);
            let ghost bp_snap: LayerBlueprint<T> = blueprint;
            let layer = match Layer::new(
                blueprint.num_nodes,
                running_width,
                blueprint.seed_bias,
                blueprint.seed_weights,
                blueprint.activator,
                rng,
            ) {
                Ok(layer) => layer,
                Err(e) => {
                    proof {
                        assert(bp_snap == bps0[done]);
                        assert(bp_snap.wf());
                        let sw = bp_snap.seed_weights_spec().unwrap();
                        assert(!(forall|i: int| 0 <= i < sw.len()
                            ==> (#[trigger] sw[i])@.len() == running_width as nat));
                        assert(!blueprints_ok(bps0.skip(done), running_width as nat));
                    }
                    return Err(e);
                }
            };
            proof {
                let wdth = blueprint_width(bps0, num_inputs as nat, done);
                let s_pre = built_sampler_state_spec(rng0, bps0, num_inputs as nat, done);
                assert(wdth as usize == running_width);
                assert(bp_snap.nodes() as usize == bp_snap.num_nodes);
                assert(layer_built_with(layer, bps0[done], wdth, s_pre));
                assert(built_sampler_state_spec(rng0, bps0, num_inputs as nat, done + 1)
                    == layer_draw_state_spec(s_pre, bps0[done], wdth));
                assert(*rng == layer_draw_state_spec(s_pre, bps0[done], wdth));
            }
            running_width = blueprint.num_nodes;
            layers.push(layer);
        }

        let net = Network { layers: layers };
        proof {
            assert forall|i: int| 1 <= i < net.layers@.len()
                implies (#[trigger] net.layers@[i]).in_width() == net.layers@[i - 1].out_width() by {
                assert(layer_matches(net.layers@[i], bps0[i], blueprint_width(bps0, num_inputs as nat, i)));
                assert(layer_matches(net.layers@[i - 1], bps0[i - 1], blueprint_width(bps0, num_inputs as nat, i - 1)));
            }
        }
        Ok(net)
    }

    /// One training step: runs the forward pass, returns the network's
    /// half-squared-error loss *before* any update, and adjusts every weight
    /// by backpropagated gradient descent.
    ///
    /// Refused with [`Error::DimensionMismatch`] — leaving the network
    /// untouched — exactly when the input vector does not match the first
    /// layer's input width or the target vector does not match the last
    /// layer's node count. On success the network keeps its exact shape:
    /// layer count, both widths of every layer, every activator, and every
    /// bias are unchanged (the bias is deliberately not updated by this
    /// design). For each layer, all error terms are computed from the weight
    /// values this call started with; only then is the weight matrix
    /// replaced.
    #[verifier::loop_isolation(false)]
    pub fn train(
        &mut self,
        training_inputs: &Vec<T>,
        training_outputs: &Vec<T>,
        learning_rate: T,
    ) -> (r: Result<T, Error>)
        requires
            old(self).wf(),
            old(self).layers@.len() >= 1,
        ensures
            (r is Err) <==> !(training_inputs@.len() == old(self).in_width()
                && training_outputs@.len() == old(self).out_width()),
            r is Err ==> *final(self) == *old(self)
                && r == Result::<T, Error>::Err(Error::DimensionMismatch),
            r matches Ok(loss) ==> {
                &&& final(self).wf()
                &&& final(self).layers@.len() == old(self).layers@.len()
                &&& forall|i: int| 0 <= i < old(self).layers@.len()
                        ==> same_frame(#[trigger] final(self).layers@[i], old(self).layers@[i])
                &&& loss == loss_spec(*old(self), training_inputs@, training_outputs@)
                &&& forall|l: int| 0 <= l < old(self).layers@.len()
                        ==> matrix_eq(
                            (#[trigger] final(self).layers@[l]).weights@,
                            updated_weights_spec(
                                *old(self),
                                training_inputs@,
                                training_outputs@,
                                learning_rate,
                                l,
                            ),
                        )
            },
    {
        let n: usize = self.layers.len();
        if training_inputs.len() != self.layers[0].weights[0].len()
            || training_outputs.len() != self.layers[n - 1].weights.len()
        {
            return Err(Error::DimensionMismatch);
        }

        // Forward pass: retain the output of every layer, the raw input
        // vector standing as the output of "layer zero".
        let mut network_outputs: Vec<Vec<T>> = Vec::new();
        let mut first: Vec<T> = Vec::new();
        let mut idx: usize = 0;
        while idx < training_inputs.len()
            invariant
                idx <= training_inputs@.len(),
                first@ == training_inputs@.take(idx as int),
            decreases training_inputs@.len() - idx,
        {
            first.push(training_inputs[idx]);
            idx += 1;
            proof {
                assert(first@ =~= training_inputs@.take(idx as int));
            }
        }
        proof {
            assert(first@ =~= training_inputs@);
        }
        network_outputs.push(first);

        let mut l: usize = 0;
        while l < n
            invariant
                l <= n,
                network_outputs@.len() == l + 1,
                forall|k: int| 0 <= k <= l
                    ==> (#[trigger] network_outputs@[k])@.len() == old(self).width_at(k),
                forall|k: int| 0 <= k <= l
                    ==> (#[trigger] network_outputs@[k])@ == forward_outputs_spec(
                        *old(self),
                        training_inputs@,
                        k,
                    ),
            decreases n - l,
        {
            proof {
                assert(old(self).layers@[l as int].wf());
                assert(old(self).layers@[l as int].in_width() == old(self).width_at(l as int));
            }
            let next = self.layers[l].calculate_output(&network_outputs[network_outputs.len() - 1]);
            proof {
                let prev_out = forward_outputs_spec(*old(self), training_inputs@, l as int);
                assert(next@ =~= layer_output_spec(old(self).layers@[l as int], prev_out));
                assert(forward_outputs_spec(*old(self), training_inputs@, l as int + 1)
                    == layer_output_spec(old(self).layers@[l as int], prev_out));
            }
            network_outputs.push(next);
            l += 1;
        }

        // The error of the final layer against the targets, and the loss of
        // this step, measured before any weight changes.
        let ghost err0: Seq<T> = output_error_spec(*old(self), training_inputs@, training_outputs@);
        let mut layer_error: Vec<T> = Vec::new();
        let mut i: usize = 0;
        while i < training_outputs.len()
            invariant
                i <= training_outputs@.len(),
                layer_error@.len() == i,
                forall|k: int| 0 <= k < i ==> layer_error@[k] == err0[k],
            decreases training_outputs@.len() - i,
        {
            layer_error.push(network_outputs[n][i].minus(&training_outputs[i]));
            i += 1;
        }
        proof {
            assert(layer_error@ =~= err0);
            assert(layer_error@ == layer_error_spec(
                *old(self),
                training_inputs@,
                training_outputs@,
                n as int - 1,
            ));
        }

        let half = T::one().div_by(&T::one().plus(&T::one()));
        let mut net_error = T::zero();
        i = 0;
        while i < layer_error.len()
            invariant
                i <= layer_error@.len(),
                net_error == loss_prefix_spec(err0, i as int),
            decreases layer_error@.len() - i,
        {
            let e: T = layer_error[i];
            net_error = net_error.plus(&half.times(&e.times(&e)));
            i += 1;
        }

        // Backward pass, last layer first. Each layer is taken off the
        // stack, its replacement weights are computed entirely from the
        // values it still holds, and only then are they swapped in.
        let mut rebuilt: Vec<Layer<T>> = Vec::new();
        let mut l2: usize = n;
        proof {
            assert(self.layers@ =~= old(self).layers@.take(n as int));
        }
        let ghost ins: Seq<T> = training_inputs@;
        let ghost tgs: Seq<T> = training_outputs@;
        while l2 > 0
            invariant
                l2 <= n,
                self.layers@ =~= old(self).layers@.take(l2 as int),
                rebuilt@.len() == n - l2,
                forall|k: int| 0 <= k < rebuilt@.len() ==> (#[trigger] rebuilt@[k]).wf()
                    && same_frame(rebuilt@[k], old(self).layers@[n - 1 - k]),
                forall|k: int| 0 <= k < rebuilt@.len() ==> matrix_eq(
                    (#[trigger] rebuilt@[k]).weights@,
                    updated_weights_spec(*old(self), ins, tgs, learning_rate, n - 1 - k),
                ),
                layer_error@.len() == old(self).width_at(l2 as int),
                layer_error@ == layer_error_spec(*old(self), ins, tgs, l2 as int - 1),
            decreases l2,
        {
            l2 = l2 - 1;
            let mut layer = self.layers.pop().unwrap();
            proof {
                assert(layer == old(self).layers@[l2 as int]);
                assert(self.layers@ =~= old(self).layers@.take(l2 as int));
                assert(layer.wf());
                assert(layer.in_width() == old(self).width_at(l2 as int));
            }
            let ghost dspec: Seq<T> = deltas_spec(*old(self), ins, tgs, l2 as int);
            let nodes: usize = layer.weights.len();
            let m: usize = layer.weights[0].len();

            // The per-node deltas: the error scaled by the activator's slope,
            // evaluated on the layer's retained (post-activation) output.
            let mut deltas: Vec<T> = Vec::new();
            let mut i2: usize = 0;
            while i2 < nodes
                invariant
                    i2 <= nodes,
                    deltas@.len() == i2,
                    forall|k: int| 0 <= k < i2 ==> deltas@[k] == dspec[k],
                decreases nodes - i2,
            {
                let out = network_outputs[l2 + 1][i2];
                deltas.push(layer_error[i2].times(&layer.activator.derived(out)));
                i2 += 1;
            }
            proof {
                assert(deltas@ =~= dspec);
            }

            // The error handed to the previous (shallower) layer, computed
            // from the pre-update weights.
            let mut next_error: Vec<T> = Vec::new();
            let mut j: usize = 0;
            while j < m
                invariant
                    j <= m,
                    next_error@.len() == j,
                    forall|k: int| 0 <= k < j ==> next_error@[k] == col_sum_prefix_spec(
                        dspec,
                        old(self).layers@[l2 as int].weights@,
                        k,
                        nodes as int,
                    ),
                decreases m - j,
            {
                let mut acc = T::zero();
                let mut i3: usize = 0;
                while i3 < nodes
                    invariant
                        i3 <= nodes,
                        j < m,
                        acc == col_sum_prefix_spec(
                            dspec,
                            old(self).layers@[l2 as int].weights@,
                            j as int,
                            i3 as int,
                        ),
                    decreases nodes - i3,
                {
                    acc = acc.plus(&deltas[i3].times(&layer.weights[i3][j]));
                    i3 += 1;
                }
                next_error.push(acc);
                j += 1;
            }
            proof {
                assert(next_error@ =~= layer_error_spec(*old(self), ins, tgs, l2 as int - 1));
            }

            // The gradient-descent update, one weight at a time.
            let ghost wspec: Seq<Seq<T>> = updated_weights_spec(
                *old(self),
                ins,
                tgs,
                learning_rate,
                l2 as int,
            );
            let mut new_weights: Vec<Vec<T>> = Vec::new();
            let mut i4: usize = 0;
            while i4 < nodes
                invariant
                    i4 <= nodes,
                    new_weights@.len() == i4,
                    forall|k: int| 0 <= k < new_weights@.len()
                        ==> (#[trigger] new_weights@[k])@.len() == m,
                    forall|k: int| 0 <= k < new_weights@.len()
                        ==> (#[trigger] new_weights@[k])@ == wspec[k],
                decreases nodes - i4,
            {
                let mut new_row: Vec<T> = Vec::new();
                let mut j2: usize = 0;
                while j2 < m
                    invariant
                        j2 <= m,
                        i4 < nodes,
                        new_row@.len() == j2,
                        forall|k: int| 0 <= k < j2 ==> new_row@[k] == wspec[i4 as int][k],
                    decreases m - j2,
                {
                    let step = learning_rate.times(&deltas[i4]).times(&network_outputs[l2][j2]);
                    new_row.push(layer.weights[i4][j2].minus(&step));
                    j2 += 1;
                }
                proof {
                    assert(new_row@ =~= wspec[i4 as int]);
                }
                new_weights.push(new_row);
                i4 += 1;
            }

            layer.replace_weights(new_weights);
            proof {
                assert(matrix_eq(layer.weights@, wspec));
            }
            rebuilt.push(layer);
            layer_error = next_error;
        }

        // Put the adjusted layers back in network order.
        while rebuilt.len() > 0
            invariant
                rebuilt@.len() <= n,
                self.layers@.len() == n - rebuilt@.len(),
                forall|k: int| 0 <= k < rebuilt@.len() ==> (#[trigger] rebuilt@[k]).wf()
                    && same_frame(rebuilt@[k], old(self).layers@[n - 1 - k]),
                forall|k: int| 0 <= k < rebuilt@.len() ==> matrix_eq(
                    (#[trigger] rebuilt@[k]).weights@,
                    updated_weights_spec(*old(self), ins, tgs, learning_rate, n - 1 - k),
                ),
                forall|k: int| 0 <= k < self.layers@.len() ==> (#[trigger] self.layers@[k]).wf()
                    && same_frame(self.layers@[k], old(self).layers@[k]),
                forall|k: int| 0 <= k < self.layers@.len() ==> matrix_eq(
                    (#[trigger] self.layers@[k]).weights@,
                    updated_weights_spec(*old(self), ins, tgs, learning_rate, k),
                ),
            decreases rebuilt@.len(),
        {
            let layer = rebuilt.pop().unwrap();
            self.layers.push(layer);
        }

        proof {
            assert forall|i5: int| 1 <= i5 < self.layers@.len()
                implies (#[trigger] self.layers@[i5]).in_width() == self.layers@[i5 - 1].out_width() by {
                assert(same_frame(self.layers@[i5], old(self).layers@[i5]));
                assert(same_frame(self.layers@[i5 - 1], old(self).layers@[i5 - 1]));
                assert(old(self).layers@[i5].in_width() == old(self).layers@[i5 - 1].out_width());
            }
        }
        Ok(net_error)
    }
}

/// Wherever the blueprints pin a value, assembly is deterministic: two
/// networks built from the same input width and the same blueprint sequence
/// agree, layer by layer, on both widths and the activator, and hold
/// identical weights and biases wherever the blueprint seeded them
/// explicitly. (Only values drawn from the injected sampler can differ.)
pub proof fn lemma_build_deterministic<T: Num>(
    a: Network<T>,
    b: Network<T>,
    bps: Seq<LayerBlueprint<T>>,
    num_inputs: nat,
)
    requires
        built_from(a, bps, num_inputs),
        built_from(b, bps, num_inputs),
    ensures
        a.layers@.len() == b.layers@.len(),
        forall|i: int| 0 <= i < bps.len() ==> {
            &&& (#[trigger] a.layers@[i]).out_width() == b.layers@[i].out_width()
            &&& a.layers@[i].in_width() == b.layers@[i].in_width()
            &&& a.layers@[i].activator == b.layers@[i].activator
            &&& (bps[i].seed_weights_spec() matches Some(w)
                    ==> a.layers@[i].weights@ == b.layers@[i].weights@)
            &&& (bps[i].seed_bias_spec() matches Some(v)
                    ==> a.layers@[i].bias == b.layers@[i].bias)
        },
{
    assert forall|i: int| 0 <= i < bps.len() implies {
        &&& (#[trigger] a.layers@[i]).out_width() == b.layers@[i].out_width()
        &&& a.layers@[i].in_width() == b.layers@[i].in_width()
        &&& a.layers@[i].activator == b.layers@[i].activator
        &&& (bps[i].seed_weights_spec() matches Some(w)
                ==> a.layers@[i].weights@ == b.layers@[i].weights@)
        &&& (bps[i].seed_bias_spec() matches Some(v)
                ==> a.layers@[i].bias == b.layers@[i].bias)
    } by {
        assert(layer_matches(a.layers@[i], bps[i], blueprint_width(bps, num_inputs, i)));
        assert(layer_matches(b.layers@[i], bps[i], blueprint_width(bps, num_inputs, i)));
    }
}

/// Assembly is idempotent: two networks built from the same input width, the
/// same blueprint sequence, and samplers in the same starting state are
/// identical — same layer count and, layer by layer, the same widths, the
/// same activator, the same weight values entry for entry, and the same
/// bias, whether a value was seeded explicitly or drawn from the sampler.
pub proof fn lemma_build_idempotent<T: Num, S: Sampler<T>>(
    a: Network<T>,
    b: Network<T>,
    bps: Seq<LayerBlueprint<T>>,
    num_inputs: nat,
    s: S,
)
    requires
        built_from(a, bps, num_inputs),
        built_from(b, bps, num_inputs),
        drawn_from(a, bps, num_inputs, s),
        drawn_from(b, bps, num_inputs, s),
    ensures
        a.layers@.len() == b.layers@.len(),
        forall|i: int| 0 <= i < bps.len() ==> {
            &&& (#[trigger] a.layers@[i]).out_width() == b.layers@[i].out_width()
            &&& a.layers@[i].in_width() == b.layers@[i].in_width()
            &&& a.layers@[i].activator == b.layers@[i].activator
            &&& same_weights(a.layers@[i], b.layers@[i])
            &&& a.layers@[i].bias == b.layers@[i].bias
        },
{
    assert forall|i: int| 0 <= i < bps.len() implies {
        &&& (#[trigger] a.layers@[i]).out_width() == b.layers@[i].out_width()
        &&& a.layers@[i].in_width() == b.layers@[i].in_width()
        &&& a.layers@[i].activator == b.layers@[i].activator
        &&& same_weights(a.layers@[i], b.layers@[i])
        &&& a.layers@[i].bias == b.layers@[i].bias
    } by {
        let width = blueprint_width(bps, num_inputs, i);
        let state = built_sampler_state_spec(s, bps, num_inputs, i);
        assert(layer_matches(a.layers@[i], bps[i], width));
        assert(layer_matches(b.layers@[i], bps[i], width));
        assert(layer_built_with(a.layers@[i], bps[i], width, state));
        assert(layer_built_with(b.layers@[i], bps[i], width, state));
    }
}

} // verus!
