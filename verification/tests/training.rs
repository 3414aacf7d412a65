use neural::activators::{Activation, Activator, Elu, Relu, Sigmoid};
use neural::layer::Layer;
use neural::network::{Error, LayerBlueprint, Network};
use neural::num::{Num, Sampler};

/// Double-precision scalars bound to the network's arithmetic capability.
#[derive(Clone, Copy, PartialEq, Debug)]
struct F(f64);

impl Num for F {
    // The specification-level names compile to ordinary trait items; at f64
    // each denotes the operation itself.
    fn zero_spec() -> Self {
        F(0.0)
    }
    fn one_spec() -> Self {
        F(1.0)
    }
    fn from_usize_spec(n: usize) -> Self {
        F(n as f64)
    }
    fn add_spec(self, other: Self) -> Self {
        F(self.0 + other.0)
    }
    fn sub_spec(self, other: Self) -> Self {
        F(self.0 - other.0)
    }
    fn mul_spec(self, other: Self) -> Self {
        F(self.0 * other.0)
    }
    fn div_spec(self, other: Self) -> Self {
        F(self.0 / other.0)
    }
    fn neg_spec(self) -> Self {
        F(-self.0)
    }
    fn exp_spec(self) -> Self {
        F(self.0.exp())
    }
    fn sqrt_spec(self) -> Self {
        F(self.0.sqrt())
    }
    fn lt_spec(self, other: Self) -> bool {
        self.0 < other.0
    }

    fn zero() -> Self {
        F(0.0)
    }
    fn one() -> Self {
        F(1.0)
    }
    fn from_usize(n: usize) -> Self {
        F(n as f64)
    }
    fn plus(&self, other: &Self) -> Self {
        F(self.0 + other.0)
    }
    fn minus(&self, other: &Self) -> Self {
        F(self.0 - other.0)
    }
    fn times(&self, other: &Self) -> Self {
        F(self.0 * other.0)
    }
    fn div_by(&self, other: &Self) -> Self {
        F(self.0 / other.0)
    }
    fn negate(&self) -> Self {
        F(-self.0)
    }
    fn exp(&self) -> Self {
        F(self.0.exp())
    }
    fn sqrt(&self) -> Self {
        F(self.0.sqrt())
    }
    fn less_than(&self, other: &Self) -> bool {
        self.0 < other.0
    }
}

/// A deterministic sample source: cycles through a fixed list of values in
/// `[0, 1)`.
struct FixedSampler {
    vals: Vec<f64>,
    pos: usize,
}

impl FixedSampler {
    fn new(vals: Vec<f64>) -> Self {
        FixedSampler { vals, pos: 0 }
    }
    fn next_unit(&mut self) -> f64 {
        let v = self.vals[self.pos % self.vals.len()];
        self.pos += 1;
        v
    }
}

impl Sampler<F> for FixedSampler {
    fn gen_range_spec(self, low: F, high: F) -> (F, Self) {
        let mut s = self;
        let r = s.gen_range(low, high);
        (r, s)
    }
    fn gen_spec(self) -> (F, Self) {
        let mut s = self;
        let r = s.gen();
        (r, s)
    }

    fn gen_range(&mut self, low: F, high: F) -> F {
        let u = self.next_unit();
        F(low.0 + (high.0 - low.0) * u)
    }
    fn gen(&mut self) -> F {
        F(self.next_unit())
    }
}

fn bp(
    num_nodes: usize,
    bias: Option<f64>,
    weights: Option<Vec<Vec<f64>>>,
    activator: Option<Activation>,
) -> LayerBlueprint<F> {
    let weights = weights.map(|m| {
        m.into_iter()
            .map(|row| row.into_iter().map(F).collect::<Vec<F>>())
            .collect::<Vec<Vec<F>>>()
    });
    LayerBlueprint::new(num_nodes, bias.map(F), weights, activator).unwrap()
}

fn fv(xs: &[f64]) -> Vec<F> {
    xs.iter().map(|x| F(*x)).collect()
}

#[test]
fn sigmoid_unit_checks() {
    assert_eq!(Sigmoid.activate(F(0.0)), F(0.5));
    // The sigmoid's slope is evaluated on its own output: y * (1 - y).
    assert_eq!(Sigmoid.derived(F(0.5)), F(0.25));
}

#[test]
fn relu_unit_checks() {
    assert_eq!(Relu.activate(F(-1.0)), F(0.0));
    assert_eq!(Relu.activate(F(2.0)), F(2.0));
    assert_eq!(Relu.derived(F(-1.0)), F(0.0));
    assert_eq!(Relu.derived(F(2.0)), F(1.0));
}

#[test]
fn elu_unit_checks() {
    assert_eq!(Elu.activate(F(0.0)), F(0.0));
    let y = Elu.activate(F(-1.0));
    assert!((y.0 - ((-1.0f64).exp() - 1.0)).abs() < 1e-15);
    let s = Elu.derived(F(-1.0));
    assert!((s.0 - (-1.0f64).exp()).abs() < 1e-15);
    assert_eq!(Elu.derived(F(0.0)), F(1.0));
}

#[test]
fn activation_dispatch_matches_structs() {
    assert_eq!(Activation::Sigmoid.activate(F(0.0)), Sigmoid.activate(F(0.0)));
    assert_eq!(Activation::Relu.activate(F(-3.0)), Relu.activate(F(-3.0)));
    assert_eq!(Activation::Elu.activate(F(-2.0)), Elu.activate(F(-2.0)));
    assert_eq!(Activation::Elu.derived(F(-2.0)), Elu.derived(F(-2.0)));
}

#[test]
fn blueprint_rejects_zero_nodes() {
    let r = LayerBlueprint::<F>::new(0, None, None, None);
    assert_eq!(r.err(), Some(Error::ShapeMismatch));
}

#[test]
fn blueprint_rejects_row_count_mismatch() {
    let r = LayerBlueprint::new(2, None, Some(vec![fv(&[1.0, 0.0])]), None);
    assert_eq!(r.err(), Some(Error::ShapeMismatch));
}

#[test]
fn network_rejects_row_width_mismatch() {
    let mut rng = FixedSampler::new(vec![0.5]);
    // One node whose single weight row has length 2, against a declared
    // network input width of 3.
    let blueprints = vec![bp(1, Some(0.0), Some(vec![vec![1.0, 2.0]]), None)];
    let r = Network::new(3, blueprints, &mut rng);
    assert!(matches!(r, Err(Error::ShapeMismatch)));
}

#[test]
fn network_rejects_second_layer_width_mismatch() {
    let mut rng = FixedSampler::new(vec![0.5]);
    // The second layer must read 2 inputs (the first layer has 2 nodes) but
    // its seed row has length 3.
    let blueprints = vec![
        bp(2, Some(0.0), Some(vec![vec![1.0], vec![2.0]]), None),
        bp(1, Some(0.0), Some(vec![vec![1.0, 1.0, 1.0]]), None),
    ];
    let r = Network::new(1, blueprints, &mut rng);
    assert!(matches!(r, Err(Error::ShapeMismatch)));
}

#[test]
fn forward_output_has_one_value_per_node() {
    let mut rng = FixedSampler::new(vec![0.3, 0.7, 0.1]);
    let blueprints = vec![bp(3, None, None, Some(Activation::Sigmoid))];
    let net = Network::new(2, blueprints, &mut rng).unwrap();
    let out = net.layers[0].calculate_output(&fv(&[0.25, -0.5]));
    assert_eq!(out.len(), 3);
}

#[test]
fn construction_pins_seeded_values() {
    let mut rng = FixedSampler::new(vec![0.5]);
    let blueprints = vec![
        bp(2, Some(0.25), Some(vec![vec![1.0, 0.0], vec![0.0, 1.0]]), Some(Activation::Elu)),
        bp(1, Some(-1.5), Some(vec![vec![2.0, 3.0]]), Some(Activation::Sigmoid)),
    ];
    let net = Network::new(2, blueprints, &mut rng).unwrap();
    assert_eq!(net.layers.len(), 2);
    assert_eq!(net.layers[0].weights, vec![fv(&[1.0, 0.0]), fv(&[0.0, 1.0])]);
    assert_eq!(net.layers[0].bias, F(0.25));
    assert_eq!(net.layers[0].activator, Activation::Elu);
    assert_eq!(net.layers[1].weights, vec![fv(&[2.0, 3.0])]);
    assert_eq!(net.layers[1].bias, F(-1.5));
    assert_eq!(net.layers[1].activator, Activation::Sigmoid);
}

#[test]
fn default_activator_is_relu() {
    let mut rng = FixedSampler::new(vec![0.5]);
    let blueprints = vec![bp(1, Some(0.0), Some(vec![vec![1.0]]), None)];
    let net = Network::new(1, blueprints, &mut rng).unwrap();
    assert_eq!(net.layers[0].activator, Activation::Relu);
    // And it behaves as the rectifier: a negative sum comes out as zero.
    let out = net.layers[0].calculate_output(&fv(&[-2.0]));
    assert_eq!(out, fv(&[0.0]));
}

#[test]
fn construction_idempotent_with_identical_sampler() {
    // Both networks draw every weight and bias from the sampler; identical
    // source state must give identical initial parameters.
    let vals = vec![0.11, 0.93, 0.27, 0.64, 0.48, 0.05, 0.77];
    let mut rng_a = FixedSampler::new(vals.clone());
    let mut rng_b = FixedSampler::new(vals);
    let blueprints_a = vec![bp(4, None, None, Some(Activation::Sigmoid)), bp(2, None, None, None)];
    let blueprints_b = vec![bp(4, None, None, Some(Activation::Sigmoid)), bp(2, None, None, None)];
    let a = Network::new(3, blueprints_a, &mut rng_a).unwrap();
    let b = Network::new(3, blueprints_b, &mut rng_b).unwrap();
    assert_eq!(a.layers.len(), b.layers.len());
    for (la, lb) in a.layers.iter().zip(b.layers.iter()) {
        assert_eq!(la.weights, lb.weights);
        assert_eq!(la.bias, lb.bias);
        assert_eq!(la.activator, lb.activator);
    }
}

#[test]
fn train_rejects_dimension_mismatch_and_leaves_weights_unchanged() {
    let mut rng = FixedSampler::new(vec![0.5]);
    let blueprints = vec![
        bp(2, Some(0.0), Some(vec![vec![1.0, 2.0], vec![3.0, 4.0]]), None),
        bp(1, Some(0.0), Some(vec![vec![0.5, 0.5]]), None),
    ];
    let mut net = Network::new(2, blueprints, &mut rng).unwrap();
    let before: Vec<Vec<Vec<F>>> = net.layers.iter().map(|l| l.weights.clone()).collect();

    // Input too short for the first layer.
    let r = net.train(&fv(&[1.0]), &fv(&[1.0]), F(0.1));
    assert_eq!(r.err(), Some(Error::DimensionMismatch));
    // Target too long for the last layer.
    let r = net.train(&fv(&[1.0, 1.0]), &fv(&[1.0, 1.0]), F(0.1));
    assert_eq!(r.err(), Some(Error::DimensionMismatch));

    let after: Vec<Vec<Vec<F>>> = net.layers.iter().map(|l| l.weights.clone()).collect();
    assert_eq!(before, after);
}

#[test]
fn end_to_end_forward_and_pre_update_loss() {
    let mut rng = FixedSampler::new(vec![0.5]);
    // Input width 2; a hidden layer of 2 rectifier nodes with the identity
    // matrix and bias 0; an output node summing both with bias 0. The
    // rectifier acts as the identity on these non-negative sums.
    let blueprints = vec![
        bp(2, Some(0.0), Some(vec![vec![1.0, 0.0], vec![0.0, 1.0]]), Some(Activation::Relu)),
        bp(1, Some(0.0), Some(vec![vec![1.0, 1.0]]), Some(Activation::Relu)),
    ];
    let mut net = Network::new(2, blueprints, &mut rng).unwrap();

    let hidden = net.layers[0].calculate_output(&fv(&[1.0, 1.0]));
    assert_eq!(hidden, fv(&[1.0, 1.0]));
    let out = net.layers[1].calculate_output(&hidden);
    assert_eq!(out, fv(&[2.0]));

    // The returned loss measures the step's starting point: 0.5 * (2 - 3)^2.
    let loss = net.train(&fv(&[1.0, 1.0]), &fv(&[3.0]), F(0.1)).unwrap();
    assert_eq!(loss, F(0.5));
}

#[test]
fn bias_is_not_updated_by_training() {
    let mut rng = FixedSampler::new(vec![0.5]);
    let blueprints = vec![bp(1, Some(0.3), Some(vec![vec![0.5]]), None)];
    let mut net = Network::new(1, blueprints, &mut rng).unwrap();
    net.train(&fv(&[1.0]), &fv(&[2.0]), F(0.1)).unwrap();
    assert_eq!(net.layers[0].bias, F(0.3));
    // The weight, however, did move.
    assert!(net.layers[0].weights[0][0] != F(0.5));
}

#[test]
fn loss_non_increasing_on_convex_single_node_problem() {
    let mut rng = FixedSampler::new(vec![0.5]);
    // One node, rectifier-as-identity on the positive regime, a fixed
    // example, and a small constant learning rate: plain gradient descent on
    // a convex quadratic, so the reported loss must never rise.
    let blueprints = vec![bp(1, Some(0.0), Some(vec![vec![0.5]]), Some(Activation::Relu))];
    let mut net = Network::new(1, blueprints, &mut rng).unwrap();
    let mut prev = f64::INFINITY;
    for _ in 0..200 {
        let loss = net.train(&fv(&[1.0]), &fv(&[2.0]), F(0.05)).unwrap();
        assert!(loss.0 <= prev);
        prev = loss.0;
    }
    // And it actually learned: the loss has shrunk to (numerically) nothing.
    assert!(prev < 1e-8);
}

#[test]
fn training_deterministic_with_identical_setup() {
    let build = || {
        let mut rng = FixedSampler::new(vec![0.5]);
        let blueprints = vec![
            bp(3, Some(0.1), Some(vec![vec![0.3, -0.2], vec![0.15, 0.4], vec![-0.5, 0.05]]), Some(Activation::Sigmoid)),
            bp(1, Some(-0.2), Some(vec![vec![0.7, -0.3, 0.2]]), Some(Activation::Elu)),
        ];
        Network::new(2, blueprints, &mut rng).unwrap()
    };
    let mut a = build();
    let mut b = build();
    let examples = [([0.0, 1.0], [1.0]), ([1.0, 0.0], [0.0]), ([1.0, 1.0], [1.0])];
    for _ in 0..50 {
        for (input, target) in examples.iter() {
            let la = a.train(&fv(input), &fv(target), F(0.2)).unwrap();
            let lb = b.train(&fv(input), &fv(target), F(0.2)).unwrap();
            assert_eq!(la, lb);
        }
    }
    for (la, lb) in a.layers.iter().zip(b.layers.iter()) {
        assert_eq!(la.weights, lb.weights);
        assert_eq!(la.bias, lb.bias);
    }
}

#[test]
fn default_initialization_draws_width_scaled_weights() {
    // With a sampler that always returns the unit midpoint, every generated
    // weight is the middle of [-v, v), i.e. exactly 0, and the default bias
    // is the raw sample.
    let mut rng = FixedSampler::new(vec![0.5]);
    let blueprints = vec![bp(2, None, None, None)];
    let net = Network::new(3, blueprints, &mut rng).unwrap();
    assert_eq!(net.layers[0].weights, vec![fv(&[0.0, 0.0, 0.0]), fv(&[0.0, 0.0, 0.0])]);
    assert_eq!(net.layers[0].bias, F(0.5));
}

#[test]
fn empty_blueprint_list_builds_empty_network() {
    let mut rng = FixedSampler::new(vec![0.5]);
    let net = Network::<F>::new(3, vec![], &mut rng).unwrap();
    assert_eq!(net.layers.len(), 0);
}

#[test]
fn layer_new_checks_every_row() {
    let mut rng = FixedSampler::new(vec![0.5]);
    // Second row too short.
    let r = Layer::new(
        2,
        2,
        Some(F(0.0)),
        Some(vec![fv(&[1.0, 2.0]), fv(&[3.0])]),
        Activation::Relu,
        &mut rng,
    );
    assert!(matches!(r, Err(Error::ShapeMismatch)));
}
