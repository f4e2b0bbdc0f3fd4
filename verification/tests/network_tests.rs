use axis::matrix::Matrix;
use axis::numeric::{Numeric, Real};
use axis::random_provider::RandomSource;
use axis::{Activation, AxisError, Dense, Loss, MultiLayerPerceptron, Optimizer, Shape, Tensor};

/// A 32-bit float scalar for the library's numeric traits; the trait
/// methods are exactly the float operations the formulas name.
#[derive(Clone, Copy, Debug, PartialEq)]
struct F(f32);

impl Numeric for F {
    // The spec-level descriptions of the same operations: the verifier
    // reads these for verified instances; at runtime they are inert.
    fn zero_spec() -> F {
        F(0.0)
    }
    fn one_spec() -> F {
        F(1.0)
    }
    fn add_spec(self, other: F) -> F {
        F(self.0 + other.0)
    }
    fn sub_spec(self, other: F) -> F {
        F(self.0 - other.0)
    }
    fn mul_spec(self, other: F) -> F {
        F(self.0 * other.0)
    }
    fn div_spec(self, other: F) -> F {
        F(self.0 / other.0)
    }
    fn neg_spec(self) -> F {
        F(-self.0)
    }
    fn abs_spec(self) -> F {
        F(self.0.abs())
    }
    fn double_spec(self) -> F {
        F(2.0 * self.0)
    }
    fn half_spec(self) -> F {
        F(0.5 * self.0)
    }
    fn lt_spec(self, other: F) -> bool {
        self.0 < other.0
    }
    fn le_spec(self, other: F) -> bool {
        self.0 <= other.0
    }
    fn max_spec(self, other: F) -> F {
        F(self.0.max(other.0))
    }
    fn zero() -> F {
        F(0.0)
    }
    fn one() -> F {
        F(1.0)
    }
    fn add(self, other: F) -> F {
        F(self.0 + other.0)
    }
    fn sub(self, other: F) -> F {
        F(self.0 - other.0)
    }
    fn mul(self, other: F) -> F {
        F(self.0 * other.0)
    }
    fn div(self, other: F) -> F {
        F(self.0 / other.0)
    }
    fn neg(self) -> F {
        F(-self.0)
    }
    fn abs(self) -> F {
        F(self.0.abs())
    }
    fn double(self) -> F {
        F(2.0 * self.0)
    }
    fn half(self) -> F {
        F(0.5 * self.0)
    }
    fn lt(self, other: F) -> bool {
        self.0 < other.0
    }
    fn le(self, other: F) -> bool {
        self.0 <= other.0
    }
    fn max_with(self, other: F) -> F {
        F(self.0.max(other.0))
    }
    fn rand_range(lo: F, hi: F, source: &mut RandomSource) -> F {
        if lo.0 < hi.0 {
            let frac = (source.next_u64() % 1_000_000) as f32 / 1_000_000.0;
            let v = lo.0 + frac * (hi.0 - lo.0);
            // Rounding must not push the draw onto the excluded upper end.
            F(if v < hi.0 { v } else { lo.0 })
        } else {
            lo
        }
    }
}

impl Real for F {
    fn exp_spec(self) -> F {
        F(self.0.exp())
    }
    fn ln_spec(self) -> F {
        F(self.0.ln())
    }
    fn tanh_spec(self) -> F {
        F(self.0.tanh())
    }
    fn small_slope_spec() -> F {
        F(0.01)
    }
    fn clamp_spec(self) -> F {
        if self.0.is_nan() {
            F(0.0)
        } else {
            F(self.0.clamp(-1e10, 1e10))
        }
    }
    fn exp(self) -> F {
        F(self.0.exp())
    }
    fn ln(self) -> F {
        F(self.0.ln())
    }
    fn tanh(self) -> F {
        F(self.0.tanh())
    }
    fn small_slope() -> F {
        F(0.01)
    }
    fn clamp_finite(self) -> F {
        if self.0.is_nan() {
            F(0.0)
        } else {
            F(self.0.clamp(-1e10, 1e10))
        }
    }
}

#[test]
fn test_matrix_shape() {
    let matrix = Matrix::<F>::new((2, 2));
    assert_eq!(matrix.shape(), (2, 2));
}

#[test]
fn test_tensor_new() {
    let tensor = Tensor::<F>::new(Shape::new(vec![2, 3, 4]));
    assert_eq!(tensor.shape.dims, vec![2, 3, 4]);
    assert_eq!(tensor.data.len(), 24);
    assert_eq!(tensor.strides, vec![12, 4, 1]);
}

#[test]
fn test_tensor_indexing() {
    let mut tensor = Tensor::<F>::new(Shape::new(vec![2, 3]));
    tensor.set2(0, 0, F(1.0));
    tensor.set2(1, 2, F(2.0));

    assert_eq!(tensor.get2(0, 0), F(1.0));
    assert_eq!(tensor.get2(1, 2), F(2.0));

    tensor.set2(0, 1, F(3.0));
    assert_eq!(tensor.get2(0, 1), F(3.0));

    let mut tensor_two = Tensor::<F>::new(Shape::new(vec![2, 3, 4]));
    tensor_two.set3(0, 0, 0, F(1.0));
    tensor_two.set3(1, 2, 3, F(2.0));
    assert_eq!(tensor_two.get3(0, 0, 0), F(1.0));
    assert_eq!(tensor_two.get3(1, 2, 3), F(2.0));
    tensor_two.set3(0, 1, 2, F(3.0));
    assert_eq!(tensor_two.get3(0, 1, 2), F(3.0));
}

#[test]
fn test_dense() {
    let mut source = RandomSource::from_seed(42);

    let mut dense = Dense::new((2, 2), Activation::ReLU, &mut source);
    let input = Matrix::from_rows(vec![vec![F(1.0), F(2.0)]]).unwrap();
    let output = dense.feed_forward(&input).unwrap();

    assert_eq!(output.shape(), (1, 2));
}

#[test]
fn activation_values() {
    let a = Activation::Sigmoid.activate(F(0.0));
    assert!((a.0 - 0.5).abs() < 1e-6);
    assert_eq!(Activation::ReLU.activate(F(-1.0)), F(0.0));
    assert_eq!(Activation::ReLU.activate(F(2.0)), F(2.0));
    assert!((Activation::LeakyReLU.activate(F(-1.0)).0 + 0.01).abs() < 1e-6);
    assert_eq!(Activation::Tanh.activate(F(0.0)), F(0.0));
    assert_eq!(Activation::Linear.activate(F(3.5)), F(3.5));
    // The working band: huge values are clamped, NaN goes to zero.
    assert_eq!(Activation::Linear.activate(F(1e20)), F(1e10));
    assert_eq!(Activation::Linear.activate(F(f32::NAN)), F(0.0));
    // Softmax here is elementwise: e^x / (1 + e^x), the sigmoid curve.
    let s = Activation::Softmax.activate(F(0.0));
    assert!((s.0 - 0.5).abs() < 1e-6);
}

#[test]
fn deactivation_values() {
    assert!((Activation::Sigmoid.deactivate(F(0.5)).0 - 0.25).abs() < 1e-6);
    assert_eq!(Activation::ReLU.deactivate(F(2.0)), F(1.0));
    assert_eq!(Activation::ReLU.deactivate(F(-1.0)), F(0.0));
    assert_eq!(Activation::LeakyReLU.deactivate(F(2.0)), F(1.0));
    assert_eq!(Activation::LeakyReLU.deactivate(F(-1.0)), F(0.01));
    assert!((Activation::Tanh.deactivate(F(0.5)).0 - 0.75).abs() < 1e-6);
    assert_eq!(Activation::Linear.deactivate(F(9.0)), F(1.0));
    // The elementwise softmax is the sigmoid curve, so its output-based
    // derivative is the same y * (1 - y).
    assert!((Activation::Softmax.deactivate(F(0.5)).0 - 0.25).abs() < 1e-6);
}

#[test]
fn sigmoid_derivative_matches_closed_form() {
    for x in [-3.0f32, -1.0, -0.25, 0.0, 0.5, 1.0, 2.5] {
        let activated = Activation::Sigmoid.activate(F(x));
        let derivative = Activation::Sigmoid.deactivate(activated);
        let sigma = 1.0 / (1.0 + (-x).exp());
        let expected = sigma * (1.0 - sigma);
        assert!((derivative.0 - expected).abs() < 1e-6);
    }
}

#[test]
fn loss_values() {
    let one = vec![F(1.0)];
    let half = vec![F(0.5)];
    let two = vec![F(2.0)];
    let zero = vec![F(0.0)];
    let three = vec![F(3.0)];

    // MSE is gradient-shaped: 2 * (prediction - target).
    assert_eq!(Loss::MSE.apply(&one, &two).unwrap(), vec![F(2.0)]);
    let ce = Loss::CrossEntropy.apply(&one, &half).unwrap();
    assert!((ce[0].0 - 0.6931472).abs() < 1e-5);
    let bce = Loss::BinaryCrossEntropy.apply(&one, &half).unwrap();
    assert!((bce[0].0 - 0.6931472).abs() < 1e-5);
    assert_eq!(Loss::Difference.apply(&one, &two).unwrap(), vec![F(1.0)]);
    assert_eq!(Loss::Hinge.apply(&one, &half).unwrap(), vec![F(0.5)]);
    assert_eq!(Loss::Huber.apply(&zero, &half).unwrap(), vec![F(0.125)]);
    assert_eq!(Loss::Huber.apply(&zero, &three).unwrap(), vec![F(2.5)]);
}

#[test]
fn loss_length_mismatch_fails() {
    let t = vec![F(1.0), F(2.0)];
    let p = vec![F(1.0)];
    assert_eq!(Loss::MSE.apply(&t, &p).unwrap_err(), AxisError::ShapeMismatch);
}

#[test]
fn sgd_update_subtracts_scaled_gradient() {
    let mut weights = Matrix::from(vec![F(1.0), F(2.0)]);
    let mut gradients = Matrix::from(vec![F(0.5), F(1.0)]);
    let optimizer = Optimizer::SGD(F(0.1));
    optimizer.update(&mut weights, &mut gradients).unwrap();
    assert!((weights.get(0, 0).unwrap().0 - 0.95).abs() < 1e-6);
    assert!((weights.get(0, 1).unwrap().0 - 1.9).abs() < 1e-6);
    // The optimizer clears no state: the gradient buffer is untouched;
    // resetting it is the layer's separate step.
    assert_eq!(gradients.get(0, 0), Ok(F(0.5)));
    assert_eq!(gradients.get(0, 1), Ok(F(1.0)));
}

#[test]
fn adam_is_unimplemented() {
    let mut weights = Matrix::from(vec![F(1.0)]);
    let mut gradients = Matrix::from(vec![F(0.5)]);
    let optimizer = Optimizer::Adam {
        learning_rate: F(0.1),
        beta1: F(0.9),
        beta2: F(0.999),
        epsilon: F(1e-8),
    };
    assert_eq!(
        optimizer.update(&mut weights, &mut gradients).unwrap_err(),
        AxisError::UnimplementedOptimizer
    );
    assert_eq!(weights.get(0, 0), Ok(F(1.0)));
}

#[test]
fn backpropagate_without_forward_fails() {
    let mut source = RandomSource::from_seed(1);
    let mut dense = Dense::new((2, 2), Activation::Sigmoid, &mut source);
    let error = Matrix::from(vec![F(0.1), F(0.2)]);
    assert_eq!(dense.backpropagate(&error).unwrap_err(), AxisError::EmptyQueue);

    let input = Matrix::from(vec![F(1.0), F(2.0)]);
    dense.feed_forward(&input).unwrap();
    assert!(dense.backpropagate(&error).is_ok());
    // The one pending pass is consumed; a second backward pass fails again.
    assert_eq!(dense.backpropagate(&error).unwrap_err(), AxisError::EmptyQueue);
}

#[test]
fn feed_forward_shape_mismatch_fails() {
    let mut source = RandomSource::from_seed(1);
    let mut dense = Dense::new((2, 2), Activation::Sigmoid, &mut source);
    let wide = Matrix::from(vec![F(1.0), F(2.0), F(3.0)]);
    assert_eq!(dense.feed_forward(&wide).unwrap_err(), AxisError::ShapeMismatch);
}

#[test]
fn predict_is_repeatable_and_side_effect_free() {
    let mut source = RandomSource::from_seed(5);
    let network = MultiLayerPerceptron::new()
        .layer(Dense::new((2, 4), Activation::Sigmoid, &mut source))
        .layer(Dense::new((4, 1), Activation::Sigmoid, &mut source));
    let input = Matrix::from(vec![F(0.3), F(0.7)]);
    let first = network.predict(&input).unwrap();
    let second = network.predict(&input).unwrap();
    assert_eq!(first, second);
}

#[test]
fn predict_shape_mismatch_fails() {
    let mut source = RandomSource::from_seed(5);
    let network = MultiLayerPerceptron::new()
        .layer(Dense::new((2, 4), Activation::Sigmoid, &mut source));
    let input = Matrix::from(vec![F(0.3)]);
    assert_eq!(network.predict(&input).unwrap_err(), AxisError::ShapeMismatch);
}

#[test]
fn fit_with_adam_fails() {
    let mut source = RandomSource::from_seed(5);
    let mut network = MultiLayerPerceptron::new()
        .layer(Dense::new((2, 1), Activation::Sigmoid, &mut source));
    let inputs = vec![Matrix::from(vec![F(0.0), F(1.0)])];
    let targets = vec![Matrix::from(vec![F(1.0)])];
    let optimizer = Optimizer::Adam {
        learning_rate: F(0.1),
        beta1: F(0.9),
        beta2: F(0.999),
        epsilon: F(1e-8),
    };
    assert_eq!(
        network.fit(&inputs, &targets, &optimizer, &Loss::MSE).unwrap_err(),
        AxisError::UnimplementedOptimizer
    );
}

#[test]
fn fit_with_bad_target_fails() {
    let mut source = RandomSource::from_seed(5);
    let mut network = MultiLayerPerceptron::new()
        .layer(Dense::new((2, 1), Activation::Sigmoid, &mut source));
    let inputs = vec![Matrix::from(vec![F(0.0), F(1.0)])];
    let targets = vec![Matrix::from(vec![F(1.0), F(2.0)])];
    let optimizer = Optimizer::SGD(F(0.1));
    assert_eq!(
        network.fit(&inputs, &targets, &optimizer, &Loss::MSE).unwrap_err(),
        AxisError::ShapeMismatch
    );
}

#[test]
fn xor_training_converges() {
    let mut source = RandomSource::from_seed(402);
    let mut network = MultiLayerPerceptron::new()
        .layer(Dense::new((2, 16), Activation::Sigmoid, &mut source))
        .layer(Dense::new((16, 16), Activation::Sigmoid, &mut source))
        .layer(Dense::new((16, 1), Activation::Sigmoid, &mut source));

    let rows = [
        ([0.0f32, 0.0], 0.0f32),
        ([0.0, 1.0], 1.0),
        ([1.0, 0.0], 1.0),
        ([1.0, 1.0], 0.0),
    ];
    let optimizer = Optimizer::SGD(F(0.5));
    let loss = Loss::MSE;

    for _ in 0..1500 {
        for (x, y) in rows.iter() {
            let inputs = vec![Matrix::from(vec![F(x[0]), F(x[1])])];
            let targets = vec![Matrix::from(vec![F(*y)])];
            network.fit(&inputs, &targets, &optimizer, &loss).unwrap();
        }
    }

    let mut close = 0;
    for (x, y) in rows.iter() {
        let input = Matrix::from(vec![F(x[0]), F(x[1])]);
        let out = network.predict(&input).unwrap();
        if (out.get(0, 0).unwrap().0 - y).abs() < 0.1 {
            close += 1;
        }
    }
    assert!(close >= 3, "only {} of 4 rows converged", close);
}
