//! A small dense-matrix and feed-forward neural-network library.
//!
//! The numeric element type is abstract: matrices, activations, losses and
//! layers are generic over the [`numeric::Numeric`] and [`numeric::Real`]
//! traits, which fix the meaning of every scalar operation through spec
//! functions. The crate ships verified instances for `i32` and for the
//! fixed-point type [`fixed::Fix`]; callers may supply their own.

pub mod activation;
pub mod dense;
pub mod error;
pub mod fixed;
pub mod loss;
pub mod matrix;
pub mod numeric;
pub mod optimizer;
pub mod perceptron;
pub mod random_provider;
pub mod shape;
pub mod tensor;

pub use activation::Activation;
pub use dense::Dense;
pub use error::AxisError;
pub use loss::Loss;
pub use matrix::Matrix;
pub use optimizer::Optimizer;
pub use perceptron::MultiLayerPerceptron;
pub use shape::Shape;
pub use tensor::Tensor;
