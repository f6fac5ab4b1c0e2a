//! A small feed-forward and convolutional neural-network engine: a dense
//! matrix type with its linear algebra, layers with forward and backward
//! passes, and a network that chains them and trains by gradient descent.
pub mod activation_function;
pub mod error;
pub mod grid;
pub mod layers;
pub mod matrix;
pub mod mnist;
pub mod neural_network;
pub mod scalar;
