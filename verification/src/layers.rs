//! The stages that a network is made of.
pub mod activation_layer;
pub mod any_layer;
pub mod convolution_layer;
pub mod dense_layer;
pub mod flatten_layer;
pub mod layer_interface;
