//! A minimal feed-forward neural network evaluator.
//!
//! The crate is organised leaves-first: [`vec2d`] holds the flat row-major
//! matrix container, [`scalar`] the abstract numeric domain together with the
//! activation selector, and [`neural_net`] the layer and network types that
//! chain matrix-vector passes into a forward evaluation.

pub mod error;
pub mod neural_net;
pub mod scalar;
pub mod vec2d;
