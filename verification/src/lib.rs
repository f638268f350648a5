//! A small supervised-learning toolkit built around a multi-layer perceptron
//! with bias units, trained by backpropagation and gradient descent.
//!
//! All quantities are fixed-point numbers: an `i64` raw value `x` stands for
//! the real number `x / SCALE`. Every arithmetic step saturates into
//! `[-CAP, CAP]`, so the whole engine is free of overflow and panics.

pub mod backward;
pub mod errors;
pub mod fixed;
pub mod forward;
pub mod matrix;
pub mod model;
pub mod network;
pub mod orchestrator;
pub mod pool;
pub mod random;
pub mod update;
