//! A verified dense-matrix engine and multilayer feedforward network trainer.
//!
//! Every scalar is carried as the bit pattern of an IEEE-754 binary64 value;
//! the arithmetic itself is done by a software floating-point crate behind
//! trusted wrappers, and all shape discipline, indexing, and the structure of
//! every computed value are verified.

pub mod scalar;
pub mod vector2d;
pub mod activation;
pub mod loss;
pub mod network;
