//! A single dense layer of neurons: forward pass, mean squared error, a simple
//! per-neuron gradient with its update step, and random initializers.
//!
//! The library is generic over the scalar type. The arithmetic on scalars (the
//! multiply-accumulate of the forward pass, the activation, the squared error, the
//! mean, subtraction and multiplication) is handed in by the caller as closures,
//! and the contracts state each result in terms of what those closures return.
use vstd::prelude::*;

pub mod error;
pub mod gradient;
pub mod init;
pub mod layer;
pub mod loss;

verus! {

} // verus!
