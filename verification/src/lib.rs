//! A minimal feedforward neural network trainer.
//!
//! The network is generic over its scalar type: arithmetic is a capability
//! supplied by the caller through the [`num::Num`] trait, and randomness for
//! default weight initialization comes from an injected [`num::Sampler`].
//! Both traits name their operations at the specification level, so the
//! contracts here pin the whole computation — layer shapes, blueprint
//! validation, every forward-pass sum, the backpropagated deltas and the
//! exact weight updates — as terms over those named operations, for any
//! scalar representation the caller chooses. What the operations themselves
//! compute (for instance, floating point) stays the caller's choice and is
//! outside what is verified.

pub mod activators;
pub mod layer;
pub mod network;
pub mod num;
