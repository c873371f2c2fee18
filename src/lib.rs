//! Reaction-network trajectory sampling with learned transition weights.
//!
//! The verified part of the library covers the discrete side of the sampler:
//! the network model, transition eligibility and application, the stop rule,
//! the exact per-step rate score, the step-by-step trajectory builder, and the
//! occurrence counts that drive the weight update.
pub mod model;
pub mod network;
pub mod scoring;
pub mod sampler;
pub mod update;
