//! A discrete-frame simulator core for serverless platforms: function DAGs and the
//! store that owns them, containers and their cold-start state machine, the HPA
//! scale-number policy and the mechanism that composes policies from configuration.
//!
//! Quantities that are real numbers in the model (CPU, memory, data volumes, rates)
//! are fixed-point integers in units of `fn_dag::SCALE` (10^-5).
use vstd::prelude::*;

pub mod container;
pub mod fn_dag;
pub mod graph;
pub mod hpa;
pub mod mechanism;
pub mod rand;
pub mod sim_env;
pub mod up_exec;

verus! {

} // verus!
