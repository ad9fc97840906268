//! Decision core of a scheduled health probe: the health verdict of one
//! observation, the rule that tells a reportable change of health from noise,
//! and the record that is kept of the last reportable change.

pub mod config;
pub mod deployment;
pub mod email;
pub mod evaluator;
pub mod invocation;
pub mod status;
pub mod store;
pub mod time;
