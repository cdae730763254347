//! Integer purchase planning for rebalancing a portfolio toward target
//! allocations.
//!
//! The pipeline is: validate a portfolio configuration, build an exact
//! integer optimization model from it, hand the model to an external
//! mixed-integer solver, and extract a purchase plan from the solver's
//! assignment. Every quantity is quantized to thousandths, so the whole
//! core works in exact integer arithmetic.

pub mod decimal;
pub mod model;
pub mod plan;
pub mod portfolio;
