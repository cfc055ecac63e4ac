//! Automated trading on signals: order execution against a simulated
//! exchange, per-user authorization and risk limits, positions and
//! portfolio valuation, and dollar-cost-averaging strategies.

pub mod env;
pub mod errors;
pub mod strategies;
pub mod types;
pub mod auth;
pub mod sdex;
pub mod storage;
pub mod risk;
pub mod contract;
pub mod laws;
pub mod fixtures;
