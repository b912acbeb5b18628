//! Grid trading engine: fixed-point order arithmetic, ladder construction,
//! balance-gated order submission and the reinvestment monitor.

pub mod balance;
pub mod config;
pub mod decimal;
pub mod gateway;
pub mod ladder;
pub mod launch;
pub mod lot;
pub mod mirror;
pub mod monitor;
pub mod order;
pub mod plan;
pub mod settings;
pub mod signing;
pub mod submit;
pub mod text;
