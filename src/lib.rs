mod arith;
pub mod config;
pub mod contract;
pub mod errors;
pub mod helpers;
pub mod liquidity;
pub mod swap;
