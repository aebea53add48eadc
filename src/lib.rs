//! Cross rates of an asset taken from the reserves of constant-product
//! liquidity pools, kept exact: a price is a quotient of token amounts and
//! nothing is rounded until a caller renders it.

pub mod amount;
pub mod reserves;
pub mod price;
pub mod laws;
pub mod chain;
pub mod config;

