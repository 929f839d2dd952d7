//! Per-protocol call builders: each encodes one fixed, publicly documented
//! function signature and hands the bytes to the batch builder.

pub mod aave;
pub mod compound;
pub mod erc20;
pub mod erc20_wrapper;
pub mod erc4626;
pub mod flashloans;
pub mod morpho;
pub mod morpho_blue;
pub mod uniswap_v3;
pub mod weth;
