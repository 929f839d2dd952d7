//! Off-chain encoder for batched, dynamically patchable transactions aimed at
//! an on-chain executor contract.
//!
//! The executor accepts an ordered list of sub-calls, each carrying a target
//! address, a native-value amount, call data, and a 32-byte context value used
//! to authorize reentrant callbacks.  This crate builds those payloads
//! byte-exactly: the context packing, the two call-instruction encodings (with
//! and without placeholders), the batch envelope, the callback-data
//! convention, and the fixed-point fee math.

pub mod abi;
pub mod context;
pub mod decode;
pub mod encoder;
pub mod keccak;
pub mod math;
pub mod protocols;
pub mod types;
pub mod u256;

pub use context::encode_context;
pub use encoder::{encode_callback_data, ExecutorEncoder};
pub use types::{Address, AssetRequest, CallbackContext, EncodedExec, MarketParams,
    Placeholder, Uint256};

