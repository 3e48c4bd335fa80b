//! A two-coin stableswap liquidity pool: the curve invariant, the typed store
//! the pool keeps its state in, and the operations that move liquidity.
pub mod amm;
pub mod error;
pub mod laws;
pub mod math;
pub mod message;
pub mod pool;
pub mod records;
pub mod ring_buffer;
pub mod store;
pub mod u256;
