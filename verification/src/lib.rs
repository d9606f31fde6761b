//! Counting trades that execute strictly inside the bid/ask spread in
//! effect at their timestamp: a single-pass causal join of a quote stream
//! and a trade stream.

pub mod text;
pub mod causal;
pub mod configuration;
pub mod data;
pub mod engine;
pub mod matcher;
pub mod price;
pub mod timestamp;
