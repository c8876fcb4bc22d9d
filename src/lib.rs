//! Media-transport core of an AirPlay receiver: the stream negotiation model,
//! the per-stream packet framing state machines and a region-based buffer pool.

pub mod value;
pub mod fields;
pub mod dto;
pub mod processing;
pub mod pool;
pub mod info;
