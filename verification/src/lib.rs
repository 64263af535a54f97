//! Reconstruction of per-CPU state timelines from scheduler and interrupt
//! tracepoint samples.

pub mod byte_order;
pub mod engine;
pub mod error;
pub mod parsers;
pub mod statemap;
pub mod text;
pub mod tracepoints;
pub mod types;
