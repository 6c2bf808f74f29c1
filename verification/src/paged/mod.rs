//! Paged attention: what a kernel is launched with, and when it is refused.
pub mod attention;
pub mod block_write;
pub mod cache_input;
pub mod cache_write;
pub mod info;
pub mod quant;
pub mod scales;
pub mod workspace;
