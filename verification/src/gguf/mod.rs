//! Configurations for standalone GGUF files.
pub mod gemma4;
pub mod glimmer;
pub mod laws;
pub mod messages;
pub mod multimodal;
pub mod qwen35;
pub mod reasons;
pub mod shapes;
pub mod value;
