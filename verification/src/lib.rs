pub mod arith;
pub mod cache_map;
pub mod ck_flash;
pub mod gguf;
pub mod json;
pub mod name_map;
pub mod paged;
pub mod qwen3_next;
pub mod sync;
pub mod tensor;
pub mod text;
