//! Qwen3-Next: a stack of linear-attention layers with full attention at
//! intervals, and a head that predicts several tokens.
pub mod attention;
pub mod capture;
pub mod commit;
pub mod config;
pub mod draft;
pub mod forward;
pub mod graph_state;
pub mod heads;
pub mod model;
pub mod moe;
pub mod mtp;
pub mod packed;
pub mod packed_forward;
pub mod prefill;
pub mod recurrent;
pub mod rollback;
pub mod slots;
pub mod spec_graph;
pub mod store;
pub mod transitions;
