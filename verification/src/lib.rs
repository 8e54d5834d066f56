//! Safety and orchestration layer for driving a batched large-model inference
//! engine: ownership-tracked handles (backend, model, context, sampler, image
//! embedder), fixed-capacity decode batches, deterministic sampler chains,
//! incremental UTF-8 reconstruction of streamed token bytes, and the
//! sequential generation loop.

pub mod backend;
pub mod buildcfg;
pub mod batch;
pub mod config;
pub mod context;
pub mod eval;
pub mod generate;
pub mod engine;
pub mod errors;
pub mod llava;
pub mod model;
pub mod params;
pub mod sampler;
pub mod session;
pub mod token;
pub mod utf8;
