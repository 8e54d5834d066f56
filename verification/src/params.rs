//! Configuration objects for loading models and creating contexts, and the
//! typed values a key/value model override can carry.

use vstd::prelude::*;

verus! {

/// A typed value for a model parameter override.
///
/// A floating-point override is carried as its decimal literal text: this
/// layer validates and routes the override, and the engine parses the number
/// at the point of use.
#[derive(Clone, Debug, PartialEq, Eq)]
pub enum ParamOverrideValue {
    Int(i64),
    Float(String),
    Bool(bool),
}

/// Options applied when loading model weights.
#[derive(Debug)]
pub struct LlamaModelParams {
    /// Number of layers to offload to the GPU.
    pub n_gpu_layers: u32,
    /// Key/value overrides applied before the load, in order.
    pub kv_overrides: Vec<(String, ParamOverrideValue)>,
}

impl LlamaModelParams {
    /// Set the number of GPU-offloaded layers.
    #[must_use]
    pub fn with_n_gpu_layers(self, n_gpu_layers: u32) -> (p: Self)
        ensures
            p.n_gpu_layers == n_gpu_layers,
            p.kv_overrides == self.kv_overrides,
    {
        LlamaModelParams { n_gpu_layers, ..self }
    }

    /// Append one key/value override, applied before any added later.
    pub fn append_kv_override(&mut self, key: String, value: ParamOverrideValue)
        ensures
            final(self).kv_overrides@ == old(self).kv_overrides@.push((key, value)),
            final(self).n_gpu_layers == old(self).n_gpu_layers,
    {
        self.kv_overrides.push((key, value));
    }
}

impl Default for LlamaModelParams {
    /// No GPU offload and no overrides.
    fn default() -> (p: Self)
        ensures
            p.n_gpu_layers == 0,
            p.kv_overrides@.len() == 0,
    {
        LlamaModelParams { n_gpu_layers: 0, kv_overrides: Vec::new() }
    }
}

/// Options applied when creating a context from a model.
#[derive(Clone, Debug)]
pub struct LlamaContextParams {
    /// Requested context window, in tokens; always at least 1.
    pub n_ctx: u32,
    /// Threads used for single-token decoding.
    pub n_threads: i32,
    /// Threads used for batched prompt processing.
    pub n_threads_batch: i32,
    /// Disable the engine's performance counters.
    pub no_perf: bool,
}

impl LlamaContextParams {
    /// The params invariant: a context window cannot be empty.
    pub open spec fn wf(self) -> bool {
        self.n_ctx >= 1
    }

    /// Set the context window size, in tokens.
    #[must_use]
    pub fn with_n_ctx(self, n_ctx: u32) -> (p: Self)
        requires
            n_ctx >= 1,
        ensures
            p.wf(),
            p.n_ctx == n_ctx,
            p.n_threads == self.n_threads,
            p.n_threads_batch == self.n_threads_batch,
            p.no_perf == self.no_perf,
    {
        LlamaContextParams { n_ctx, ..self }
    }

    /// Set the decode thread count.
    #[must_use]
    pub fn with_n_threads(self, n_threads: i32) -> (p: Self)
        ensures
            p.n_ctx == self.n_ctx,
            p.n_threads == n_threads,
            p.n_threads_batch == self.n_threads_batch,
            p.no_perf == self.no_perf,
    {
        LlamaContextParams { n_threads, ..self }
    }

    /// Set the batched prompt-processing thread count.
    #[must_use]
    pub fn with_n_threads_batch(self, n_threads_batch: i32) -> (p: Self)
        ensures
            p.n_ctx == self.n_ctx,
            p.n_threads == self.n_threads,
            p.n_threads_batch == n_threads_batch,
            p.no_perf == self.no_perf,
    {
        LlamaContextParams { n_threads_batch, ..self }
    }

    /// Disable (or re-enable) the performance counters.
    #[must_use]
    pub fn with_no_perf(self, no_perf: bool) -> (p: Self)
        ensures
            p.n_ctx == self.n_ctx,
            p.n_threads == self.n_threads,
            p.n_threads_batch == self.n_threads_batch,
            p.no_perf == no_perf,
    {
        LlamaContextParams { no_perf, ..self }
    }
}

impl Default for LlamaContextParams {
    /// A 512-token window, 4 threads for both paths, counters enabled.
    fn default() -> (p: Self)
        ensures
            p.wf(),
            p.n_ctx == 512,
            p.n_threads == 4,
            p.n_threads_batch == 4,
            p.no_perf == false,
    {
        LlamaContextParams { n_ctx: 512, n_threads: 4, n_threads_batch: 4, no_perf: false }
    }
}

} // verus!
