//! Typed errors for every failure the engine layer can report.
//!
//! Raw status codes and null returns from the engine are translated at each
//! call site into one of these types; nothing is thrown and nothing is
//! silently ignored.

use vstd::prelude::*;

verus! {

/// Backend (process-wide engine state) initialization failure.
#[derive(Clone, Debug, PartialEq, Eq, Structural)]
pub enum BackendError {
    /// A backend is already live; the engine is initialized once per process.
    AlreadyInitialized,
}

/// Failure to release an engine resource.
#[derive(Clone, Debug, PartialEq, Eq, Structural)]
pub enum FreeError {
    /// The handle does not name a live resource (for example, it was already
    /// freed).
    NotLive,
    /// Live resources still depend on this one (for example, a context built
    /// from a model that is being freed).
    DependentsLive,
}

/// Model or projector load failure.
#[derive(Clone, Debug, PartialEq, Eq)]
pub enum LoadError {
    /// The weights file is missing or unreadable.
    FileNotFound { path: String },
    /// A key/value override names a key the engine does not recognize.
    BadOverride { key: String },
}

/// Context construction failure.
#[derive(Clone, Debug, PartialEq, Eq, Structural)]
pub enum ContextError {
    /// The engine cannot allocate the requested context window.
    WindowTooLarge { requested: u32, max: u32 },
}

/// Batch overflow: an `add` would exceed the capacity fixed at construction.
#[derive(Clone, Debug, PartialEq, Eq, Structural)]
pub struct CapacityError {
    /// The capacity the batch was built with.
    pub capacity: usize,
    /// The number of entries the batch would hold after the failed `add`.
    pub requested: usize,
}

/// Batch construction or fill failure.
#[derive(Clone, Debug, PartialEq, Eq, Structural)]
pub enum BatchAddError {
    /// The entry about to be added would exceed the configured capacity.
    Capacity(CapacityError),
    /// A batch cannot be built from an empty token slice.
    EmptyBuffer,
}

/// Native decode failure: the batch does not fit in what is left of the
/// context window, or the batch is empty.
#[derive(Clone, Debug, PartialEq, Eq, Structural)]
pub struct DecodeError {
    /// Number of entries in the rejected batch.
    pub batch_size: usize,
    /// Tokens of context window still unoccupied when the batch was rejected.
    pub context_window_remaining: u32,
}

/// Tokenization failure: the input text cannot be passed to the engine.
#[derive(Clone, Debug, PartialEq, Eq, Structural)]
pub struct TokenizeError {
    /// Byte offset of the first interior NUL byte in the input text.
    pub nul_position: usize,
}

/// A token id outside the model's vocabulary.
#[derive(Clone, Debug, PartialEq, Eq, Structural)]
pub struct InvalidTokenError {
    /// The offending token id.
    pub id: i32,
    /// The vocabulary size it was checked against.
    pub n_vocab: i32,
}

/// Image load/convert failure.
#[derive(Clone, Debug, PartialEq, Eq)]
pub enum ImageError {
    /// The image file is missing, unreadable, or not a supported encoding.
    FileNotFound { path: String },
}

/// Reading logits at a position the originating batch did not mark.
#[derive(Clone, Debug, PartialEq, Eq, Structural)]
pub struct LogitsError {
    /// The batch-relative position whose logits were requested.
    pub position: usize,
}

/// Malformed `key=value` override text.
#[derive(Clone, Debug, PartialEq, Eq)]
pub enum ConfigError {
    /// No `=` separator in the override.
    NoEquals { input: String },
    /// The value is not an integer, float, or boolean literal.
    BadValue { input: String },
}

/// Prompt evaluation failure: tokenizing the text or decoding the batches.
#[derive(Clone, Debug, PartialEq, Eq, Structural)]
pub enum EvalError {
    Tokenize(TokenizeError),
    Decode(DecodeError),
}

} // verus!
