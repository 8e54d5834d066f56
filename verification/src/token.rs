//! The vocabulary token value type and conversions between token vectors and
//! raw engine token-id vectors.

use vstd::prelude::*;

verus! {

/// A vocabulary token: an opaque index into a model's vocabulary.
///
/// Equality, ordering and hashing are value-based; the engine represents a
/// token as a plain 32-bit id.
#[derive(Copy, Clone, Debug, Eq, PartialEq, Structural)]
pub struct LlamaToken(pub i32);

impl LlamaToken {
    /// Create a new `LlamaToken` from an i32 vocabulary id.
    #[must_use]
    pub fn new(token_id: i32) -> (t: Self)
        ensures
            t.0 == token_id,
    {
        Self(token_id)
    }
}

/// Convert a vector of raw engine token ids into a vector of `LlamaToken`,
/// consuming the original vector.
pub fn from_vec_token_sys(vec_sys: Vec<i32>) -> (r: Vec<LlamaToken>)
    ensures
        r@.len() == vec_sys@.len(),
        forall|i: int| 0 <= i < r@.len() ==> r@[i].0 == vec_sys@[i],
{
    let mut out: Vec<LlamaToken> = Vec::new();
    let mut i: usize = 0;
    while i < vec_sys.len()
        invariant
            i <= vec_sys@.len(),
            out@.len() == i,
            forall|j: int| 0 <= j < i ==> out@[j].0 == vec_sys@[j],
        decreases vec_sys@.len() - i,
    {
        out.push(LlamaToken(vec_sys[i]));
        i = i + 1;
    }
    out
}

/// Convert a vector of `LlamaToken` into a vector of raw engine token ids,
/// consuming the original vector.
pub fn to_vec_token_sys(vec_llama: Vec<LlamaToken>) -> (r: Vec<i32>)
    ensures
        r@.len() == vec_llama@.len(),
        forall|i: int| 0 <= i < r@.len() ==> r@[i] == vec_llama@[i].0,
{
    let mut out: Vec<i32> = Vec::new();
    let mut i: usize = 0;
    while i < vec_llama.len()
        invariant
            i <= vec_llama@.len(),
            out@.len() == i,
            forall|j: int| 0 <= j < i ==> out@[j] == vec_llama@[j].0,
        decreases vec_llama@.len() - i,
    {
        out.push(vec_llama[i].0);
        i = i + 1;
    }
    out
}

} // verus!
