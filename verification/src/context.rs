//! The execution context: per-conversation decode state bound to one model.
//!
//! A context owns the running position (how many tokens and image patches
//! the KV-cache already holds) and the logits bookkeeping of the most recent
//! decode. Its lifetime is strictly contained in its model's: creating it
//! registers a dependency in the engine, so the model cannot be freed first.

use vstd::prelude::*;

use crate::batch::LlamaBatch;
use crate::engine::{FakeEngine, ResourceKind};
use crate::errors::{ContextError, DecodeError, FreeError, LogitsError};
use crate::model::LlamaModel;
use crate::params::LlamaContextParams;

verus! {

/// The logit value the fake engine produces at batch position `i` for
/// vocabulary entry `v` when the window already holds `n_past` tokens: a
/// deterministic value in -50..=50.
pub open spec fn spec_logit(n_past: u32, i: int, v: int) -> i32
    recommends
        i >= 0,
        v >= 0,
{
    ((n_past as int + 7 * i + 13 * v) % 101 - 50) as i32
}

/// Aggregate counters reported by a context for diagnostics.
#[derive(Copy, Clone, Debug, PartialEq, Eq, Structural)]
pub struct TimingSummary {
    /// Successful decode calls (zero when performance counters are off).
    pub decode_calls: u64,
    /// Tokens and image patches folded into the KV-cache so far.
    pub tokens_decoded: u32,
}

/// Handle to a context: the mutable decode state of one conversation.
#[derive(Debug)]
pub struct LlamaContext {
    pub id: u64,
    /// The model this context was built from.
    pub model_id: u64,
    /// Context window capacity, in tokens.
    pub n_ctx: u32,
    /// Running position: tokens and patches already in the KV-cache.
    pub n_past: u32,
    /// Vocabulary size of the model, for sizing logit vectors.
    pub n_vocab: i32,
    /// Which positions of the most recent batch kept their logits.
    pub last_batch_logits: Vec<bool>,
    /// Successful decode calls, unless performance counters are off.
    pub decode_calls: u64,
    /// Performance counters disabled.
    pub no_perf: bool,
}

impl LlamaContext {
    /// The context invariant: the running position fits the window, the
    /// last batch fit in the window, the decode counter cannot outrun the
    /// position, and the vocabulary is not empty.
    pub open spec fn wf(self) -> bool {
        &&& self.n_past <= self.n_ctx
        &&& self.last_batch_logits@.len() <= self.n_ctx
        &&& self.decode_calls <= self.n_past
        &&& self.n_vocab >= 1
    }

    /// Tokens of window capacity not yet occupied.
    pub open spec fn spec_remaining(self) -> u32 {
        (self.n_ctx - self.n_past) as u32
    }

    /// Tokens of window capacity not yet occupied (executable).
    pub fn remaining(&self) -> (n: u32)
        requires
            self.wf(),
        ensures
            n == self.spec_remaining(),
    {
        self.n_ctx - self.n_past
    }

    /// Decode one batch. Fails exactly when the batch is empty or does not
    /// fit in what is left of the window, reporting both numbers; a failed
    /// decode changes nothing. A successful decode advances the running
    /// position by the batch length and makes logits retrievable exactly at
    /// the batch positions that asked for them.
    pub fn decode(&mut self, e: &FakeEngine, batch: &LlamaBatch) -> (r: Result<(), DecodeError>)
        requires
            old(self).wf(),
            e.live_as(old(self).id, ResourceKind::Context),
            batch.wf(),
        ensures
            final(self).wf(),
            r is Ok <==> 1 <= batch.entries@.len() <= old(self).spec_remaining(),
            r matches Err(d) ==> d == (DecodeError {
                batch_size: batch.entries@.len() as usize,
                context_window_remaining: old(self).spec_remaining(),
            }) && *final(self) == *old(self),
            r is Ok ==> {
                &&& final(self).n_past == old(self).n_past + batch.entries@.len()
                &&& final(self).last_batch_logits@ == Seq::new(
                    batch.entries@.len(),
                    |i: int| batch.entries@[i].logits,
                )
                &&& final(self).decode_calls == old(self).decode_calls + (
                if old(self).no_perf {
                    0int
                } else {
                    1int
                })
                &&& final(self).id == old(self).id
                &&& final(self).model_id == old(self).model_id
                &&& final(self).n_ctx == old(self).n_ctx
                &&& final(self).n_vocab == old(self).n_vocab
                &&& final(self).no_perf == old(self).no_perf
            },
    {
        let len = batch.len();
        let rem = self.remaining();
        if len == 0 || len > rem as usize {
            return Err(
                DecodeError { batch_size: len, context_window_remaining: rem },
            );
        }
        self.n_past = self.n_past + len as u32;
        let mut flags: Vec<bool> = Vec::new();
        let mut i: usize = 0;
        while i < len
            invariant
                len == batch.entries@.len(),
                i <= len,
                flags@.len() == i,
                forall|j: int| 0 <= j < i ==> #[trigger] flags@[j] == batch.entries@[j].logits,
            decreases len - i,
        {
            flags.push(batch.entries[i].logits);
            i = i + 1;
        }
        self.last_batch_logits = flags;
        if !self.no_perf {
            self.decode_calls = self.decode_calls + 1;
        }
        proof {
            assert(self.last_batch_logits@ =~= Seq::new(
                batch.entries@.len(),
                |j: int| batch.entries@[j].logits,
            ));
        }
        Ok(())
    }

    /// Read the logits computed for batch position `i` of the most recent
    /// decode. Fails exactly when that position did not request logits (or
    /// is out of the last batch's range). The fake engine's logits are the
    /// deterministic values of `spec_logit`.
    pub fn logits_at(&self, i: usize) -> (r: Result<Vec<i32>, LogitsError>)
        requires
            self.wf(),
        ensures
            r is Ok <==> i < self.last_batch_logits@.len() && self.last_batch_logits@[i as int],
            r matches Err(err) ==> err == (LogitsError { position: i }),
            r matches Ok(v) ==> {
                &&& v@.len() == self.n_vocab
                &&& forall|k: int|
                    0 <= k < v@.len() ==> #[trigger] v@[k] == spec_logit(self.n_past, i as int, k)
            },
    {
        if i >= self.last_batch_logits.len() {
            return Err(LogitsError { position: i });
        }
        if !self.last_batch_logits[i] {
            return Err(LogitsError { position: i });
        }
        let n = self.n_vocab as usize;
        let mut v: Vec<i32> = Vec::new();
        let mut k: usize = 0;
        while k < n
            invariant
                n == self.n_vocab,
                i <= u32::MAX,
                k <= n,
                v@.len() == k,
                forall|j: int|
                    0 <= j < k ==> #[trigger] v@[j] == spec_logit(self.n_past, i as int, j),
            decreases n - k,
        {
            let raw: u64 = self.n_past as u64 + 7 * (i as u64) + 13 * (k as u64);
            let logit: i32 = (raw % 101) as i32 - 50;
            proof {
                assert(logit == spec_logit(self.n_past, i as int, k as int));
            }
            v.push(logit);
            k = k + 1;
        }
        Ok(v)
    }

    /// Aggregate latency/throughput counters for diagnostics.
    pub fn timing_summary(&self) -> (t: TimingSummary)
        ensures
            t.decode_calls == self.decode_calls,
            t.tokens_decoded == self.n_past,
    {
        TimingSummary { decode_calls: self.decode_calls, tokens_decoded: self.n_past }
    }

    /// Release the context. Fails if the handle is stale; a failed free
    /// changes nothing.
    pub fn free(&self, e: &mut FakeEngine) -> (r: Result<(), FreeError>)
        requires
            old(e).wf(),
        ensures
            final(e).wf(),
            r is Ok <==> old(e).live(self.id) && !old(e).has_dependent(self.id),
            r == Err::<(), FreeError>(FreeError::NotLive) <==> !old(e).live(self.id),
            r == Err::<(), FreeError>(FreeError::DependentsLive) <==> old(e).live(self.id) && old(
                e,
            ).has_dependent(self.id),
            r is Err ==> *final(e) == *old(e),
            r is Ok ==> {
                &&& !final(e).live(self.id)
                &&& forall|x: u64| x != self.id ==> final(e).live(x) == old(e).live(x)
                &&& forall|x: u64, k: ResourceKind|
                    x != self.id ==> final(e).live_as(x, k) == old(e).live_as(x, k)
                &&& final(e).frees == old(e).frees + 1
                &&& final(e).allocs == old(e).allocs
                &&& final(e).same_config(*old(e))
            },
    {
        e.free(self.id)
    }
}

impl LlamaModel {
    /// Create a context bound to this model. Fails exactly when the engine
    /// cannot allocate the requested window, reporting the request and the
    /// engine's maximum; a failed creation allocates nothing. The new
    /// context starts at running position 0 with no logits retrievable.
    pub fn new_context(
        &self,
        e: &mut FakeEngine,
        params: &LlamaContextParams,
    ) -> (r: Result<LlamaContext, ContextError>)
        requires
            self.wf(),
            old(e).wf(),
            old(e).live_as(self.id, ResourceKind::Model),
            old(e).next_id < u64::MAX,
            old(e).allocs < u64::MAX,
            params.wf(),
        ensures
            final(e).wf(),
            r is Ok <==> params.n_ctx <= old(e).max_context_window,
            r matches Err(err) ==> err == (ContextError::WindowTooLarge {
                requested: params.n_ctx,
                max: old(e).max_context_window,
            }) && *final(e) == *old(e),
            r matches Ok(ctx) ==> {
                &&& ctx.wf()
                &&& ctx.id == old(e).next_id
                &&& ctx.model_id == self.id
                &&& ctx.n_ctx == params.n_ctx
                &&& ctx.n_past == 0
                &&& ctx.n_vocab == self.n_vocab
                &&& ctx.last_batch_logits@.len() == 0
                &&& ctx.decode_calls == 0
                &&& ctx.no_perf == params.no_perf
                &&& final(e).live_as(ctx.id, ResourceKind::Context)
                &&& !old(e).live(ctx.id)
                &&& final(e).allocs == old(e).allocs + 1
                &&& final(e).next_id == old(e).next_id + 1
                &&& final(e).frees == old(e).frees
                &&& final(e).same_config(*old(e))
                &&& forall|x: u64| x != ctx.id ==> final(e).live(x) == old(e).live(x)
                &&& forall|x: u64, k: ResourceKind|
                    x != ctx.id ==> final(e).live_as(x, k) == old(e).live_as(x, k)
                &&& forall|x: u64|
                    #[trigger] final(e).has_dependent(x) ==> old(e).has_dependent(x) || x
                        == self.id
                &&& forall|x: u64| old(e).has_dependent(x) ==> final(e).has_dependent(x)
            },
    {
        if params.n_ctx > e.max_context_window {
            return Err(
                ContextError::WindowTooLarge {
                    requested: params.n_ctx,
                    max: e.max_context_window,
                },
            );
        }
        let id = e.allocate(ResourceKind::Context, Some(self.id));
        Ok(
            LlamaContext {
                id,
                model_id: self.id,
                n_ctx: params.n_ctx,
                n_past: 0,
                n_vocab: self.n_vocab,
                last_batch_logits: Vec::new(),
                decode_calls: 0,
                no_perf: params.no_perf,
            },
        )
    }
}

} // verus!
