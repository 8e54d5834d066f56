//! Fixed-capacity decode batches.
//!
//! A batch is an ephemeral description of the tokens to decode in one call:
//! for each entry a token id, a position, the sequence ids it belongs to,
//! and whether the engine should keep logits for it. Capacity is fixed at
//! construction; `add` reports a `CapacityError` exactly when one more entry
//! would exceed it, and never silently drops an entry.

use vstd::prelude::*;

use crate::errors::{BatchAddError, CapacityError};
use crate::token::LlamaToken;

verus! {

/// One batch entry: a token at a position, the conversation streams it
/// belongs to, and whether its logits must be retrievable after the decode.
#[derive(Clone, Debug)]
pub struct BatchEntry {
    pub token: LlamaToken,
    pub pos: i32,
    pub seq_ids: Vec<i32>,
    pub logits: bool,
}

/// A fixed-capacity buffer of entries for one decode call.
#[derive(Debug)]
pub struct LlamaBatch {
    /// Capacity fixed at construction; `entries` never grows beyond it.
    pub capacity: usize,
    /// The entries added so far, in order.
    pub entries: Vec<BatchEntry>,
}

impl LlamaBatch {
    /// The batch invariant: never more entries than capacity, and a
    /// capacity a machine count can exceed by one.
    pub open spec fn wf(self) -> bool {
        self.entries@.len() <= self.capacity < usize::MAX
    }

    /// An empty batch with the given fixed capacity.
    pub fn new(capacity: usize) -> (b: LlamaBatch)
        requires
            capacity < usize::MAX,
        ensures
            b.wf(),
            b.capacity == capacity,
            b.entries@.len() == 0,
    {
        LlamaBatch { capacity, entries: Vec::new() }
    }

    /// Number of entries added so far.
    pub fn len(&self) -> (n: usize)
        ensures
            n == self.entries@.len(),
    {
        self.entries.len()
    }

    /// Drop all entries, keeping the capacity.
    pub fn clear(&mut self)
        requires
            old(self).wf(),
        ensures
            final(self).wf(),
            final(self).capacity == old(self).capacity,
            final(self).entries@.len() == 0,
    {
        self.entries.clear();
    }

    /// Add one entry. Fails with a `CapacityError` exactly when the count
    /// about to be added would exceed the configured capacity, and a failed
    /// add changes nothing.
    pub fn add(
        &mut self,
        token: LlamaToken,
        pos: i32,
        seq_ids: &[i32],
        logits: bool,
    ) -> (r: Result<(), CapacityError>)
        requires
            old(self).wf(),
        ensures
            final(self).wf(),
            final(self).capacity == old(self).capacity,
            r is Ok <==> old(self).entries@.len() < old(self).capacity,
            r matches Err(e) ==> {
                &&& e == (CapacityError {
                    capacity: old(self).capacity,
                    requested: (old(self).capacity + 1) as usize,
                })
                &&& final(self).entries == old(self).entries
            },
            r is Ok ==> {
                &&& final(self).entries@.len() == old(self).entries@.len() + 1
                &&& final(self).entries@.last().token == token
                &&& final(self).entries@.last().pos == pos
                &&& final(self).entries@.last().seq_ids@ == seq_ids@
                &&& final(self).entries@.last().logits == logits
                &&& final(self).entries@.subrange(0, old(self).entries@.len() as int) == old(
                    self,
                ).entries@
            },
    {
        if self.entries.len() >= self.capacity {
            return Err(
                CapacityError { capacity: self.capacity, requested: self.capacity + 1 },
            );
        }
        let seq_ids_owned = vstd::slice::slice_to_vec(seq_ids);
        self.entries.push(
            BatchEntry { token, pos, seq_ids: seq_ids_owned, logits },
        );
        proof {
            assert(self.entries@.subrange(0, old(self).entries@.len() as int) =~= old(
                self,
            ).entries@);
        }
        Ok(())
    }

    /// Build a batch that spans the given tokens at sequential positions
    /// starting at 0, all in sequence 0, requesting logits only for the
    /// final token — the steady-state shape for single-stream generation.
    /// Fails only on an empty token slice.
    pub fn get_one(tokens: &[LlamaToken]) -> (r: Result<LlamaBatch, BatchAddError>)
        requires
            tokens@.len() <= i32::MAX,
        ensures
            r is Ok <==> tokens@.len() > 0,
            tokens@.len() == 0 ==> r == Err::<LlamaBatch, BatchAddError>(
                BatchAddError::EmptyBuffer,
            ),
            r matches Ok(b) ==> {
                &&& b.wf()
                &&& b.capacity == tokens@.len()
                &&& b.entries@.len() == tokens@.len()
                &&& forall|i: int|
                    0 <= i < tokens@.len() ==> #[trigger] b.entries@[i].token == tokens@[i]
                &&& forall|i: int| 0 <= i < tokens@.len() ==> #[trigger] b.entries@[i].pos == i
                &&& forall|i: int|
                    0 <= i < tokens@.len() ==> #[trigger] b.entries@[i].seq_ids@ == seq![0i32]
                &&& forall|i: int|
                    0 <= i < tokens@.len() ==> (#[trigger] b.entries@[i].logits <==> i
                        == tokens@.len() - 1)
            },
    {
        if tokens.len() == 0 {
            return Err(BatchAddError::EmptyBuffer);
        }
        let n = tokens.len();
        let mut entries: Vec<BatchEntry> = Vec::new();
        let mut i: usize = 0;
        while i < n
            invariant
                n == tokens@.len(),
                n <= i32::MAX,
                i <= n,
                entries@.len() == i,
                forall|j: int| 0 <= j < i ==> #[trigger] entries@[j].token == tokens@[j],
                forall|j: int| 0 <= j < i ==> #[trigger] entries@[j].pos == j,
                forall|j: int| 0 <= j < i ==> #[trigger] entries@[j].seq_ids@ == seq![0i32],
                forall|j: int| 0 <= j < i ==> (#[trigger] entries@[j].logits <==> j == n - 1),
            decreases n - i,
        {
            let mut seq_ids: Vec<i32> = Vec::new();
            seq_ids.push(0);
            proof {
                assert(seq_ids@ =~= seq![0i32]);
            }
            entries.push(
                BatchEntry {
                    token: *vstd::slice::slice_index_get(tokens, i),
                    pos: i as i32,
                    seq_ids,
                    logits: i == n - 1,
                },
            );
            i = i + 1;
        }
        Ok(LlamaBatch { capacity: n, entries })
    }
}

/// Requesting logits only at the final token: in a batch built by `get_one`
/// over a non-empty token slice, an entry requests logits exactly when it is
/// the last one.
pub proof fn lemma_get_one_logits_last(b: LlamaBatch, tokens: Seq<LlamaToken>)
    requires
        tokens.len() > 0,
        b.entries.len() == tokens.len(),
        forall|i: int| 0 <= i < tokens.len() ==> (#[trigger] b.entries@[i].logits <==> i
            == tokens.len() - 1),
    ensures
        b.entries@.last().logits,
        forall|i: int| 0 <= i < tokens.len() - 1 ==> !(#[trigger] b.entries@[i].logits),
{
}

} // verus!
