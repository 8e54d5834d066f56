//! Prompt evaluation: feeding token sequences into a context in batches.
//!
//! A prompt longer than the logical batch size is split into consecutive
//! chunks; each chunk becomes one batch and one decode call, and the shared
//! running-position counter advances by the chunk length. Evaluation stops
//! at the first chunk the window cannot hold, having already advanced by
//! the chunks that fit.

use vstd::prelude::*;

use crate::batch::LlamaBatch;
use crate::context::LlamaContext;
use crate::engine::{FakeEngine, ResourceKind};
use crate::errors::{DecodeError, EvalError};
use crate::model::{AddBos, LlamaModel};
use crate::token::LlamaToken;

verus! {

/// The smaller of two integers.
pub open spec fn spec_min(a: int, b: int) -> int {
    if a <= b {
        a
    } else {
        b
    }
}

/// How far chunked evaluation of `len` tokens advances the running position
/// when the batch size is `nb` and `rem` window positions are free: chunks
/// of `nb` tokens are decoded front to back, and the first chunk that does
/// not fit stops everything after it.
pub open spec fn eval_advance(len: int, nb: int, rem: int) -> int
    recommends
        nb >= 1,
    decreases len,
    when nb >= 1
{
    if len <= 0 {
        0
    } else {
        let c = spec_min(len, nb);
        if c <= rem {
            c + eval_advance(len - c, nb, rem - c)
        } else {
            0
        }
    }
}

/// Length of the last chunk when `len` tokens are split into chunks of
/// `nb`: the remainder of the front-to-back split, or `nb` itself when the
/// split is exact.
pub open spec fn spec_last_chunk(len: int, nb: int) -> int
    recommends
        nb >= 1,
    decreases len,
    when nb >= 1
{
    if len <= 0 {
        0
    } else if len <= nb {
        len
    } else {
        spec_last_chunk(len - nb, nb)
    }
}

/// Chunked evaluation advances by every chunk exactly when the whole token
/// sequence fits in the free window positions.
pub proof fn lemma_eval_advance_complete(len: int, nb: int, rem: int)
    requires
        nb >= 1,
        len >= 0,
    ensures
        eval_advance(len, nb, rem) == len <==> len <= rem || len == 0,
    decreases len,
{
    if len > 0 {
        let c = spec_min(len, nb);
        if c <= rem {
            lemma_eval_advance_complete(len - c, nb, rem - c);
            lemma_eval_advance_bound(len - c, nb, rem - c);
        }
    }
}

/// The last chunk of a non-empty split is non-empty and no larger than the
/// batch size or the whole sequence.
pub proof fn lemma_last_chunk_range(len: int, nb: int)
    requires
        nb >= 1,
        len >= 1,
    ensures
        1 <= spec_last_chunk(len, nb) <= nb,
        spec_last_chunk(len, nb) <= len,
    decreases len,
{
    if len > nb {
        lemma_last_chunk_range(len - nb, nb);
    }
}

/// Chunked evaluation never advances past the tokens it was given.
pub proof fn lemma_eval_advance_bound(len: int, nb: int, rem: int)
    requires
        nb >= 1,
    ensures
        0 <= eval_advance(len, nb, rem) <= if len >= 0 {
            len
        } else {
            0
        },
    decreases len,
{
    if len > 0 {
        let c = spec_min(len, nb);
        if c <= rem {
            lemma_eval_advance_bound(len - c, nb, rem - c);
        }
    }
}

/// Evaluate a token sequence into the context in chunks of at most
/// `n_batch` tokens, advancing `n_past` (and the context's own running
/// position) by each decoded chunk.
///
/// Succeeds exactly when every chunk fits, returning the length of the
/// final chunk — the batch position whose logits were kept. Fails with the
/// failing chunk's size and the window space that was left for it, after
/// having advanced by all earlier chunks.
pub fn eval_token(
    ctx: &mut LlamaContext,
    e: &FakeEngine,
    tokens: &Vec<LlamaToken>,
    n_batch: i32,
    n_past: &mut i32,
) -> (r: Result<i32, DecodeError>)
    requires
        old(ctx).wf(),
        e.live_as(old(ctx).id, ResourceKind::Context),
        n_batch >= 1,
        tokens@.len() <= i32::MAX,
        0 <= *old(n_past),
        *old(n_past) + tokens@.len() <= i32::MAX,
    ensures
        final(ctx).wf(),
        final(ctx).n_past == old(ctx).n_past + eval_advance(
            tokens@.len() as int,
            n_batch as int,
            old(ctx).spec_remaining() as int,
        ),
        *final(n_past) == *old(n_past) + eval_advance(
            tokens@.len() as int,
            n_batch as int,
            old(ctx).spec_remaining() as int,
        ),
        final(ctx).id == old(ctx).id,
        final(ctx).model_id == old(ctx).model_id,
        final(ctx).n_ctx == old(ctx).n_ctx,
        final(ctx).n_vocab == old(ctx).n_vocab,
        final(ctx).no_perf == old(ctx).no_perf,
        r is Ok <==> eval_advance(
            tokens@.len() as int,
            n_batch as int,
            old(ctx).spec_remaining() as int,
        ) == tokens@.len(),
        r matches Ok(n_eval) ==> n_eval == spec_last_chunk(tokens@.len() as int, n_batch as int),
        r matches Ok(n_eval) ==> (tokens@.len() > 0 ==> final(ctx).last_batch_logits@ == Seq::new(
            n_eval as nat,
            |i: int| i == n_eval - 1,
        )),
        tokens@.len() == 0 ==> *final(ctx) == *old(ctx),
        r matches Err(d) ==> {
            let adv = eval_advance(
                tokens@.len() as int,
                n_batch as int,
                old(ctx).spec_remaining() as int,
            );
            &&& d.batch_size == spec_min(tokens@.len() - adv, n_batch as int)
            &&& d.context_window_remaining == old(ctx).spec_remaining() - adv
        },
{
    let n = tokens.len();
    let nb = n_batch as usize;
    let ghost len0: int = n as int;
    let ghost rem0: int = old(ctx).spec_remaining() as int;
    let mut i: usize = 0;
    let mut n_eval: i32 = 0;
    proof {
        lemma_eval_advance_bound(len0, nb as int, rem0);
    }
    while i < n
        invariant
            n == tokens@.len(),
            n <= i32::MAX,
            nb == n_batch as int,
            n_batch >= 1,
            len0 == n as int,
            rem0 == old(ctx).spec_remaining() as int,
            0 <= *old(n_past),
            *old(n_past) + n <= i32::MAX,
            i <= n,
            *n_past == *old(n_past) + i,
            ctx.wf(),
            e.live_as(ctx.id, ResourceKind::Context),
            ctx.id == old(ctx).id,
            ctx.model_id == old(ctx).model_id,
            ctx.n_ctx == old(ctx).n_ctx,
            ctx.n_vocab == old(ctx).n_vocab,
            ctx.no_perf == old(ctx).no_perf,
            ctx.n_past == old(ctx).n_past + i,
            eval_advance(len0, nb as int, rem0) == i + eval_advance(
                len0 - i,
                nb as int,
                rem0 - i,
            ),
            i < n ==> spec_last_chunk(len0, nb as int) == spec_last_chunk(len0 - i, nb as int),
            i == 0 ==> n_eval == 0 && *ctx == *old(ctx),
            i > 0 && i == n ==> n_eval == spec_last_chunk(len0, nb as int),
            i > 0 && i == n ==> ctx.last_batch_logits@ == Seq::new(
                n_eval as nat,
                |k: int| k == n_eval - 1,
            ),
        decreases n - i,
    {
        let rest = n - i;
        let chunk: usize = if rest > nb {
            nb
        } else {
            rest
        };
        let chunk_slice = vstd::slice::slice_subrange(tokens.as_slice(), i, i + chunk);
        let batch = match LlamaBatch::get_one(chunk_slice) {
            Ok(b) => b,
            Err(_) => {
                proof {
                    assert(false);
                }
                vstd::pervasive::unreached()
            },
        };
        match ctx.decode(e, &batch) {
            Ok(_) => {},
            Err(d) => {
                proof {
                    assert(eval_advance(len0 - i, nb as int, rem0 - i) == 0);
                    assert(eval_advance(len0, nb as int, rem0) == i);
                }
                return Err(d);
            },
        }
        *n_past = *n_past + chunk as i32;
        n_eval = chunk as i32;
        proof {
            assert(eval_advance(len0 - i, nb as int, rem0 - i) == chunk + eval_advance(
                len0 - i - chunk,
                nb as int,
                rem0 - i - chunk,
            ));
            if i + chunk < n {
                assert(spec_last_chunk(len0 - i, nb as int) == spec_last_chunk(
                    len0 - i - chunk,
                    nb as int,
                ));
            } else {
                assert(spec_last_chunk(len0 - i, nb as int) == chunk);
            }
            assert(ctx.last_batch_logits@ =~= Seq::new(chunk as nat, |k: int| k == chunk - 1));
        }
        i = i + chunk;
    }
    proof {
        assert(eval_advance(len0, nb as int, rem0) == n);
    }
    Ok(n_eval)
}

/// Tokenize text and evaluate it into the context (the text-prompt path of
/// the shared running-position counter). Combines the tokenizer's and the
/// chunked evaluator's contracts: the position advances by exactly the
/// number of tokens the text produced when everything fits.
pub fn eval_string(
    ctx: &mut LlamaContext,
    e: &FakeEngine,
    model: &LlamaModel,
    text: &str,
    n_batch: i32,
    n_past: &mut i32,
    add_bos: AddBos,
) -> (r: Result<i32, EvalError>)
    requires
        old(ctx).wf(),
        model.wf(),
        e.live_as(old(ctx).id, ResourceKind::Context),
        e.live_as(model.id, ResourceKind::Model),
        n_batch >= 1,
        vstd::string::StringSliceAdditionalSpecFns::spec_bytes(text).len() + 1 <= i32::MAX,
        0 <= *old(n_past),
        *old(n_past) + vstd::string::StringSliceAdditionalSpecFns::spec_bytes(text).len() + 1
            <= i32::MAX,
    ensures
        final(ctx).wf(),
        final(ctx).id == old(ctx).id,
        final(ctx).model_id == old(ctx).model_id,
        final(ctx).n_ctx == old(ctx).n_ctx,
        final(ctx).n_vocab == old(ctx).n_vocab,
        final(ctx).no_perf == old(ctx).no_perf,
        r matches Err(EvalError::Tokenize(te)) ==> {
            &&& te.nul_position < vstd::string::StringSliceAdditionalSpecFns::spec_bytes(
                text,
            ).len()
            &&& vstd::string::StringSliceAdditionalSpecFns::spec_bytes(text)[te.nul_position as int]
                == 0
            &&& *final(ctx) == *old(ctx)
            &&& *final(n_past) == *old(n_past)
        },
        ({
            let bytes = vstd::string::StringSliceAdditionalSpecFns::spec_bytes(text);
            let toks = crate::model::spec_tokenize(
                bytes,
                crate::model::spec_add_bos(add_bos, model.add_bos_default),
            );
            let adv = eval_advance(
                toks.len() as int,
                n_batch as int,
                old(ctx).spec_remaining() as int,
            );
            &&& (r is Ok <==> (forall|i: int| 0 <= i < bytes.len() ==> #[trigger] bytes[i] != 0)
                && adv == toks.len())
            &&& ((forall|i: int| 0 <= i < bytes.len() ==> #[trigger] bytes[i] != 0) ==> {
                &&& final(ctx).n_past == old(ctx).n_past + adv
                &&& *final(n_past) == *old(n_past) + adv
            })
            &&& (r matches Ok(n_eval) ==> n_eval == spec_last_chunk(
                toks.len() as int,
                n_batch as int,
            ) && (toks.len() > 0 ==> final(ctx).last_batch_logits@ == Seq::new(
                n_eval as nat,
                |i: int| i == n_eval - 1,
            )))
            &&& (r matches Err(EvalError::Decode(d)) ==> {
                &&& (forall|i: int| 0 <= i < bytes.len() ==> #[trigger] bytes[i] != 0)
                &&& d.batch_size == spec_min(toks.len() - adv, n_batch as int)
                &&& d.context_window_remaining == old(ctx).spec_remaining() - adv
            })
        }),
{
    let toks = match model.str_to_token(e, text, add_bos) {
        Ok(t) => t,
        Err(te) => {
            return Err(EvalError::Tokenize(te));
        },
    };
    match eval_token(ctx, e, &toks, n_batch, n_past) {
        Ok(n_eval) => Ok(n_eval),
        Err(d) => Err(EvalError::Decode(d)),
    }
}

} // verus!
