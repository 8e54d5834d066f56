//! Prompt orchestration: the conversation state that threads one running
//! position through system prompt, image, and user prompt, then hands over
//! to the generation loop.
//!
//! The sequencing is fixed: system-prompt tokens first (with the
//! beginning-of-sequence token), then the image's patch embeddings, then
//! user-prompt tokens, each advancing the shared running-position counter,
//! so the context's bookkeeping stays consistent with the KV-cache. After
//! evaluating a system prompt of `k` tokens, an image of `m` patches, and a
//! user prompt of `j` tokens, the running position has advanced by exactly
//! `k + m + j`.

use vstd::prelude::*;

use crate::context::LlamaContext;
use crate::engine::{FakeEngine, ResourceKind};
use crate::errors::EvalError;
use crate::eval::{
    eval_advance, eval_string, lemma_eval_advance_complete, lemma_last_chunk_range,
    spec_last_chunk,
};
use crate::errors::DecodeError;
use crate::generate::{
    generate, spec_generate, spec_tokens_bytes, GenOutput, GenStopKind, GenerateError,
};
use crate::utf8::spec_run;
use crate::llava::LlavaImageEmbed;
use crate::model::{AddBos, LlamaModel};
use crate::sampler::LlamaSampler;
use vstd::string::StringSliceAdditionalSpecFns;

verus! {

/// A byte sequence free of interior NUL bytes (tokenizable text).
pub open spec fn no_nul(bytes: Seq<u8>) -> bool {
    forall|i: int| 0 <= i < bytes.len() ==> #[trigger] bytes[i] != 0
}

/// A prompt-phase failure: tokenizing or decoding one of the prompts, or
/// the generation loop itself.
#[derive(Debug)]
pub enum ProcessError {
    Eval(EvalError),
    Generate(GenerateError),
}

/// Evaluate the system prompt (with the beginning-of-sequence token), then
/// the image, then the user prompt, all against one running position.
///
/// With a system prompt of `k` tokens, an image of `m` patches, and a user
/// prompt of `j` tokens, succeeds exactly when neither text holds a NUL
/// byte and `k + m + j` fits in what is left of the window; the running
/// position then advances by exactly `k + m + j`, and the returned value is
/// the final user-prompt batch length — the logits position to sample at.
#[verifier::rlimit(60)]
pub fn eval_prompts(
    ctx: &mut LlamaContext,
    e: &FakeEngine,
    model: &LlamaModel,
    embed: &LlavaImageEmbed,
    system_prompt: &str,
    user_prompt: &str,
    n_batch: i32,
    n_past: &mut i32,
) -> (r: Result<i32, EvalError>)
    requires
        old(ctx).wf(),
        model.wf(),
        e.live_as(old(ctx).id, ResourceKind::Context),
        e.live_as(model.id, ResourceKind::Model),
        e.live_as(embed.id, ResourceKind::ImageEmbed),
        n_batch >= 1,
        user_prompt.spec_bytes().len() >= 1,
        0 <= *old(n_past),
        *old(n_past) + system_prompt.spec_bytes().len() + 1 + embed.n_patches
            + user_prompt.spec_bytes().len() + 1 <= i32::MAX,
    ensures
        final(ctx).wf(),
        final(ctx).id == old(ctx).id,
        final(ctx).model_id == old(ctx).model_id,
        final(ctx).n_ctx == old(ctx).n_ctx,
        final(ctx).n_vocab == old(ctx).n_vocab,
        final(ctx).no_perf == old(ctx).no_perf,
        ({
            let k = system_prompt.spec_bytes().len() as int + 1;
            let m = embed.n_patches as int;
            let j = user_prompt.spec_bytes().len() as int;
            let rem0 = old(ctx).spec_remaining() as int;
            let sys_clean = no_nul(system_prompt.spec_bytes());
            let user_clean = no_nul(user_prompt.spec_bytes());
            &&& (r is Ok <==> sys_clean && user_clean && k + m + j <= rem0)
            &&& (r matches Ok(logit) ==> {
                &&& final(ctx).n_past == old(ctx).n_past + k + m + j
                &&& *final(n_past) == *old(n_past) + k + m + j
                &&& logit == spec_last_chunk(j, n_batch as int)
                &&& 1 <= logit <= n_batch
                &&& logit - 1 < final(ctx).last_batch_logits@.len()
                &&& final(ctx).last_batch_logits@ == Seq::new(
                    logit as nat,
                    |i: int| i == logit - 1,
                )
            })
            &&& (r matches Err(EvalError::Tokenize(te)) ==> (if !sys_clean {
                &&& te.nul_position < system_prompt.spec_bytes().len()
                &&& system_prompt.spec_bytes()[te.nul_position as int] == 0
                &&& *final(ctx) == *old(ctx)
                &&& *final(n_past) == *old(n_past)
            } else {
                &&& !user_clean
                &&& te.nul_position < user_prompt.spec_bytes().len()
                &&& user_prompt.spec_bytes()[te.nul_position as int] == 0
                &&& k <= rem0 && k + m <= rem0
                &&& final(ctx).n_past == old(ctx).n_past + k + m
                &&& *final(n_past) == *old(n_past) + k + m
            }))
            &&& (r matches Err(EvalError::Decode(d)) ==> {
                let adv = if k > rem0 {
                    eval_advance(k, n_batch as int, rem0)
                } else if k + m > rem0 {
                    k + eval_advance(m, n_batch as int, rem0 - k)
                } else {
                    k + m + eval_advance(j, n_batch as int, rem0 - k - m)
                };
                &&& sys_clean
                &&& k + m + j > rem0
                &&& final(ctx).n_past == old(ctx).n_past + adv
                &&& *final(n_past) == *old(n_past) + adv
            })
        }),
{
    let ghost k: int = system_prompt.spec_bytes().len() as int + 1;
    let ghost m: int = embed.n_patches as int;
    let ghost j: int = user_prompt.spec_bytes().len() as int;
    let ghost rem0: int = old(ctx).spec_remaining() as int;

    let sys_logit = eval_string(ctx, e, model, system_prompt, n_batch, n_past, AddBos::Always);
    proof {
        lemma_eval_advance_complete(k, n_batch as int, rem0);
    }
    match sys_logit {
        Ok(_) => {},
        Err(err) => {
            return Err(err);
        },
    }
    proof {
        assert(ctx.n_past == old(ctx).n_past + k);
    }
    match embed.eval(e, ctx, n_batch, n_past) {
        Ok(_) => {},
        Err(d) => {
            proof {
                lemma_eval_advance_complete(m, n_batch as int, rem0 - k);
            }
            return Err(EvalError::Decode(d));
        },
    }
    proof {
        lemma_eval_advance_complete(m, n_batch as int, rem0 - k);
        assert(ctx.n_past == old(ctx).n_past + k + m);
    }
    let user_logit = eval_string(ctx, e, model, user_prompt, n_batch, n_past, AddBos::Never);
    proof {
        lemma_eval_advance_complete(j, n_batch as int, rem0 - k - m);
    }
    match user_logit {
        Ok(logit) => {
            proof {
                lemma_last_chunk_range(j, n_batch as int);
            }
            Ok(logit)
        },
        Err(err) => Err(err),
    }
}

/// Run the whole conversation: evaluate system prompt, image, and user
/// prompt against one running position, then generate up to `max_len`
/// tokens.
///
/// With a system prompt of `k` tokens, an image of `m` patches, and a user
/// prompt of `j` tokens, succeeds exactly when neither text holds a NUL
/// byte, `k + m + j` fits in what is left of the window, and the window
/// does not fill during generation; the output is then exactly what the
/// generation loop produces from the position after the prompts.
/// Generation stops at the first end-of-sequence token or after `max_len`
/// tokens, whichever comes first.
pub fn process_prompt(
    ctx: &mut LlamaContext,
    e: &FakeEngine,
    model: &LlamaModel,
    embed: &LlavaImageEmbed,
    sampler: &mut LlamaSampler,
    system_prompt: &str,
    user_prompt: &str,
    n_batch: i32,
    max_len: i32,
) -> (r: Result<GenOutput, ProcessError>)
    requires
        old(ctx).wf(),
        model.wf(),
        old(ctx).n_vocab == model.n_vocab,
        old(ctx).model_id == model.id,
        e.live_as(old(ctx).id, ResourceKind::Context),
        e.live_as(model.id, ResourceKind::Model),
        e.live_as(embed.id, ResourceKind::ImageEmbed),
        n_batch >= 1,
        max_len >= 0,
        user_prompt.spec_bytes().len() >= 1,
        system_prompt.spec_bytes().len() + 1 + embed.n_patches + user_prompt.spec_bytes().len()
            + 1 <= i32::MAX,
    ensures
        final(ctx).wf(),
        final(ctx).id == old(ctx).id,
        final(ctx).model_id == old(ctx).model_id,
        final(ctx).n_ctx == old(ctx).n_ctx,
        final(ctx).n_vocab == old(ctx).n_vocab,
        final(ctx).no_perf == old(ctx).no_perf,
        final(sampler).id == old(sampler).id,
        final(sampler).stages == old(sampler).stages,
        ({
            let k = system_prompt.spec_bytes().len() as int + 1;
            let m = embed.n_patches as int;
            let j = user_prompt.spec_bytes().len() as int;
            let rem0 = old(ctx).spec_remaining() as int;
            let sys_clean = no_nul(system_prompt.spec_bytes());
            let user_clean = no_nul(user_prompt.spec_bytes());
            let prompts_fit = k + m + j <= rem0;
            let logit = spec_last_chunk(j, n_batch as int);
            let g = spec_generate(
                old(sampler).stages@,
                old(sampler).rng,
                (old(ctx).n_past + k + m + j) as u32,
                logit - 1,
                max_len as int,
                model.eos.0,
                old(ctx).n_ctx,
                old(ctx).n_vocab as int,
            );
            &&& (r is Ok <==> sys_clean && user_clean && prompts_fit && g.1
                != GenStopKind::WindowFull)
            &&& (r matches Ok(out) ==> {
                &&& out.tokens@ == g.0
                &&& out.text@ == spec_run(Seq::<u8>::empty(), spec_tokens_bytes(g.0)).0
                &&& (out.stopped_at_eos <==> g.1 == GenStopKind::Eos)
                &&& out.tokens@.len() <= max_len
                &&& forall|i: int| 0 <= i < out.tokens@.len() ==> (#[trigger] out.tokens@[i]).0
                    != model.eos.0
                &&& (!out.stopped_at_eos ==> out.tokens@.len() == max_len)
                &&& final(ctx).n_past == old(ctx).n_past + k + m + j + g.0.len()
                &&& final(sampler).rng == g.2
                &&& final(sampler).prev@ == old(sampler).prev@ + g.0 + (if g.1
                    == GenStopKind::Eos {
                    seq![model.eos]
                } else {
                    Seq::<crate::token::LlamaToken>::empty()
                })
            })
            &&& (r matches Err(ProcessError::Eval(err)) ==> *final(sampler) == *old(sampler))
            &&& (r matches Err(ProcessError::Eval(EvalError::Tokenize(te))) ==> (if !sys_clean {
                &&& te.nul_position < system_prompt.spec_bytes().len()
                &&& system_prompt.spec_bytes()[te.nul_position as int] == 0
                &&& *final(ctx) == *old(ctx)
            } else {
                &&& !user_clean
                &&& te.nul_position < user_prompt.spec_bytes().len()
                &&& user_prompt.spec_bytes()[te.nul_position as int] == 0
                &&& final(ctx).n_past == old(ctx).n_past + k + m
            }))
            &&& (r matches Err(ProcessError::Eval(EvalError::Decode(d))) ==> {
                let adv = if k > rem0 {
                    eval_advance(k, n_batch as int, rem0)
                } else if k + m > rem0 {
                    k + eval_advance(m, n_batch as int, rem0 - k)
                } else {
                    k + m + eval_advance(j, n_batch as int, rem0 - k - m)
                };
                &&& sys_clean
                &&& !prompts_fit
                &&& final(ctx).n_past == old(ctx).n_past + adv
            })
            &&& (r matches Err(ProcessError::Generate(ge)) ==> {
                &&& sys_clean && user_clean && prompts_fit
                &&& g.1 == GenStopKind::WindowFull
                &&& ge.partial_tokens@ == g.0
                &&& ge.index == g.0.len() - 1
                &&& ge.cause == (DecodeError { batch_size: 1, context_window_remaining: 0 })
                &&& ge.partial_text@ == spec_run(Seq::<u8>::empty(), spec_tokens_bytes(g.0)).0
                &&& final(ctx).n_past == old(ctx).n_past + k + m + j + g.0.len() - 1
                &&& final(sampler).rng == g.2
                &&& final(sampler).prev@ == old(sampler).prev@ + g.0
            })
        }),
{
    let ghost k: int = system_prompt.spec_bytes().len() as int + 1;
    let ghost m: int = embed.n_patches as int;
    let ghost j: int = user_prompt.spec_bytes().len() as int;
    let mut n_past: i32 = 0;
    let logit = match eval_prompts(
        ctx,
        e,
        model,
        embed,
        system_prompt,
        user_prompt,
        n_batch,
        &mut n_past,
    ) {
        Ok(logit) => logit,
        Err(err) => {
            return Err(ProcessError::Eval(err));
        },
    };
    proof {
        assert(ctx.n_past as int == old(ctx).n_past + k + m + j);
        assert((old(ctx).n_past + k + m + j) as u32 == ctx.n_past);
    }
    match generate(ctx, e, model, sampler, logit, max_len) {
        Ok(out) => Ok(out),
        Err(ge) => Err(ProcessError::Generate(ge)),
    }
}

} // verus!
