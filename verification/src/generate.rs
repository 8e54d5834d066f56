//! The sequential generation loop.
//!
//! Steady-state generation repeats: sample the token at the current logits
//! position, accept it into the sampler, stop at the end-of-sequence token,
//! otherwise emit its text fragment through the incremental decoder, decode
//! a single-token batch at the next position, and advance the running
//! position. The loop stops at the first end-of-sequence token or after the
//! configured maximum, whichever comes first, and never emits more than the
//! maximum; a decode failure aborts it, surfacing the token index and the
//! partial output rather than truncating silently.

use vstd::prelude::*;

use crate::batch::LlamaBatch;
use crate::context::{spec_logit, LlamaContext};
use crate::engine::{FakeEngine, ResourceKind};
use crate::errors::DecodeError;
use crate::model::{spec_token_bytes, LlamaModel, Special};
use crate::sampler::{spec_sample, LlamaSampler, SamplerStage};
use crate::token::LlamaToken;
use crate::utf8::{spec_run, Utf8Decoder};

verus! {

/// Why generation stopped.
#[derive(Copy, Clone, Debug, PartialEq, Eq, Structural)]
pub enum GenStopKind {
    /// The sampler produced the end-of-sequence token.
    Eos,
    /// The configured maximum token count was reached.
    Limit,
    /// The context window filled before the next token could be decoded.
    WindowFull,
}

/// The logits the engine reports at batch position `pos` when the window
/// holds `n_past` tokens, for a vocabulary of `n_vocab` entries.
pub open spec fn gen_logits(n_past: u32, pos: int, n_vocab: int) -> Seq<i32> {
    Seq::new(n_vocab as nat, |v: int| spec_logit(n_past, pos, v))
}

/// The byte fragments of a token sequence, concatenated in order.
pub open spec fn spec_tokens_bytes(toks: Seq<LlamaToken>) -> Seq<u8>
    decreases toks.len(),
{
    if toks.len() == 0 {
        Seq::<u8>::empty()
    } else {
        spec_token_bytes(toks[0], Special::Tokenize) + spec_tokens_bytes(toks.drop_first())
    }
}

/// Appending a token appends its byte fragment.
pub proof fn lemma_tokens_bytes_snoc(toks: Seq<LlamaToken>, t: LlamaToken)
    ensures
        spec_tokens_bytes(toks.push(t)) == spec_tokens_bytes(toks) + spec_token_bytes(
            t,
            Special::Tokenize,
        ),
    decreases toks.len(),
{
    if toks.len() == 0 {
        reveal_with_fuel(spec_tokens_bytes, 2);
        assert(toks.push(t)[0] == t);
        assert(toks.push(t).drop_first() =~= Seq::<LlamaToken>::empty());
        assert(spec_tokens_bytes(toks.push(t)) =~= spec_token_bytes(t, Special::Tokenize));
        assert(spec_tokens_bytes(toks) + spec_token_bytes(t, Special::Tokenize)
            =~= spec_token_bytes(t, Special::Tokenize));
    } else {
        assert(toks.push(t)[0] == toks[0]);
        assert(toks.push(t).drop_first() =~= toks.drop_first().push(t));
        lemma_tokens_bytes_snoc(toks.drop_first(), t);
        assert(spec_token_bytes(toks[0], Special::Tokenize) + (spec_tokens_bytes(
            toks.drop_first(),
        ) + spec_token_bytes(t, Special::Tokenize)) =~= (spec_token_bytes(
            toks[0],
            Special::Tokenize,
        ) + spec_tokens_bytes(toks.drop_first())) + spec_token_bytes(t, Special::Tokenize));
    }
}

/// The whole generation loop as a function of its starting state: the
/// emitted tokens, why it stopped, and the sampler's final generator state.
/// One step samples at `(n_past, pos)`; the end-of-sequence token stops
/// everything (and is not emitted); a full window stops the loop right
/// after the token that could not be decoded; otherwise the position
/// advances and the next sample reads batch position 0.
pub open spec fn spec_generate(
    stages: Seq<SamplerStage>,
    rng: u64,
    n_past: u32,
    pos: int,
    k: int,
    eos: i32,
    n_ctx: u32,
    n_vocab: int,
) -> (Seq<LlamaToken>, GenStopKind, u64)
    decreases k,
{
    if k <= 0 {
        (Seq::<LlamaToken>::empty(), GenStopKind::Limit, rng)
    } else {
        let (ti, rng2) = spec_sample(stages, rng, gen_logits(n_past, pos, n_vocab));
        let t = LlamaToken(ti as i32);
        if ti == eos as int {
            (Seq::<LlamaToken>::empty(), GenStopKind::Eos, rng2)
        } else if n_past >= n_ctx {
            (seq![t], GenStopKind::WindowFull, rng2)
        } else {
            let (rest, stop, rng3) = spec_generate(
                stages,
                rng2,
                (n_past + 1) as u32,
                0,
                k - 1,
                eos,
                n_ctx,
                n_vocab,
            );
            (seq![t] + rest, stop, rng3)
        }
    }
}

/// The generation loop emits at most `k` tokens, never the end-of-sequence
/// token, and emits exactly `k` when it reaches the configured maximum.
#[verifier::rlimit(60)]
pub proof fn lemma_generate_bounds(
    stages: Seq<SamplerStage>,
    rng: u64,
    n_past: u32,
    pos: int,
    k: int,
    eos: i32,
    n_ctx: u32,
    n_vocab: int,
)
    requires
        n_vocab >= 1,
        n_vocab <= i32::MAX,
        0 <= eos < n_vocab,
    ensures
        ({
            let (toks, stop, _) = spec_generate(stages, rng, n_past, pos, k, eos, n_ctx, n_vocab);
            &&& toks.len() <= (if k >= 0 {
                k
            } else {
                0
            })
            &&& forall|i: int| 0 <= i < toks.len() ==> (#[trigger] toks[i]).0 != eos
            &&& (stop == GenStopKind::Limit ==> toks.len() == (if k >= 0 {
                k
            } else {
                0
            }))
            &&& (stop == GenStopKind::Eos ==> toks.len() < k)
        }),
    decreases k,
{
    if k > 0 {
        crate::sampler::lemma_sample_in_range(stages, rng, gen_logits(n_past, pos, n_vocab));
        let (ti, rng2) = spec_sample(stages, rng, gen_logits(n_past, pos, n_vocab));
        if ti != eos as int && n_past < n_ctx {
            lemma_generate_bounds(
                stages,
                rng2,
                (n_past + 1) as u32,
                0,
                k - 1,
                eos,
                n_ctx,
                n_vocab,
            );
        }
    }
}

/// What generation produced: the emitted tokens, their text reconstructed
/// through the incremental decoder, and why the loop stopped.
#[derive(Debug)]
pub struct GenOutput {
    /// The emitted tokens, in order; never contains the end-of-sequence
    /// token.
    pub tokens: Vec<LlamaToken>,
    /// The emitted byte fragments decoded incrementally into characters.
    pub text: Vec<char>,
    /// True when the loop stopped at the first end-of-sequence token,
    /// false when it reached the configured maximum.
    pub stopped_at_eos: bool,
}

/// A decode failure inside the generation loop: the index of the token
/// whose decode was rejected, the failure itself, and everything emitted up
/// to that point (nothing is truncated silently).
#[derive(Debug)]
pub struct GenerateError {
    /// Index of the token being generated when the decode failed.
    pub index: usize,
    /// The underlying decode failure.
    pub cause: DecodeError,
    /// Tokens emitted before the loop aborted, the failing one included.
    pub partial_tokens: Vec<LlamaToken>,
    /// Text emitted before the loop aborted.
    pub partial_text: Vec<char>,
}

/// The outcome of one generation step.
#[derive(Debug)]
pub enum GenStep {
    /// A token was emitted and decoded into the window, together with the
    /// characters its byte fragment completed; the next step samples at
    /// batch position 0.
    Emitted { token: LlamaToken, text: Vec<char> },
    /// The end-of-sequence token was sampled (and accepted into the
    /// sampler); nothing was emitted and the context is unchanged.
    Eos,
    /// The token was sampled, accepted and its text decoded, but the window
    /// was full, so it could not be folded into the context.
    WindowFull { token: LlamaToken, text: Vec<char>, cause: DecodeError },
}

/// One step of the generation loop: sample the token at batch position
/// `pos` of the most recent decode, accept it, and — unless it is the
/// end-of-sequence token — emit its text through the incremental decoder
/// and decode it at the next position.
///
/// The step is the body of `generate`, exposed so a caller can stream each
/// token's text as it is produced: the outcome is `Eos` exactly when the
/// chain selects the end-of-sequence token, `WindowFull` exactly when it
/// does not but the window has no free position, and `Emitted` otherwise.
pub fn generate_step(
    ctx: &mut LlamaContext,
    e: &FakeEngine,
    model: &LlamaModel,
    sampler: &mut LlamaSampler,
    decoder: &mut Utf8Decoder,
    pos: usize,
) -> (r: GenStep)
    requires
        old(ctx).wf(),
        model.wf(),
        old(ctx).n_vocab == model.n_vocab,
        old(ctx).model_id == model.id,
        e.live_as(old(ctx).id, ResourceKind::Context),
        e.live_as(model.id, ResourceKind::Model),
        pos < old(ctx).last_batch_logits@.len(),
        old(ctx).last_batch_logits@[pos as int],
        old(decoder).wf(),
    ensures
        final(ctx).wf(),
        final(decoder).wf(),
        final(ctx).id == old(ctx).id,
        final(ctx).model_id == old(ctx).model_id,
        final(ctx).n_ctx == old(ctx).n_ctx,
        final(ctx).n_vocab == old(ctx).n_vocab,
        final(ctx).no_perf == old(ctx).no_perf,
        final(sampler).id == old(sampler).id,
        final(sampler).stages == old(sampler).stages,
        ({
            let logits = gen_logits(old(ctx).n_past, pos as int, old(ctx).n_vocab as int);
            let ti = spec_sample(old(sampler).stages@, old(sampler).rng, logits).0;
            let t = LlamaToken(ti as i32);
            let frag = spec_token_bytes(t, Special::Tokenize);
            &&& final(sampler).rng == spec_sample(old(sampler).stages@, old(sampler).rng, logits).1
            &&& final(sampler).prev@ == old(sampler).prev@.push(t)
            &&& (r is Eos <==> ti == model.eos.0 as int)
            &&& (r is Emitted <==> ti != model.eos.0 as int && old(ctx).n_past < old(ctx).n_ctx)
            &&& (r is WindowFull <==> ti != model.eos.0 as int && old(ctx).n_past >= old(
                ctx,
            ).n_ctx)
            &&& (r is Eos ==> *final(ctx) == *old(ctx) && *final(decoder) == *old(decoder))
            &&& (r matches GenStep::Emitted { token, text } ==> {
                &&& token == t
                &&& text@ == spec_run(old(decoder).pending@, frag).0
                &&& final(decoder).pending@ == spec_run(old(decoder).pending@, frag).1
                &&& final(ctx).n_past == old(ctx).n_past + 1
                &&& final(ctx).last_batch_logits@ == seq![true]
            })
            &&& (r matches GenStep::WindowFull { token, text, cause } ==> {
                &&& token == t
                &&& text@ == spec_run(old(decoder).pending@, frag).0
                &&& final(decoder).pending@ == spec_run(old(decoder).pending@, frag).1
                &&& cause == (DecodeError { batch_size: 1, context_window_remaining: 0 })
                &&& *final(ctx) == *old(ctx)
            })
        }),
{
    let ghost pre_rng = sampler.rng;
    let ghost pre_npast = ctx.n_past;
    let t = match sampler.sample(ctx, pos) {
        Ok(t) => t,
        Err(_) => {
            proof {
                assert(false);
            }
            vstd::pervasive::unreached()
        },
    };
    sampler.accept(t);
    proof {
        assert(gen_logits(pre_npast, pos as int, ctx.n_vocab as int) =~= Seq::new(
            ctx.n_vocab as nat,
            |v: int| spec_logit(ctx.n_past, pos as int, v),
        ));
    }
    if t.0 == model.token_eos().0 {
        return GenStep::Eos;
    }
    let bytes = match model.token_to_bytes(e, t, Special::Tokenize) {
        Ok(b) => b,
        Err(_) => {
            proof {
                assert(false);
            }
            vstd::pervasive::unreached()
        },
    };
    let text = decoder.feed(bytes.as_slice());
    let mut one_token: Vec<LlamaToken> = Vec::new();
    one_token.push(t);
    let batch = match LlamaBatch::get_one(one_token.as_slice()) {
        Ok(b) => b,
        Err(_) => {
            proof {
                assert(false);
            }
            vstd::pervasive::unreached()
        },
    };
    match ctx.decode(e, &batch) {
        Ok(_) => {
            proof {
                assert(ctx.last_batch_logits@ =~= seq![true]);
            }
            GenStep::Emitted { token: t, text }
        },
        Err(cause) => GenStep::WindowFull { token: t, text, cause },
    }
}

/// Run the generation loop: up to `n_len` tokens, starting by sampling at
/// batch position `logit - 1` of the most recent decode.
///
/// Stops at the first end-of-sequence token or after `n_len` tokens,
/// whichever comes first, and never emits more than `n_len` tokens nor the
/// end-of-sequence token itself. Every sampled token (the end-of-sequence
/// token included) is accepted into the sampler exactly once. Fails exactly
/// when the window fills first, surfacing the token index and the partial
/// output.
#[verifier::rlimit(100)]
pub fn generate(
    ctx: &mut LlamaContext,
    e: &FakeEngine,
    model: &LlamaModel,
    sampler: &mut LlamaSampler,
    logit: i32,
    n_len: i32,
) -> (r: Result<GenOutput, GenerateError>)
    requires
        old(ctx).wf(),
        model.wf(),
        old(ctx).n_vocab == model.n_vocab,
        old(ctx).model_id == model.id,
        e.live_as(old(ctx).id, ResourceKind::Context),
        e.live_as(model.id, ResourceKind::Model),
        logit >= 1,
        logit - 1 < old(ctx).last_batch_logits@.len(),
        old(ctx).last_batch_logits@[logit - 1],
        n_len >= 0,
    ensures
        final(ctx).wf(),
        final(ctx).id == old(ctx).id,
        final(ctx).model_id == old(ctx).model_id,
        final(ctx).n_ctx == old(ctx).n_ctx,
        final(ctx).n_vocab == old(ctx).n_vocab,
        final(ctx).no_perf == old(ctx).no_perf,
        final(sampler).id == old(sampler).id,
        final(sampler).stages == old(sampler).stages,
        ({
            let (toks, stop, rng3) = spec_generate(
                old(sampler).stages@,
                old(sampler).rng,
                old(ctx).n_past,
                logit - 1,
                n_len as int,
                model.eos.0,
                old(ctx).n_ctx,
                old(ctx).n_vocab as int,
            );
            &&& final(sampler).rng == rng3
            &&& (r is Ok <==> stop != GenStopKind::WindowFull)
            &&& (r matches Ok(out) ==> {
                &&& out.tokens@ == toks
                &&& out.tokens@.len() <= n_len
                &&& forall|i: int| 0 <= i < out.tokens@.len() ==> (#[trigger] out.tokens@[i]).0
                    != model.eos.0
                &&& (out.stopped_at_eos <==> stop == GenStopKind::Eos)
                &&& (!out.stopped_at_eos ==> out.tokens@.len() == n_len)
                &&& out.text@ == spec_run(Seq::<u8>::empty(), spec_tokens_bytes(toks)).0
                &&& final(ctx).n_past == old(ctx).n_past + toks.len()
                &&& final(sampler).prev@ == old(sampler).prev@ + toks + (if stop
                    == GenStopKind::Eos {
                    seq![model.eos]
                } else {
                    Seq::<LlamaToken>::empty()
                })
            })
            &&& (r matches Err(ge) ==> {
                &&& ge.partial_tokens@ == toks
                &&& ge.index == toks.len() - 1
                &&& ge.cause == (DecodeError { batch_size: 1, context_window_remaining: 0 })
                &&& ge.partial_text@ == spec_run(Seq::<u8>::empty(), spec_tokens_bytes(toks)).0
                &&& final(ctx).n_past == old(ctx).n_past + toks.len() - 1
                &&& final(sampler).prev@ == old(sampler).prev@ + toks
            })
        }),
{
    let ghost stages0 = sampler.stages@;
    let ghost rng0 = sampler.rng;
    let ghost npast0 = old(ctx).n_past;
    let ghost pos0: int = logit - 1;
    let ghost k0: int = n_len as int;
    let ghost eos_id: i32 = model.eos.0;
    let ghost nc: u32 = old(ctx).n_ctx;
    let ghost nv: int = old(ctx).n_vocab as int;
    let ghost full = spec_generate(stages0, rng0, npast0, pos0, k0, eos_id, nc, nv);

    let mut tokens: Vec<LlamaToken> = Vec::new();
    let mut text: Vec<char> = Vec::new();
    let mut decoder = Utf8Decoder::new();
    let mut j: i32 = 0;
    let mut pos: usize = (logit - 1) as usize;
    while j < n_len
        invariant
            n_len >= 0,
            0 <= j <= n_len,
            k0 == n_len as int,
            rng0 == old(sampler).rng,
            npast0 == old(ctx).n_past,
            pos0 == logit - 1,
            stages0 == old(sampler).stages@,
            model.wf(),
            e.live_as(model.id, ResourceKind::Model),
            e.live_as(ctx.id, ResourceKind::Context),
            ctx.wf(),
            ctx.id == old(ctx).id,
            ctx.model_id == old(ctx).model_id,
            ctx.n_ctx == nc,
            ctx.n_vocab == old(ctx).n_vocab,
            ctx.n_vocab == model.n_vocab,
            ctx.model_id == model.id,
            ctx.no_perf == old(ctx).no_perf,
            nc == old(ctx).n_ctx,
            nv == old(ctx).n_vocab as int,
            1 <= nv <= i32::MAX,
            eos_id == model.eos.0,
            sampler.id == old(sampler).id,
            sampler.stages == old(sampler).stages,
            sampler.stages@ == stages0,
            full == spec_generate(stages0, rng0, npast0, pos0, k0, eos_id, nc, nv),
            pos < ctx.last_batch_logits@.len(),
            ctx.last_batch_logits@[pos as int],
            tokens@.len() == j,
            ctx.n_past == npast0 + j,
            sampler.prev@ == old(sampler).prev@ + tokens@,
            decoder.wf(),
            text@ == spec_run(Seq::<u8>::empty(), spec_tokens_bytes(tokens@)).0,
            decoder.pending@ == spec_run(Seq::<u8>::empty(), spec_tokens_bytes(tokens@)).1,
            ({
                let rest = spec_generate(
                    stages0,
                    sampler.rng,
                    ctx.n_past,
                    pos as int,
                    k0 - j,
                    eos_id,
                    nc,
                    nv,
                );
                &&& full.0 == tokens@ + rest.0
                &&& full.1 == rest.1
                &&& full.2 == rest.2
            }),
        decreases n_len - j,
    {
        let ghost pre_rng = sampler.rng;
        let ghost pre_npast = ctx.n_past;
        let t = match sampler.sample(ctx, pos) {
            Ok(t) => t,
            Err(_) => {
                proof {
                    assert(false);
                }
                vstd::pervasive::unreached()
            },
        };
        sampler.accept(t);
        proof {
            assert(gen_logits(pre_npast, pos as int, nv) =~= Seq::new(
                ctx.n_vocab as nat,
                |v: int| spec_logit(ctx.n_past, pos as int, v),
            ));
            assert(t.0 as int == spec_sample(
                stages0,
                pre_rng,
                gen_logits(pre_npast, pos as int, nv),
            ).0);
            assert(sampler.rng == spec_sample(
                stages0,
                pre_rng,
                gen_logits(pre_npast, pos as int, nv),
            ).1);
        }
        if t.0 == model.token_eos().0 {
            proof {
                let rest = spec_generate(
                    stages0,
                    pre_rng,
                    pre_npast,
                    pos as int,
                    k0 - j,
                    eos_id,
                    nc,
                    nv,
                );
                assert(k0 - j > 0);
                assert(spec_sample(
                    stages0,
                    pre_rng,
                    gen_logits(pre_npast, pos as int, nv),
                ).0 == eos_id as int);
                assert(rest.1 == GenStopKind::Eos);
                assert(rest.2 == sampler.rng);
                assert(rest.0 =~= Seq::<LlamaToken>::empty());
                assert(full.0 == tokens@ + rest.0);
                assert(full.0 =~= tokens@);
                assert(full.1 == GenStopKind::Eos);
                assert(full.2 == sampler.rng);
                assert(sampler.prev@ =~= old(sampler).prev@ + tokens@ + seq![model.eos]);
                lemma_generate_bounds(stages0, rng0, npast0, pos0, k0, eos_id, nc, nv);
            }
            return Ok(GenOutput { tokens, text, stopped_at_eos: true });
        }
        let ghost pre_tokens = tokens@;
        tokens.push(t);
        let bytes = match model.token_to_bytes(e, t, Special::Tokenize) {
            Ok(b) => b,
            Err(_) => {
                proof {
                    assert(false);
                }
                vstd::pervasive::unreached()
            },
        };
        let mut chunk = decoder.feed(bytes.as_slice());
        text.append(&mut chunk);
        proof {
            lemma_tokens_bytes_snoc(pre_tokens, t);
            assert(tokens@ == pre_tokens.push(t));
            assert(bytes@ == spec_token_bytes(t, Special::Tokenize));
            assert(spec_tokens_bytes(tokens@) == spec_tokens_bytes(pre_tokens) + bytes@);
            crate::utf8::lemma_run_append(
                Seq::<u8>::empty(),
                spec_tokens_bytes(pre_tokens),
                bytes@,
            );
            assert(text@ == spec_run(Seq::<u8>::empty(), spec_tokens_bytes(tokens@)).0);
            assert(decoder.pending@ == spec_run(Seq::<u8>::empty(), spec_tokens_bytes(tokens@)).1);
        }
        let mut one_token: Vec<LlamaToken> = Vec::new();
        one_token.push(t);
        let batch = match LlamaBatch::get_one(one_token.as_slice()) {
            Ok(b) => b,
            Err(_) => {
                proof {
                    assert(false);
                }
                vstd::pervasive::unreached()
            },
        };
        match ctx.decode(e, &batch) {
            Ok(_) => {},
            Err(d) => {
                proof {
                    let rest = spec_generate(
                        stages0,
                        pre_rng,
                        pre_npast,
                        pos as int,
                        k0 - j,
                        eos_id,
                        nc,
                        nv,
                    );
                    assert(pre_npast >= nc);
                    assert(rest.0 =~= seq![t]);
                    assert(full.0 =~= tokens@);
                    assert(sampler.prev@ =~= old(sampler).prev@ + tokens@);
                }
                return Err(
                    GenerateError {
                        index: tokens.len() - 1,
                        cause: d,
                        partial_tokens: tokens,
                        partial_text: text,
                    },
                );
            },
        }
        proof {
            assert(sampler.prev@ =~= old(sampler).prev@ + tokens@);
            assert(ctx.last_batch_logits@[0] == batch.entries@[0].logits);
            let rest_new = spec_generate(
                stages0,
                sampler.rng,
                ctx.n_past,
                0,
                k0 - j - 1,
                eos_id,
                nc,
                nv,
            );
            assert(pre_tokens + (seq![t] + rest_new.0) =~= tokens@ + rest_new.0);
        }
        pos = 0;
        j = j + 1;
    }
    proof {
        assert(full.0 =~= tokens@ + Seq::<LlamaToken>::empty());
        assert(tokens@ + Seq::<LlamaToken>::empty() =~= tokens@);
        assert(old(sampler).prev@ + full.0 + Seq::<LlamaToken>::empty() =~= old(
            sampler,
        ).prev@ + full.0);
        lemma_generate_bounds(stages0, rng0, npast0, pos0, k0, eos_id, nc, nv);
    }
    Ok(GenOutput { tokens, text, stopped_at_eos: false })
}

} // verus!
