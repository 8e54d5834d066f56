//! The shared running position: system prompt, image patches, and user
//! prompt advance one counter, which ends at exactly their sum.

use llama_wrap::backend::LlamaBackend;
use llama_wrap::engine::FakeEngine;
use llama_wrap::errors::EvalError;
use llama_wrap::llava::{ClipCtx, LlavaImageEmbed};
use llama_wrap::model::LlamaModel;
use llama_wrap::params::{LlamaContextParams, LlamaModelParams};
use llama_wrap::sampler::{LlamaSampler, SamplerStage};
use llama_wrap::session::{eval_prompts, process_prompt, ProcessError};

struct World {
    e: FakeEngine,
    model: LlamaModel,
    ctx: llama_wrap::context::LlamaContext,
    embed: LlavaImageEmbed,
}

fn setup(n_ctx: u32, n_patches: u32) -> World {
    let mut e = FakeEngine::new(8192);
    e.register_model_file(String::from("weights.gguf"));
    e.register_projector_file(String::from("mmproj.gguf"));
    e.register_image_file(String::from("cat.jpg"), n_patches);
    let backend = LlamaBackend::init(&mut e).unwrap();
    let model =
        LlamaModel::load_from_file(&mut e, &backend, "weights.gguf", &LlamaModelParams::default())
            .unwrap();
    let ctx = model
        .new_context(&mut e, &LlamaContextParams::default().with_n_ctx(n_ctx))
        .unwrap();
    let clip = ClipCtx::load_from_file(&mut e, "mmproj.gguf", 1).unwrap();
    let embed = LlavaImageEmbed::make_with_file(&mut e, &clip, 4, "cat.jpg").unwrap();
    World { e, model, ctx, embed }
}

#[test]
fn running_position_equals_k_plus_m_plus_j() {
    // System prompt "Hi" tokenizes to 1 (BOS) + 2 = 3 tokens; the image has
    // 7 patches; the user prompt "Go!" tokenizes to 3 tokens (no BOS).
    let mut w = setup(1024, 7);
    let mut n_past: i32 = 0;
    let logit = eval_prompts(
        &mut w.ctx,
        &w.e,
        &w.model,
        &w.embed,
        "Hi",
        "Go!",
        64,
        &mut n_past,
    )
    .unwrap();
    assert_eq!(n_past, 3 + 7 + 3);
    assert_eq!(w.ctx.timing_summary().tokens_decoded, 13);
    // The returned logits position is the user prompt's final batch length.
    assert_eq!(logit, 3);
}

#[test]
fn image_patches_share_the_counter_with_text() {
    let mut w = setup(1024, 576);
    let mut n_past: i32 = 0;
    eval_prompts(
        &mut w.ctx,
        &w.e,
        &w.model,
        &w.embed,
        "A chat.",
        "describe the image in detail.",
        512,
        &mut n_past,
    )
    .unwrap();
    // 8 system tokens (BOS + 7 bytes), 576 patches, 29 user bytes.
    assert_eq!(n_past, 8 + 576 + 29);
}

#[test]
fn prompt_that_overfills_the_window_fails_with_decode_error() {
    let mut w = setup(16, 100);
    let mut n_past: i32 = 0;
    let r = eval_prompts(
        &mut w.ctx,
        &w.e,
        &w.model,
        &w.embed,
        "Hi",
        "Go",
        8,
        &mut n_past,
    );
    match r {
        Err(EvalError::Decode(d)) => {
            assert!(d.batch_size as u32 > d.context_window_remaining);
        },
        other => panic!("expected a decode failure, got {:?}", other),
    }
}

#[test]
fn nul_in_prompt_fails_with_tokenize_error() {
    let mut w = setup(1024, 7);
    let mut n_past: i32 = 0;
    let r = eval_prompts(
        &mut w.ctx,
        &w.e,
        &w.model,
        &w.embed,
        "bad\0prompt",
        "Go",
        64,
        &mut n_past,
    );
    assert!(matches!(r, Err(EvalError::Tokenize(_))));
    assert_eq!(n_past, 0);
}

#[test]
fn process_prompt_runs_the_whole_conversation() {
    let mut w = setup(1024, 7);
    let mut e2 = FakeEngine::new(16);
    let mut sampler = LlamaSampler::chain_simple(
        &mut e2,
        vec![SamplerStage::Dist { seed: 1234 }, SamplerStage::Greedy],
    );
    let out = process_prompt(
        &mut w.ctx,
        &w.e,
        &w.model,
        &w.embed,
        &mut sampler,
        "A chat.",
        "describe the image in detail.\nASSISTANT:",
        512,
        64,
    )
    .unwrap();
    assert!(out.tokens.len() <= 64);
    assert!(out.tokens.iter().all(|t| *t != w.model.token_eos()));
    if !out.stopped_at_eos {
        assert_eq!(out.tokens.len(), 64);
    }
}

#[test]
fn generation_window_overflow_surfaces_partial_output() {
    // The prompts leave exactly one free window position: the first
    // generated token decodes, the second cannot.
    let mut w = setup(14, 7);
    let mut e2 = FakeEngine::new(16);
    let mut sampler = LlamaSampler::chain_simple(&mut e2, vec![SamplerStage::Greedy]);
    let r = process_prompt(
        &mut w.ctx,
        &w.e,
        &w.model,
        &w.embed,
        &mut sampler,
        "Hi",
        "Go!",
        64,
        10,
    );
    match r {
        Err(ProcessError::Generate(ge)) => {
            assert_eq!(ge.cause.batch_size, 1);
            assert_eq!(ge.cause.context_window_remaining, 0);
            assert_eq!(ge.partial_tokens.len(), ge.index + 1);
        },
        other => panic!("expected a window-full failure, got {:?}", other),
    }
}

#[test]
fn prompt_errors_leave_the_sampler_untouched() {
    let mut w = setup(8, 100);
    let mut e2 = FakeEngine::new(16);
    let mut sampler = LlamaSampler::chain_simple(&mut e2, vec![SamplerStage::Dist { seed: 7 }]);
    let rng_before = sampler.rng;
    let r = process_prompt(
        &mut w.ctx,
        &w.e,
        &w.model,
        &w.embed,
        &mut sampler,
        "Hi",
        "Go",
        8,
        10,
    );
    assert!(matches!(r, Err(ProcessError::Eval(_))));
    assert_eq!(sampler.rng, rng_before);
    assert!(sampler.prev.is_empty());
}
