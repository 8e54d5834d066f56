//! The generation loop: stops at the first end-of-sequence token or at the
//! configured maximum, never emits more, and surfaces decode failures with
//! the token index and the partial output.

use llama_wrap::backend::LlamaBackend;
use llama_wrap::engine::FakeEngine;
use llama_wrap::eval::eval_string;
use llama_wrap::generate::{generate, generate_step, GenStep};
use llama_wrap::model::{AddBos, LlamaModel};
use llama_wrap::params::{LlamaContextParams, LlamaModelParams};
use llama_wrap::sampler::{LlamaSampler, SamplerStage};
use llama_wrap::token::LlamaToken;

fn setup(n_ctx: u32) -> (FakeEngine, LlamaModel, llama_wrap::context::LlamaContext) {
    let mut e = FakeEngine::new(4096);
    e.register_model_file(String::from("weights.gguf"));
    let backend = LlamaBackend::init(&mut e).unwrap();
    let model =
        LlamaModel::load_from_file(&mut e, &backend, "weights.gguf", &LlamaModelParams::default())
            .unwrap();
    let ctx = model
        .new_context(&mut e, &LlamaContextParams::default().with_n_ctx(n_ctx))
        .unwrap();
    (e, model, ctx)
}

/// The engine's deterministic logit for (window position, batch position,
/// vocabulary entry).
fn fake_logit(n_past: u32, i: usize, v: usize) -> i32 {
    ((n_past as u64 + 7 * i as u64 + 13 * v as u64) % 101) as i32 - 50
}

/// Greedy choice the engine's logits produce at one step.
fn greedy_at(n_past: u32, i: usize) -> i32 {
    let mut best = 0usize;
    for v in 1..259 {
        if fake_logit(n_past, i, v) > fake_logit(n_past, i, best) {
            best = v;
        }
    }
    best as i32
}

/// What a greedy generation loop must emit: tokens until the first
/// end-of-sequence choice or the maximum, whichever comes first.
fn predict_greedy(mut n_past: u32, first_pos: usize, max_len: usize) -> (Vec<LlamaToken>, bool) {
    let mut toks = Vec::new();
    let mut pos = first_pos;
    for _ in 0..max_len {
        let t = greedy_at(n_past, pos);
        if t == 2 {
            return (toks, true);
        }
        toks.push(LlamaToken::new(t));
        n_past += 1;
        pos = 0;
    }
    (toks, false)
}

#[test]
fn generation_matches_the_deterministic_prediction() {
    let (e, model, mut ctx) = setup(512);
    let mut n_past: i32 = 0;
    let logit = eval_string(&mut ctx, &e, &model, "Hello", 64, &mut n_past, AddBos::Always)
        .unwrap();
    assert_eq!(n_past, 6); // BOS + five byte tokens
    let mut e2 = FakeEngine::new(16);
    let mut sampler = LlamaSampler::chain_simple(&mut e2, vec![SamplerStage::Greedy]);

    let (expected, expect_eos) = predict_greedy(6, (logit - 1) as usize, 40);
    let out = generate(&mut ctx, &e, &model, &mut sampler, logit, 40).unwrap();
    assert_eq!(out.tokens, expected);
    assert_eq!(out.stopped_at_eos, expect_eos);
    // Never more than the maximum, and never the end-of-sequence token.
    assert!(out.tokens.len() <= 40);
    assert!(out.tokens.iter().all(|t| *t != model.token_eos()));
    if !out.stopped_at_eos {
        assert_eq!(out.tokens.len(), 40);
    }
}

#[test]
fn generation_never_exceeds_the_maximum() {
    let (e, model, mut ctx) = setup(512);
    let mut n_past: i32 = 0;
    let logit = eval_string(&mut ctx, &e, &model, "x", 64, &mut n_past, AddBos::Always).unwrap();
    let mut e2 = FakeEngine::new(16);
    let mut sampler = LlamaSampler::chain_simple(
        &mut e2,
        vec![SamplerStage::Dist { seed: 1234 }, SamplerStage::Greedy],
    );
    let out = generate(&mut ctx, &e, &model, &mut sampler, logit, 3).unwrap();
    assert!(out.tokens.len() <= 3);
    assert!(out.tokens.iter().all(|t| *t != model.token_eos()));
}

#[test]
fn window_exhaustion_aborts_with_index_and_partial_output() {
    let (e, model, mut ctx) = setup(4);
    let mut n_past: i32 = 0;
    // Three prompt tokens leave one free window position.
    let logit = eval_string(&mut ctx, &e, &model, "Hi", 64, &mut n_past, AddBos::Always).unwrap();
    assert_eq!(n_past, 3);
    let mut e2 = FakeEngine::new(16);
    let mut sampler = LlamaSampler::chain_simple(&mut e2, vec![SamplerStage::Greedy]);
    let err = generate(&mut ctx, &e, &model, &mut sampler, logit, 10).unwrap_err();
    // The first token decodes into the last free position; the second
    // cannot be decoded.
    assert_eq!(err.index, 1);
    assert_eq!(err.cause.batch_size, 1);
    assert_eq!(err.cause.context_window_remaining, 0);
    assert_eq!(err.partial_tokens.len(), 2);
}

#[test]
fn generation_reconstructs_token_text_through_the_decoder() {
    let (e, model, mut ctx) = setup(512);
    let mut n_past: i32 = 0;
    let logit = eval_string(&mut ctx, &e, &model, "Hello", 64, &mut n_past, AddBos::Always)
        .unwrap();
    let mut e2 = FakeEngine::new(16);
    let mut sampler = LlamaSampler::chain_simple(&mut e2, vec![SamplerStage::Greedy]);
    let out = generate(&mut ctx, &e, &model, &mut sampler, logit, 8).unwrap();
    // Every emitted token is a byte token; its text is that byte decoded
    // incrementally (multi-byte fragments may still be pending).
    let bytes: Vec<u8> = out.tokens.iter().map(|t| (t.0 - 3) as u8).collect();
    let mut d = llama_wrap::utf8::Utf8Decoder::new();
    let expected = d.feed(&bytes);
    assert_eq!(out.text, expected);
}

#[test]
fn single_steps_reproduce_the_whole_loop() {
    // Two identical worlds: one runs the loop, the other steps manually.
    let (e1, model1, mut ctx1) = setup(512);
    let (e2, model2, mut ctx2) = setup(512);
    let mut n1: i32 = 0;
    let mut n2: i32 = 0;
    let logit1 = eval_string(&mut ctx1, &e1, &model1, "Hello", 64, &mut n1, AddBos::Always)
        .unwrap();
    let logit2 = eval_string(&mut ctx2, &e2, &model2, "Hello", 64, &mut n2, AddBos::Always)
        .unwrap();
    let mut se = FakeEngine::new(16);
    let mut s1 = LlamaSampler::chain_simple(&mut se, vec![SamplerStage::Greedy]);
    let mut s2 = LlamaSampler::chain_simple(&mut se, vec![SamplerStage::Greedy]);

    let out = generate(&mut ctx1, &e1, &model1, &mut s1, logit1, 12).unwrap();

    let mut decoder = llama_wrap::utf8::Utf8Decoder::new();
    let mut tokens = Vec::new();
    let mut text = Vec::new();
    let mut pos = (logit2 - 1) as usize;
    let mut stopped_at_eos = false;
    for _ in 0..12 {
        match generate_step(&mut ctx2, &e2, &model2, &mut s2, &mut decoder, pos) {
            GenStep::Eos => {
                stopped_at_eos = true;
                break;
            },
            GenStep::Emitted { token, text: chunk } => {
                tokens.push(token);
                text.extend(chunk);
                pos = 0;
            },
            GenStep::WindowFull { .. } => panic!("window cannot fill here"),
        }
    }
    assert_eq!(tokens, out.tokens);
    assert_eq!(text, out.text);
    assert_eq!(stopped_at_eos, out.stopped_at_eos);
    assert_eq!(ctx1.n_past, ctx2.n_past);
}

#[test]
fn step_reports_a_full_window_without_changing_the_context() {
    let (e, model, mut ctx) = setup(3);
    let mut n_past: i32 = 0;
    let logit = eval_string(&mut ctx, &e, &model, "Hi", 64, &mut n_past, AddBos::Always).unwrap();
    let mut se = FakeEngine::new(16);
    let mut sampler = LlamaSampler::chain_simple(&mut se, vec![SamplerStage::Greedy]);
    let mut decoder = llama_wrap::utf8::Utf8Decoder::new();
    let before = ctx.n_past;
    match generate_step(&mut ctx, &e, &model, &mut sampler, &mut decoder, (logit - 1) as usize) {
        GenStep::WindowFull { cause, .. } => {
            assert_eq!(cause.batch_size, 1);
            assert_eq!(cause.context_window_remaining, 0);
        },
        other => panic!("expected a full window, got {:?}", other),
    }
    assert_eq!(ctx.n_past, before);
    // The sampled token was still accepted into the chain's history.
    assert_eq!(sampler.prev.len(), 1);
}
