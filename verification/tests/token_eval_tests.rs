//! Token-vector conversions, chunked prompt evaluation, and context decode
//! bookkeeping.

use llama_wrap::backend::LlamaBackend;
use llama_wrap::batch::LlamaBatch;
use llama_wrap::engine::FakeEngine;
use llama_wrap::eval::eval_token;
use llama_wrap::model::LlamaModel;
use llama_wrap::params::{LlamaContextParams, LlamaModelParams};
use llama_wrap::token::{from_vec_token_sys, to_vec_token_sys, LlamaToken};

#[test]
fn token_vectors_convert_in_both_directions() {
    let raw = vec![5i32, -1, 300];
    let toks = from_vec_token_sys(raw.clone());
    assert_eq!(
        toks,
        vec![LlamaToken::new(5), LlamaToken::new(-1), LlamaToken::new(300)]
    );
    assert_eq!(to_vec_token_sys(toks), raw);
}

fn setup(n_ctx: u32) -> (FakeEngine, LlamaModel, llama_wrap::context::LlamaContext) {
    let mut e = FakeEngine::new(4096);
    e.register_model_file(String::from("weights.gguf"));
    let backend = LlamaBackend::init(&mut e).unwrap();
    let model =
        LlamaModel::load_from_file(&mut e, &backend, "weights.gguf", &LlamaModelParams::default())
            .unwrap();
    let ctx = model
        .new_context(&mut e, &LlamaContextParams::default().with_n_ctx(n_ctx))
        .unwrap();
    (e, model, ctx)
}

#[test]
fn evaluation_chunks_by_batch_size_and_returns_the_last_chunk() {
    let (e, _model, mut ctx) = setup(64);
    let tokens: Vec<LlamaToken> = (0..5).map(|i| LlamaToken::new(10 + i)).collect();
    let mut n_past: i32 = 0;
    let n_eval = eval_token(&mut ctx, &e, &tokens, 2, &mut n_past).unwrap();
    // Chunks of 2, 2, 1: the final chunk has one token.
    assert_eq!(n_eval, 1);
    assert_eq!(n_past, 5);
    assert_eq!(ctx.n_past, 5);
}

#[test]
fn evaluation_stops_at_the_chunk_that_does_not_fit() {
    let (e, _model, mut ctx) = setup(3);
    let tokens: Vec<LlamaToken> = (0..6).map(|i| LlamaToken::new(10 + i)).collect();
    let mut n_past: i32 = 0;
    let err = eval_token(&mut ctx, &e, &tokens, 2, &mut n_past).unwrap_err();
    // One full chunk fits; the second chunk of 2 finds only 1 position.
    assert_eq!(err.batch_size, 2);
    assert_eq!(err.context_window_remaining, 1);
    assert_eq!(n_past, 2);
}

#[test]
fn decode_rejects_empty_and_oversized_batches() {
    let (e, _model, mut ctx) = setup(2);
    let empty = LlamaBatch::new(4);
    let err = ctx.decode(&e, &empty).unwrap_err();
    assert_eq!(err.batch_size, 0);
    assert_eq!(err.context_window_remaining, 2);

    let toks: Vec<LlamaToken> = (0..3).map(LlamaToken::new).collect();
    let big = LlamaBatch::get_one(&toks).unwrap();
    let err = ctx.decode(&e, &big).unwrap_err();
    assert_eq!(err.batch_size, 3);
    assert_eq!(err.context_window_remaining, 2);
    assert_eq!(ctx.n_past, 0);
}

#[test]
fn logits_are_retrievable_only_where_requested() {
    let (e, model, mut ctx) = setup(16);
    let toks = [LlamaToken::new(70), LlamaToken::new(71)];
    let batch = LlamaBatch::get_one(&toks).unwrap();
    ctx.decode(&e, &batch).unwrap();
    let v = ctx.logits_at(1).unwrap();
    assert_eq!(v.len(), model.vocab_size() as usize);
    assert!(ctx.logits_at(0).is_err());
    assert!(ctx.logits_at(2).is_err());
}

#[test]
fn timing_summary_counts_decodes_unless_disabled() {
    let (e, model, mut ctx) = setup(16);
    let batch = LlamaBatch::get_one(&[LlamaToken::new(70)]).unwrap();
    ctx.decode(&e, &batch).unwrap();
    ctx.decode(&e, &batch).unwrap();
    let t = ctx.timing_summary();
    assert_eq!(t.decode_calls, 2);
    assert_eq!(t.tokens_decoded, 2);

    let mut e2 = FakeEngine::new(4096);
    e2.register_model_file(String::from("weights.gguf"));
    let backend = LlamaBackend::init(&mut e2).unwrap();
    let model2 = LlamaModel::load_from_file(
        &mut e2,
        &backend,
        "weights.gguf",
        &LlamaModelParams::default(),
    )
    .unwrap();
    let params = LlamaContextParams::default().with_n_ctx(16).with_no_perf(true);
    let mut quiet = model2.new_context(&mut e2, &params).unwrap();
    quiet.decode(&e2, &batch).unwrap();
    assert_eq!(quiet.timing_summary().decode_calls, 0);
    assert_eq!(quiet.timing_summary().tokens_decoded, 1);
    let _ = model;
}

#[test]
fn context_params_builders_set_their_fields() {
    let p = LlamaContextParams::default()
        .with_n_ctx(2048)
        .with_n_threads(16)
        .with_n_threads_batch(8)
        .with_no_perf(true);
    assert_eq!(p.n_ctx, 2048);
    assert_eq!(p.n_threads, 16);
    assert_eq!(p.n_threads_batch, 8);
    assert!(p.no_perf);
}
