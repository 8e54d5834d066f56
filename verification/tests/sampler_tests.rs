//! Sampler chains: determinism under a fixed seed and fixed logits, greedy
//! selection, and the logits-position discipline.

use llama_wrap::backend::LlamaBackend;
use llama_wrap::batch::LlamaBatch;
use llama_wrap::engine::FakeEngine;
use llama_wrap::model::LlamaModel;
use llama_wrap::params::{LlamaContextParams, LlamaModelParams};
use llama_wrap::sampler::{LlamaSampler, SamplerStage};
use llama_wrap::token::LlamaToken;

#[test]
fn fixed_seed_and_fixed_logits_sample_the_same_token() {
    let mut e = FakeEngine::new(2048);
    let logits: Vec<i32> = vec![3, -7, 12, 12, 0, -3, 8];
    let mut s1 = LlamaSampler::chain_simple(&mut e, vec![SamplerStage::Dist { seed: 1234 }]);
    let mut s2 = LlamaSampler::chain_simple(&mut e, vec![SamplerStage::Dist { seed: 1234 }]);
    let t1 = s1.sample_logits(&logits);
    let t2 = s2.sample_logits(&logits);
    assert_eq!(t1, t2);
    // And again from the same state: still in lockstep.
    assert_eq!(s1.sample_logits(&logits), s2.sample_logits(&logits));
}

#[test]
fn greedy_selects_the_first_largest_logit() {
    let mut e = FakeEngine::new(2048);
    let mut s = LlamaSampler::chain_simple(&mut e, vec![SamplerStage::Greedy]);
    assert_eq!(s.sample_logits(&vec![1, 9, 3]), LlamaToken::new(1));
    // Ties go to the earlier index.
    assert_eq!(s.sample_logits(&vec![5, 9, 9]), LlamaToken::new(1));
    assert_eq!(s.sample_logits(&vec![-4]), LlamaToken::new(0));
}

#[test]
fn later_stages_override_earlier_selections() {
    let mut e = FakeEngine::new(2048);
    // The chain applies stages in order, so a greedy stage after the
    // distribution stage decides the result.
    let mut s = LlamaSampler::chain_simple(
        &mut e,
        vec![SamplerStage::Dist { seed: 1234 }, SamplerStage::Greedy],
    );
    assert_eq!(s.sample_logits(&vec![0, 2, 50, 2]), LlamaToken::new(2));
}

#[test]
fn accept_records_the_token_history() {
    let mut e = FakeEngine::new(2048);
    let mut s = LlamaSampler::chain_simple(&mut e, vec![SamplerStage::Greedy]);
    s.accept(LlamaToken::new(7));
    s.accept(LlamaToken::new(9));
    assert_eq!(s.prev, vec![LlamaToken::new(7), LlamaToken::new(9)]);
}

#[test]
fn sampling_requires_a_marked_logits_position() {
    let mut e = FakeEngine::new(2048);
    e.register_model_file(String::from("weights.gguf"));
    let backend = LlamaBackend::init(&mut e).unwrap();
    let model =
        LlamaModel::load_from_file(&mut e, &backend, "weights.gguf", &LlamaModelParams::default())
            .unwrap();
    let mut ctx = model
        .new_context(&mut e, &LlamaContextParams::default().with_n_ctx(64))
        .unwrap();
    let batch = LlamaBatch::get_one(&[LlamaToken::new(68), LlamaToken::new(69)]).unwrap();
    ctx.decode(&e, &batch).unwrap();
    let mut s = LlamaSampler::chain_simple(&mut e, vec![SamplerStage::Greedy]);
    // Only the final batch position kept its logits.
    let t = s.sample(&ctx, 1).unwrap();
    assert!(t.0 >= 0 && t.0 < model.vocab_size());
    let err = s.sample(&ctx, 0).unwrap_err();
    assert_eq!(err.position, 0);
    assert!(s.sample(&ctx, 5).is_err());
}
