//! Resource lifecycle: every load/free pair balances, double frees fail,
//! and dependents block their parents, all counted by the fake engine.

use llama_wrap::backend::LlamaBackend;
use llama_wrap::context::LlamaContext;
use llama_wrap::engine::FakeEngine;
use llama_wrap::errors::{BackendError, FreeError, LoadError};
use llama_wrap::llava::{ClipCtx, LlavaImageEmbed};
use llama_wrap::model::LlamaModel;
use llama_wrap::params::{LlamaContextParams, LlamaModelParams, ParamOverrideValue};
use llama_wrap::sampler::{LlamaSampler, SamplerStage};

fn engine_with_files() -> FakeEngine {
    let mut e = FakeEngine::new(2048);
    e.register_model_file(String::from("weights.gguf"));
    e.register_projector_file(String::from("mmproj.gguf"));
    e.register_image_file(String::from("cat.jpg"), 576);
    e.register_override_key(String::from("n_gpu_layers"));
    e
}

fn default_ctx_params() -> LlamaContextParams {
    LlamaContextParams::default()
        .with_n_ctx(1024)
        .with_n_threads(16)
        .with_n_threads_batch(16)
}

#[test]
fn full_lifecycle_balances_allocations_and_frees() {
    let mut e = engine_with_files();
    let backend = LlamaBackend::init(&mut e).unwrap();
    let model =
        LlamaModel::load_from_file(&mut e, &backend, "weights.gguf", &LlamaModelParams::default())
            .unwrap();
    let ctx: LlamaContext = model.new_context(&mut e, &default_ctx_params()).unwrap();
    let sampler = LlamaSampler::chain_simple(
        &mut e,
        vec![SamplerStage::Dist { seed: 1234 }, SamplerStage::Greedy],
    );
    let clip = ClipCtx::load_from_file(&mut e, "mmproj.gguf", 1).unwrap();
    let embed = LlavaImageEmbed::make_with_file(&mut e, &clip, 4, "cat.jpg").unwrap();
    assert_eq!(e.allocs, 6);
    assert_eq!(e.frees, 0);
    assert_eq!(e.live_count(), 6);

    embed.free(&mut e).unwrap();
    clip.free(&mut e).unwrap();
    sampler.free(&mut e).unwrap();
    ctx.free(&mut e).unwrap();
    model.free(&mut e).unwrap();
    backend.free(&mut e).unwrap();
    assert_eq!(e.allocs, 6);
    assert_eq!(e.frees, 6);
    assert_eq!(e.live_count(), 0);
}

#[test]
fn double_free_is_rejected() {
    let mut e = engine_with_files();
    let backend = LlamaBackend::init(&mut e).unwrap();
    assert!(backend.free(&mut e).is_ok());
    assert_eq!(backend.free(&mut e), Err(FreeError::NotLive));
    assert_eq!(e.allocs, 1);
    assert_eq!(e.frees, 1);
}

#[test]
fn freeing_model_with_live_context_is_rejected() {
    let mut e = engine_with_files();
    let backend = LlamaBackend::init(&mut e).unwrap();
    let model =
        LlamaModel::load_from_file(&mut e, &backend, "weights.gguf", &LlamaModelParams::default())
            .unwrap();
    let ctx = model.new_context(&mut e, &default_ctx_params()).unwrap();
    assert_eq!(model.free(&mut e), Err(FreeError::DependentsLive));
    assert_eq!(backend.free(&mut e), Err(FreeError::DependentsLive));
    ctx.free(&mut e).unwrap();
    model.free(&mut e).unwrap();
    backend.free(&mut e).unwrap();
    assert_eq!(e.allocs, e.frees);
}

#[test]
fn backend_initializes_once() {
    let mut e = engine_with_files();
    let backend = LlamaBackend::init(&mut e).unwrap();
    assert!(matches!(
        LlamaBackend::init(&mut e),
        Err(BackendError::AlreadyInitialized)
    ));
    backend.free(&mut e).unwrap();
    assert!(LlamaBackend::init(&mut e).is_ok());
}

#[test]
fn failed_load_leaks_nothing() {
    let mut e = engine_with_files();
    let backend = LlamaBackend::init(&mut e).unwrap();
    let allocs_before = e.allocs;
    let r = LlamaModel::load_from_file(&mut e, &backend, "missing.gguf", &LlamaModelParams::default());
    match r {
        Err(LoadError::FileNotFound { path }) => assert_eq!(path, "missing.gguf"),
        other => panic!("expected FileNotFound, got {:?}", other),
    }
    assert_eq!(e.allocs, allocs_before);
}

#[test]
fn unknown_override_key_is_rejected() {
    let mut e = engine_with_files();
    let backend = LlamaBackend::init(&mut e).unwrap();
    let mut params = LlamaModelParams::default();
    params.append_kv_override(String::from("n_gpu_layers"), ParamOverrideValue::Int(8));
    params.append_kv_override(String::from("bogus_key"), ParamOverrideValue::Bool(true));
    let r = LlamaModel::load_from_file(&mut e, &backend, "weights.gguf", &params);
    match r {
        Err(LoadError::BadOverride { key }) => assert_eq!(key, "bogus_key"),
        other => panic!("expected BadOverride, got {:?}", other),
    }
    let mut good = LlamaModelParams::default().with_n_gpu_layers(1000);
    good.append_kv_override(String::from("n_gpu_layers"), ParamOverrideValue::Int(8));
    assert!(LlamaModel::load_from_file(&mut e, &backend, "weights.gguf", &good).is_ok());
}

#[test]
fn context_window_is_bounded_by_engine() {
    let mut e = engine_with_files();
    let backend = LlamaBackend::init(&mut e).unwrap();
    let model =
        LlamaModel::load_from_file(&mut e, &backend, "weights.gguf", &LlamaModelParams::default())
            .unwrap();
    let params = LlamaContextParams::default().with_n_ctx(4096);
    let r = model.new_context(&mut e, &params);
    match r {
        Err(llama_wrap::errors::ContextError::WindowTooLarge { requested, max }) => {
            assert_eq!(requested, 4096);
            assert_eq!(max, 2048);
        },
        other => panic!("expected WindowTooLarge, got {:?}", other),
    }
}
