//! The multimodal bridge: projector loading, image conversion, and patch
//! evaluation against the shared running position.

use llama_wrap::backend::LlamaBackend;
use llama_wrap::engine::FakeEngine;
use llama_wrap::errors::{ImageError, LoadError};
use llama_wrap::llava::{ClipCtx, LlavaImageEmbed};
use llama_wrap::model::LlamaModel;
use llama_wrap::params::{LlamaContextParams, LlamaModelParams};

fn setup() -> FakeEngine {
    let mut e = FakeEngine::new(64);
    e.register_model_file(String::from("weights.gguf"));
    e.register_projector_file(String::from("mmproj.gguf"));
    e.register_image_file(String::from("cat.jpg"), 7);
    e
}

#[test]
fn missing_projector_file_is_reported() {
    let mut e = setup();
    match ClipCtx::load_from_file(&mut e, "nope.gguf", 1) {
        Err(LoadError::FileNotFound { path }) => assert_eq!(path, "nope.gguf"),
        other => panic!("expected FileNotFound, got {:?}", other),
    }
}

#[test]
fn unreadable_image_is_reported_and_allocates_nothing() {
    let mut e = setup();
    let clip = ClipCtx::load_from_file(&mut e, "mmproj.gguf", 1).unwrap();
    let allocs = e.allocs;
    match LlavaImageEmbed::make_with_file(&mut e, &clip, 4, "dog.jpg") {
        Err(ImageError::FileNotFound { path }) => assert_eq!(path, "dog.jpg"),
        other => panic!("expected FileNotFound, got {:?}", other),
    }
    assert_eq!(e.allocs, allocs);
}

#[test]
fn image_embedding_carries_the_patch_count() {
    let mut e = setup();
    let clip = ClipCtx::load_from_file(&mut e, "mmproj.gguf", 1).unwrap();
    let embed = LlavaImageEmbed::make_with_file(&mut e, &clip, 4, "cat.jpg").unwrap();
    assert_eq!(embed.n_patches, 7);
}

#[test]
fn image_eval_advances_the_running_position_by_patch_count() {
    let mut e = setup();
    let backend = LlamaBackend::init(&mut e).unwrap();
    let model =
        LlamaModel::load_from_file(&mut e, &backend, "weights.gguf", &LlamaModelParams::default())
            .unwrap();
    let mut ctx = model
        .new_context(&mut e, &LlamaContextParams::default().with_n_ctx(32))
        .unwrap();
    let clip = ClipCtx::load_from_file(&mut e, "mmproj.gguf", 1).unwrap();
    let embed = LlavaImageEmbed::make_with_file(&mut e, &clip, 4, "cat.jpg").unwrap();
    let mut n_past: i32 = 0;
    embed.eval(&e, &mut ctx, 3, &mut n_past).unwrap();
    assert_eq!(n_past, 7);
    assert_eq!(ctx.n_past, 7);
    // Image decoding requests no logits.
    assert!(ctx.logits_at(0).is_err());
}

#[test]
fn image_eval_that_overfills_the_window_fails() {
    let mut e = setup();
    let backend = LlamaBackend::init(&mut e).unwrap();
    let model =
        LlamaModel::load_from_file(&mut e, &backend, "weights.gguf", &LlamaModelParams::default())
            .unwrap();
    let mut ctx = model
        .new_context(&mut e, &LlamaContextParams::default().with_n_ctx(5))
        .unwrap();
    let clip = ClipCtx::load_from_file(&mut e, "mmproj.gguf", 1).unwrap();
    let embed = LlavaImageEmbed::make_with_file(&mut e, &clip, 4, "cat.jpg").unwrap();
    let mut n_past: i32 = 0;
    let err = embed.eval(&e, &mut ctx, 3, &mut n_past).unwrap_err();
    // The first chunk of 3 fits; the second finds only 2 free positions.
    assert_eq!(err.batch_size, 3);
    assert_eq!(err.context_window_remaining, 2);
    assert_eq!(n_past, 3);
}
