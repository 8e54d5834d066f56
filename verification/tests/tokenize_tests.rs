//! Vocabulary operations on the engine's byte-level vocabulary: BOS
//! handling, NUL rejection, and token-to-byte-fragment conversion.

use llama_wrap::backend::LlamaBackend;
use llama_wrap::engine::FakeEngine;
use llama_wrap::model::{AddBos, LlamaModel, Special};
use llama_wrap::params::LlamaModelParams;
use llama_wrap::token::LlamaToken;

fn load_model() -> (FakeEngine, LlamaModel) {
    let mut e = FakeEngine::new(2048);
    e.register_model_file(String::from("weights.gguf"));
    let backend = LlamaBackend::init(&mut e).unwrap();
    let model =
        LlamaModel::load_from_file(&mut e, &backend, "weights.gguf", &LlamaModelParams::default())
            .unwrap();
    (e, model)
}

#[test]
fn tokenizing_a_with_bos_always_yields_bos_then_id_of_a() {
    let (e, model) = load_model();
    // The vocabulary's BOS id is 1; byte b tokenizes to id 3 + b, so "A"
    // (byte 65) is id 68.
    assert_eq!(model.token_bos(), LlamaToken::new(1));
    let toks = model.str_to_token(&e, "A", AddBos::Always).unwrap();
    assert_eq!(toks, vec![LlamaToken::new(1), LlamaToken::new(68)]);
}

#[test]
fn tokenizing_a_with_bos_never_yields_only_id_of_a() {
    let (e, model) = load_model();
    let toks = model.str_to_token(&e, "A", AddBos::Never).unwrap();
    assert_eq!(toks, vec![LlamaToken::new(68)]);
}

#[test]
fn tokenizing_with_bos_auto_follows_vocabulary_default() {
    let (e, model) = load_model();
    let toks = model.str_to_token(&e, "A", AddBos::Auto).unwrap();
    assert_eq!(toks, vec![LlamaToken::new(1), LlamaToken::new(68)]);
}

#[test]
fn multibyte_text_tokenizes_per_byte() {
    let (e, model) = load_model();
    // 'é' encodes as 0xC3 0xA9: two byte tokens.
    let toks = model.str_to_token(&e, "é", AddBos::Never).unwrap();
    assert_eq!(
        toks,
        vec![LlamaToken::new(3 + 0xC3), LlamaToken::new(3 + 0xA9)]
    );
}

#[test]
fn interior_nul_is_rejected_with_its_position() {
    let (e, model) = load_model();
    let err = model.str_to_token(&e, "ab\0cd", AddBos::Never).unwrap_err();
    assert_eq!(err.nul_position, 2);
}

#[test]
fn token_to_bytes_inverts_byte_tokens() {
    let (e, model) = load_model();
    let bytes = model
        .token_to_bytes(&e, LlamaToken::new(68), Special::Tokenize)
        .unwrap();
    assert_eq!(bytes, vec![65u8]);
}

#[test]
fn special_tokens_render_marker_text_or_nothing() {
    let (e, model) = load_model();
    let bos = model
        .token_to_bytes(&e, model.token_bos(), Special::Tokenize)
        .unwrap();
    assert_eq!(bos, b"<s>".to_vec());
    let eos = model
        .token_to_bytes(&e, model.token_eos(), Special::Tokenize)
        .unwrap();
    assert_eq!(eos, b"</s>".to_vec());
    let silent = model
        .token_to_bytes(&e, model.token_bos(), Special::Plaintext)
        .unwrap();
    assert!(silent.is_empty());
}

#[test]
fn out_of_range_token_is_rejected() {
    let (e, model) = load_model();
    let err = model
        .token_to_bytes(&e, LlamaToken::new(300), Special::Tokenize)
        .unwrap_err();
    assert_eq!(err.id, 300);
    assert_eq!(err.n_vocab, 259);
    assert!(model
        .token_to_bytes(&e, LlamaToken::new(-1), Special::Tokenize)
        .is_err());
}

#[test]
fn vocabulary_metadata_is_exposed() {
    let (_e, model) = load_model();
    assert_eq!(model.vocab_size(), 259);
    assert_eq!(model.token_bos(), LlamaToken::new(1));
    assert_eq!(model.token_eos(), LlamaToken::new(2));
}
