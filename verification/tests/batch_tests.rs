//! Batch capacity and construction: `add` fails exactly at the capacity
//! boundary, and `get_one` requests logits only at the final token.

use llama_wrap::batch::LlamaBatch;
use llama_wrap::errors::{BatchAddError, CapacityError};
use llama_wrap::token::LlamaToken;

#[test]
fn add_fails_exactly_when_capacity_would_be_exceeded() {
    let mut b = LlamaBatch::new(2);
    assert!(b.add(LlamaToken::new(10), 0, &[0], false).is_ok());
    assert!(b.add(LlamaToken::new(11), 1, &[0], true).is_ok());
    assert_eq!(b.len(), 2);
    let r = b.add(LlamaToken::new(12), 2, &[0], false);
    assert_eq!(r, Err(CapacityError { capacity: 2, requested: 3 }));
    // Nothing was silently truncated or appended.
    assert_eq!(b.len(), 2);
    assert_eq!(b.entries[1].token, LlamaToken::new(11));
}

#[test]
fn add_succeeds_below_capacity() {
    let mut b = LlamaBatch::new(4);
    for i in 0..4 {
        assert!(b.add(LlamaToken::new(i), i, &[0], i == 3).is_ok());
    }
    assert_eq!(b.len(), 4);
}

#[test]
fn get_one_requests_logits_only_at_last_position() {
    let tokens = [LlamaToken::new(5), LlamaToken::new(6), LlamaToken::new(7)];
    let b = LlamaBatch::get_one(&tokens).unwrap();
    assert_eq!(b.len(), 3);
    for i in 0..3 {
        assert_eq!(b.entries[i].token, tokens[i]);
        assert_eq!(b.entries[i].pos, i as i32);
        assert_eq!(b.entries[i].seq_ids, vec![0]);
        assert_eq!(b.entries[i].logits, i == 2);
    }
}

#[test]
fn get_one_rejects_empty_input() {
    let r = LlamaBatch::get_one(&[]);
    assert_eq!(r.err(), Some(BatchAddError::EmptyBuffer));
}

#[test]
fn clear_keeps_capacity() {
    let mut b = LlamaBatch::new(3);
    b.add(LlamaToken::new(1), 0, &[0], true).unwrap();
    b.clear();
    assert_eq!(b.len(), 0);
    assert_eq!(b.capacity, 3);
    assert!(b.add(LlamaToken::new(2), 0, &[0], true).is_ok());
}
