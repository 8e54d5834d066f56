//! Incremental UTF-8 reconstruction: fragments split inside a code point
//! decode exactly once the missing bytes arrive, never in isolation.

use llama_wrap::utf8::Utf8Decoder;

#[test]
fn code_point_split_across_two_fragments_reconstructs_exactly() {
    // 'é' encodes as [0xC3, 0xA9]; each fragment alone is not decodable.
    let mut d = Utf8Decoder::new();
    let first = d.feed(&[0xC3]);
    assert!(first.is_empty());
    assert_eq!(d.pending_len(), 1);
    let second = d.feed(&[0xA9]);
    assert_eq!(second, vec!['é']);
    assert_eq!(d.pending_len(), 0);
}

#[test]
fn decoding_a_lone_fragment_yields_nothing() {
    // A fresh decoder fed only the first half of a code point must not
    // pretend to have decoded anything.
    let mut d = Utf8Decoder::new();
    let out = d.feed(&[0xE2, 0x82]);
    assert!(out.is_empty());
    assert_eq!(d.pending_len(), 2);
}

#[test]
fn three_byte_code_point_split_at_each_boundary() {
    // '€' encodes as [0xE2, 0x82, 0xAC].
    for split in 0..4 {
        let bytes = [0xE2u8, 0x82, 0xAC];
        let mut d = Utf8Decoder::new();
        let mut out = d.feed(&bytes[..split]);
        out.extend(d.feed(&bytes[split..]));
        assert_eq!(out, vec!['€'], "split at {}", split);
        assert_eq!(d.pending_len(), 0);
    }
}

#[test]
fn four_byte_code_point_one_byte_at_a_time() {
    // U+1F600 encodes as [0xF0, 0x9F, 0x98, 0x80].
    let mut d = Utf8Decoder::new();
    assert!(d.feed(&[0xF0]).is_empty());
    assert!(d.feed(&[0x9F]).is_empty());
    assert!(d.feed(&[0x98]).is_empty());
    assert_eq!(d.feed(&[0x80]), vec!['\u{1F600}']);
}

#[test]
fn ascii_passes_through_unbuffered() {
    let mut d = Utf8Decoder::new();
    let out = d.feed(b"Hi!");
    assert_eq!(out, vec!['H', 'i', '!']);
    assert_eq!(d.pending_len(), 0);
}

#[test]
fn invalid_bytes_become_replacement_characters() {
    let mut d = Utf8Decoder::new();
    // A stray continuation byte cannot start a code point.
    assert_eq!(d.feed(&[0x80]), vec!['\u{FFFD}']);
    // An aborted two-byte sequence is replaced, and decoding restarts.
    assert_eq!(d.feed(&[0xC3, 0x41]), vec!['\u{FFFD}', 'A']);
    // An overlong encoding is rejected, not decoded.
    assert_eq!(d.feed(&[0xC0, 0x80]), vec!['\u{FFFD}']);
}

#[test]
fn mixed_stream_decodes_in_order() {
    let mut d = Utf8Decoder::new();
    let mut out = d.feed(b"a");
    out.extend(d.feed(&[0xC3]));
    out.extend(d.feed(&[0xA9, b'z']));
    assert_eq!(out, vec!['a', 'é', 'z']);
}
