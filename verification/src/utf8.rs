//! Incremental UTF-8 decoding of streamed byte fragments.
//!
//! A token's byte fragment may end in the middle of a code point, so
//! fragments must not be decoded in isolation: the decoder buffers an
//! incomplete trailing sequence until the bytes that complete it arrive.
//! Byte sequences that cannot start or continue a well-formed encoding
//! (including overlong encodings and surrogate values) each produce one
//! replacement character, and a malformed leading sequence is dropped one
//! byte at a time.

use vstd::prelude::*;

use vstd::utf8::{
    codepoint_width_1, codepoint_width_2, codepoint_width_3, codepoint_width_4,
    is_continuation_byte, is_leading_byte_width_1, is_leading_byte_width_2,
    is_leading_byte_width_3, is_leading_byte_width_4, not_overlong_encoding, not_surrogate,
};

verus! {

/// The character emitted for bytes that are not valid UTF-8.
pub const REPLACEMENT: char = '\u{FFFD}';

/// How many bytes an encoding starting with this leading byte has; 0 when
/// the byte cannot start an encoding (it is a continuation byte or an
/// invalid value).
pub open spec fn lead_width(b: u8) -> int {
    if is_leading_byte_width_1(b) {
        1
    } else if is_leading_byte_width_2(b) {
        2
    } else if is_leading_byte_width_3(b) {
        3
    } else if is_leading_byte_width_4(b) {
        4
    } else {
        0
    }
}

/// A proper, still-completable prefix of a multi-byte encoding (or nothing):
/// what the decoder may hold between feeds.
pub open spec fn is_incomplete(p: Seq<u8>) -> bool {
    ||| p.len() == 0
    ||| (2 <= lead_width(p[0]) && p.len() < lead_width(p[0]) && (forall|j: int|
        1 <= j < p.len() ==> is_continuation_byte(#[trigger] p[j])))
}

/// The code point of a complete byte sequence `q` whose leading byte has
/// width `q.len()`.
pub open spec fn complete_codepoint(q: Seq<u8>) -> u32
    recommends
        2 <= q.len() <= 4,
{
    if q.len() == 2 {
        codepoint_width_2(q[0], q[1])
    } else if q.len() == 3 {
        codepoint_width_3(q[0], q[1], q[2])
    } else {
        codepoint_width_4(q[0], q[1], q[2], q[3])
    }
}

/// One decoding step: what feeding the byte `b` to a decoder holding `p`
/// emits, and what the decoder holds afterwards.
pub open spec fn spec_step(p: Seq<u8>, b: u8) -> (Seq<char>, Seq<u8>)
    recommends
        is_incomplete(p),
    decreases p.len(),
{
    if p.len() == 0 {
        let w = lead_width(b);
        if w == 1 {
            (seq![codepoint_width_1(b) as char], Seq::<u8>::empty())
        } else if w >= 2 {
            (Seq::<char>::empty(), seq![b])
        } else {
            (seq![REPLACEMENT], Seq::<u8>::empty())
        }
    } else if is_continuation_byte(b) {
        let q = p.push(b);
        let w = lead_width(p[0]);
        if q.len() == w {
            let cp = complete_codepoint(q);
            if not_overlong_encoding(cp, w) && not_surrogate(cp) {
                (seq![cp as char], Seq::<u8>::empty())
            } else {
                (seq![REPLACEMENT], Seq::<u8>::empty())
            }
        } else {
            (Seq::<char>::empty(), q)
        }
    } else {
        // The held prefix can no longer be completed: it becomes one
        // replacement character, and `b` starts afresh.
        let (out2, p2) = spec_step(Seq::<u8>::empty(), b);
        (seq![REPLACEMENT] + out2, p2)
    }
}

/// Decoding a whole byte sequence, one step per byte: everything emitted
/// and what the decoder holds at the end.
pub open spec fn spec_run(p: Seq<u8>, input: Seq<u8>) -> (Seq<char>, Seq<u8>)
    decreases input.len(),
{
    if input.len() == 0 {
        (Seq::<char>::empty(), p)
    } else {
        let (out1, p1) = spec_step(p, input[0]);
        let (out2, p2) = spec_run(p1, input.drop_first());
        (out1 + out2, p2)
    }
}

/// A step leaves the decoder holding a completable prefix again.
pub proof fn lemma_step_incomplete(p: Seq<u8>, b: u8)
    requires
        is_incomplete(p),
    ensures
        is_incomplete(spec_step(p, b).1),
    decreases p.len(),
{
    if p.len() == 0 {
    } else if is_continuation_byte(b) {
        let q = p.push(b);
        assert forall|j: int| 1 <= j < q.len() implies is_continuation_byte(
            #[trigger] q[j],
        ) by {
            if j < p.len() {
                assert(q[j] == p[j]);
            }
        }
    } else {
        lemma_step_incomplete(Seq::<u8>::empty(), b);
    }
}

/// Extending the input by one byte extends the run by one step.
pub proof fn lemma_run_snoc(p: Seq<u8>, input: Seq<u8>, b: u8)
    ensures
        spec_run(p, input.push(b)).0 == spec_run(p, input).0 + spec_step(
            spec_run(p, input).1,
            b,
        ).0,
        spec_run(p, input.push(b)).1 == spec_step(spec_run(p, input).1, b).1,
    decreases input.len(),
{
    let (out1, p1) = spec_run(p, input);
    let (out2, p2) = spec_step(p1, b);
    if input.len() == 0 {
        reveal_with_fuel(spec_run, 2);
        assert(input.push(b)[0] == b);
        assert(input.push(b).drop_first() =~= Seq::<u8>::empty());
        assert(Seq::<char>::empty() + out2 =~= out2);
        assert(out2 + Seq::<char>::empty() =~= out2);
        assert(out1 + out2 =~= out2);
        assert(spec_run(p, input.push(b)).0 == out2);
        assert(spec_run(p, input.push(b)).1 == p2);
    } else {
        let ipb = input.push(b);
        let (o1, q1) = spec_step(p, input[0]);
        assert(ipb[0] == input[0]);
        assert(ipb.drop_first() =~= input.drop_first().push(b));
        lemma_run_snoc(q1, input.drop_first(), b);
        let (ro, rp) = spec_run(q1, input.drop_first());
        let (so, sp) = spec_step(rp, b);
        assert(spec_run(q1, ipb.drop_first()) == (ro + so, sp));
        assert(spec_run(p, ipb).0 == o1 + (ro + so));
        assert(spec_run(p, ipb).1 == sp);
        assert(out1 == o1 + ro);
        assert(p1 == rp);
        assert(out2 == so && p2 == sp);
        assert(o1 + (ro + so) =~= (o1 + ro) + so);
        assert(spec_run(p, ipb) == (out1 + out2, p2));
    }
}

/// A run over concatenated input decomposes into a run over each part.
pub proof fn lemma_run_append(p: Seq<u8>, a: Seq<u8>, b: Seq<u8>)
    ensures
        spec_run(p, a + b).0 == spec_run(p, a).0 + spec_run(spec_run(p, a).1, b).0,
        spec_run(p, a + b).1 == spec_run(spec_run(p, a).1, b).1,
    decreases b.len(),
{
    let (out1, p1) = spec_run(p, a);
    if b.len() == 0 {
        assert(a + b =~= a);
        assert(out1 + Seq::<char>::empty() =~= out1);
    } else {
        let b0 = b.drop_last();
        let bl = b.last();
        assert(b0.push(bl) =~= b);
        assert(a + b =~= (a + b0).push(bl));
        lemma_run_append(p, a, b0);
        let (o2, q2) = spec_run(p1, b0);
        lemma_run_snoc(p, a + b0, bl);
        lemma_run_snoc(p1, b0, bl);
        let (o3, q3) = spec_step(q2, bl);
        assert((out1 + o2) + o3 =~= out1 + (o2 + o3));
    }
}

/// Feeding the complete encoding of one character to a fresh decoder emits
/// exactly that character and leaves nothing pending.
pub proof fn lemma_decode_single_scalar(c: char)
    ensures
        spec_run(Seq::<u8>::empty(), vstd::utf8::encode_scalar(c as u32)).0 == seq![c],
        spec_run(Seq::<u8>::empty(), vstd::utf8::encode_scalar(c as u32)).1 == Seq::<u8>::empty(),
{
    reveal_with_fuel(spec_run, 6);
    let s = c as u32;
    let bytes = vstd::utf8::encode_scalar(s);
    vstd::utf8::encode_utf8_first_scalar(seq![c]);
    assert(seq![c].drop_first() =~= Seq::<char>::empty());
    assert(vstd::utf8::encode_utf8(Seq::<char>::empty()) =~= Seq::<u8>::empty());
    assert(seq![c][0] == c);
    assert(bytes + Seq::<u8>::empty() =~= bytes);
    assert(vstd::utf8::encode_utf8(seq![c]) =~= bytes);
    assert(vstd::utf8::valid_first_scalar(bytes));
    assert(vstd::utf8::decode_first_codepoint(bytes) == s);
    vstd::utf8::char_u32_cast(c, s);
    let b0 = bytes[0];
    if vstd::utf8::is_leading_byte_width_1(b0) {
        assert(bytes.len() == 1);
        assert(bytes =~= seq![b0]);
        assert(spec_step(Seq::<u8>::empty(), b0).0 =~= seq![c]);
        assert(bytes.drop_first() =~= Seq::<u8>::empty());
        assert(spec_run(Seq::<u8>::empty(), bytes).0 =~= seq![c]);
    } else if vstd::utf8::is_leading_byte_width_2(b0) {
        assert(bytes.len() == 2);
        let b1 = bytes[1];
        assert(vstd::utf8::is_continuation_byte(b1));
        assert(lead_width(b0) == 2);
        assert(spec_step(Seq::<u8>::empty(), b0) == (Seq::<char>::empty(), seq![b0]));
        let q = seq![b0].push(b1);
        assert(q =~= bytes);
        assert(complete_codepoint(q) == vstd::utf8::codepoint_width_2(b0, b1));
        assert(spec_step(seq![b0], b1).0 =~= seq![c]);
        assert(spec_step(seq![b0], b1).1 =~= Seq::<u8>::empty());
        assert(bytes.drop_first() =~= seq![b1]);
        assert(seq![b1].drop_first() =~= Seq::<u8>::empty());
        assert(spec_run(Seq::<u8>::empty(), bytes).0 =~= seq![c]);
    } else if vstd::utf8::is_leading_byte_width_3(b0) {
        assert(bytes.len() == 3);
        let b1 = bytes[1];
        let b2 = bytes[2];
        assert(vstd::utf8::is_continuation_byte(b1));
        assert(vstd::utf8::is_continuation_byte(b2));
        assert(lead_width(b0) == 3);
        assert(spec_step(Seq::<u8>::empty(), b0) == (Seq::<char>::empty(), seq![b0]));
        assert(seq![b0].push(b1) =~= seq![b0, b1]);
        assert(spec_step(seq![b0], b1) == (Seq::<char>::empty(), seq![b0, b1]));
        let q = seq![b0, b1].push(b2);
        assert(q =~= bytes);
        assert(complete_codepoint(q) == vstd::utf8::codepoint_width_3(b0, b1, b2));
        assert(spec_step(seq![b0, b1], b2).0 =~= seq![c]);
        assert(spec_step(seq![b0, b1], b2).1 =~= Seq::<u8>::empty());
        assert(bytes.drop_first() =~= seq![b1, b2]);
        assert(seq![b1, b2].drop_first() =~= seq![b2]);
        assert(seq![b2].drop_first() =~= Seq::<u8>::empty());
        assert(spec_run(Seq::<u8>::empty(), bytes).0 =~= seq![c]);
    } else {
        assert(vstd::utf8::is_leading_byte_width_4(b0));
        assert(bytes.len() == 4);
        let b1 = bytes[1];
        let b2 = bytes[2];
        let b3 = bytes[3];
        assert(vstd::utf8::is_continuation_byte(b1));
        assert(vstd::utf8::is_continuation_byte(b2));
        assert(vstd::utf8::is_continuation_byte(b3));
        assert(lead_width(b0) == 4);
        assert(spec_step(Seq::<u8>::empty(), b0) == (Seq::<char>::empty(), seq![b0]));
        assert(seq![b0].push(b1) =~= seq![b0, b1]);
        assert(spec_step(seq![b0], b1) == (Seq::<char>::empty(), seq![b0, b1]));
        assert(seq![b0, b1].push(b2) =~= seq![b0, b1, b2]);
        assert(spec_step(seq![b0, b1], b2) == (Seq::<char>::empty(), seq![b0, b1, b2]));
        let q = seq![b0, b1, b2].push(b3);
        assert(q =~= bytes);
        assert(complete_codepoint(q) == vstd::utf8::codepoint_width_4(b0, b1, b2, b3));
        assert(spec_step(seq![b0, b1, b2], b3).0 =~= seq![c]);
        assert(spec_step(seq![b0, b1, b2], b3).1 =~= Seq::<u8>::empty());
        assert(bytes.drop_first() =~= seq![b1, b2, b3]);
        assert(seq![b1, b2, b3].drop_first() =~= seq![b2, b3]);
        assert(seq![b2, b3].drop_first() =~= seq![b3]);
        assert(seq![b3].drop_first() =~= Seq::<u8>::empty());
        assert(spec_run(Seq::<u8>::empty(), bytes).0 =~= seq![c]);
    }
}

/// A code point spanning two token fragments: splitting one character's
/// encoding at any boundary and feeding the two fragments through the
/// incremental decoder in order reconstructs exactly that character —
/// even though the first fragment alone may decode to nothing.
pub proof fn lemma_split_fragments_reconstruct(c: char, i: int)
    requires
        0 <= i <= vstd::utf8::encode_scalar(c as u32).len(),
    ensures
        ({
            let bytes = vstd::utf8::encode_scalar(c as u32);
            let f1 = bytes.subrange(0, i);
            let f2 = bytes.subrange(i, bytes.len() as int);
            let o1 = spec_run(Seq::<u8>::empty(), f1).0;
            let p1 = spec_run(Seq::<u8>::empty(), f1).1;
            let o2 = spec_run(p1, f2).0;
            let p2 = spec_run(p1, f2).1;
            o1 + o2 == seq![c] && p2 == Seq::<u8>::empty()
        }),
{
    let bytes = vstd::utf8::encode_scalar(c as u32);
    let f1 = bytes.subrange(0, i);
    let f2 = bytes.subrange(i, bytes.len() as int);
    assert(f1 + f2 =~= bytes);
    lemma_run_append(Seq::<u8>::empty(), f1, f2);
    lemma_decode_single_scalar(c);
}

/// Round trip for whole streams: feeding the UTF-8 encoding of any
/// character sequence through the incremental decoder, however it is
/// fragmented, reconstructs exactly that sequence with nothing pending.
pub proof fn lemma_decode_encoded_stream(cs: Seq<char>)
    ensures
        spec_run(Seq::<u8>::empty(), vstd::utf8::encode_utf8(cs)).0 == cs,
        spec_run(Seq::<u8>::empty(), vstd::utf8::encode_utf8(cs)).1 == Seq::<u8>::empty(),
    decreases cs.len(),
{
    if cs.len() == 0 {
        assert(vstd::utf8::encode_utf8(cs) =~= Seq::<u8>::empty());
        assert(spec_run(Seq::<u8>::empty(), vstd::utf8::encode_utf8(cs)).0 =~= cs);
    } else {
        let head = vstd::utf8::encode_scalar(cs[0] as u32);
        let tail = vstd::utf8::encode_utf8(cs.drop_first());
        assert(vstd::utf8::encode_utf8(cs) =~= head + tail);
        lemma_run_append(Seq::<u8>::empty(), head, tail);
        lemma_decode_single_scalar(cs[0]);
        lemma_decode_encoded_stream(cs.drop_first());
        assert(seq![cs[0]] + cs.drop_first() =~= cs);
    }
}

/// The width of the encoding a byte starts (executable).
fn byte_width(b: u8) -> (w: u8)
    ensures
        w as int == lead_width(b),
{
    if b <= 0x7f {
        1
    } else if 0xc0 <= b && b <= 0xdf {
        2
    } else if 0xe0 <= b && b <= 0xef {
        3
    } else if 0xf0 <= b && b <= 0xf7 {
        4
    } else {
        0
    }
}

/// Relies on char::from_u32: returns the character with the given code
/// point value exactly when the value is a Unicode scalar — not in the
/// surrogate range and at most 0x10FFFF.
#[verifier::external_body]
fn char_from_u32(v: u32) -> (c: Option<char>)
    ensures
        c matches Some(ch) ==> ch as u32 == v,
        c is Some <==> (v < 0xD800 || (0xDFFF < v && v <= 0x10FFFF)),
{
    char::from_u32(v)
}

/// Append the character for a scalar value, or the replacement character
/// when the completed sequence was not a well-formed scalar.
fn push_scalar(cp: u32, valid: bool, out: &mut Vec<char>)
    requires
        valid ==> (cp < 0xD800 || (0xDFFF < cp && cp <= 0x10FFFF)),
    ensures
        final(out)@ == old(out)@ + (if valid {
            seq![cp as char]
        } else {
            seq![REPLACEMENT]
        }),
{
    if valid {
        match char_from_u32(cp) {
            Some(c) => {
                proof {
                    vstd::utf8::char_u32_cast(c, cp);
                }
                out.push(c);
            },
            None => {
                proof {
                    assert(false);
                }
            },
        }
    } else {
        out.push(REPLACEMENT);
    }
    proof {
        assert(out@ =~= old(out)@ + (if valid {
            seq![cp as char]
        } else {
            seq![REPLACEMENT]
        }));
    }
}

/// The incremental decoder: holds the bytes of a not-yet-complete code
/// point between feeds.
#[derive(Debug)]
pub struct Utf8Decoder {
    /// A proper prefix of one code point's encoding.
    pub pending: Vec<u8>,
}

impl Utf8Decoder {
    /// The decoder invariant: what is held can still be completed.
    pub open spec fn wf(self) -> bool {
        is_incomplete(self.pending@)
    }

    /// A fresh decoder holding nothing.
    pub fn new() -> (d: Utf8Decoder)
        ensures
            d.wf(),
            d.pending@.len() == 0,
    {
        Utf8Decoder { pending: Vec::new() }
    }

    /// Feed one byte to a decoder holding nothing.
    fn step_fresh(&mut self, b: u8, out: &mut Vec<char>)
        requires
            old(self).pending@.len() == 0,
        ensures
            final(self).wf(),
            ({
                let (o, p) = spec_step(old(self).pending@, b);
                final(out)@ == old(out)@ + o && final(self).pending@ == p
            }),
    {
        let w = byte_width(b);
        if w == 1 {
            let cp: u32 = (b & 0x7f) as u32;
            proof {
                assert(cp == codepoint_width_1(b));
                assert(cp < 0xD800) by (bit_vector)
                    requires
                        cp == (b & 0x7f) as u32,
                ;
            }
            push_scalar(cp, true, out);
        } else if w >= 2 {
            self.pending.push(b);
            proof {
                assert(self.pending@ =~= seq![b]);
                assert(out@ =~= old(out)@ + Seq::<char>::empty());
            }
        } else {
            out.push(REPLACEMENT);
            proof {
                assert(out@ =~= old(out)@ + seq![REPLACEMENT]);
            }
        }
    }

    /// Complete or extend the held prefix with a continuation byte.
    fn step_continue(&mut self, b: u8, out: &mut Vec<char>)
        requires
            old(self).wf(),
            old(self).pending@.len() >= 1,
            is_continuation_byte(b),
        ensures
            final(self).wf(),
            ({
                let (o, p) = spec_step(old(self).pending@, b);
                final(out)@ == old(out)@ + o && final(self).pending@ == p
            }),
    {
        let w = byte_width(self.pending[0]);
        self.pending.push(b);
        let held = self.pending.len();
        if held == w as usize {
            if w == 2 {
                let b0 = self.pending[0];
                let b1 = self.pending[1];
                let cp: u32 = (((b0 & 0x1f) as u32) << 6u32) | ((b1 & 0x3f) as u32);
                let valid = cp >= 0x80;
                proof {
                    assert(cp == complete_codepoint(self.pending@));
                    assert(cp <= 0x7ff) by (bit_vector)
                        requires
                            cp == (((b0 & 0x1f) as u32) << 6u32) | ((b1 & 0x3f) as u32),
                    ;
                    assert(valid == (not_overlong_encoding(cp, 2) && not_surrogate(cp)));
                }
                push_scalar(cp, valid, out);
            } else if w == 3 {
                let b0 = self.pending[0];
                let b1 = self.pending[1];
                let b2 = self.pending[2];
                let cp: u32 = (((b0 & 0x0f) as u32) << 12u32) | (((b1 & 0x3f) as u32)
                    << 6u32) | ((b2 & 0x3f) as u32);
                let valid = cp >= 0x800 && !(0xd800 <= cp && cp <= 0xdfff);
                proof {
                    assert(cp == complete_codepoint(self.pending@));
                    assert(cp <= 0xffff) by (bit_vector)
                        requires
                            cp == (((b0 & 0x0f) as u32) << 12u32) | (((b1 & 0x3f) as u32)
                                << 6u32) | ((b2 & 0x3f) as u32),
                    ;
                    assert(valid == (not_overlong_encoding(cp, 3) && not_surrogate(cp)));
                }
                push_scalar(cp, valid, out);
            } else {
                let b0 = self.pending[0];
                let b1 = self.pending[1];
                let b2 = self.pending[2];
                let b3 = self.pending[3];
                let cp: u32 = (((b0 & 0x07) as u32) << 18u32) | (((b1 & 0x3f) as u32)
                    << 12u32) | (((b2 & 0x3f) as u32) << 6u32) | ((b3 & 0x3f) as u32);
                let valid = 0x10000 <= cp && cp <= 0x10ffff;
                proof {
                    assert(cp == complete_codepoint(self.pending@));
                    assert(valid == (not_overlong_encoding(cp, 4) && not_surrogate(cp)));
                }
                push_scalar(cp, valid, out);
            }
            self.pending.clear();
        } else {
            proof {
                assert(out@ =~= old(out)@ + Seq::<char>::empty());
                assert forall|j: int| 1 <= j < self.pending@.len() implies is_continuation_byte(
                    #[trigger] self.pending@[j],
                ) by {
                    if j < old(self).pending@.len() {
                        assert(self.pending@[j] == old(self).pending@[j]);
                    }
                }
            }
        }
    }

    /// Feed one byte; append what it completes to `out`.
    fn step(&mut self, b: u8, out: &mut Vec<char>)
        requires
            old(self).wf(),
        ensures
            final(self).wf(),
            ({
                let (o, p) = spec_step(old(self).pending@, b);
                final(out)@ == old(out)@ + o && final(self).pending@ == p
            }),
    {
        if self.pending.len() == 0 {
            self.step_fresh(b, out);
        } else if 0x80 <= b && b <= 0xbf {
            self.step_continue(b, out);
        } else {
            // The held prefix is aborted: one replacement, then restart on b.
            out.push(REPLACEMENT);
            self.pending.clear();
            let ghost mid_out = out@;
            self.step_fresh(b, out);
            proof {
                let (o2, p2) = spec_step(Seq::<u8>::empty(), b);
                assert(mid_out =~= old(out)@ + seq![REPLACEMENT]);
                assert(out@ =~= old(out)@ + (seq![REPLACEMENT] + o2));
            }
        }
    }

    /// Feed a byte fragment; returns every character the fragment
    /// completed. The exact effect is `spec_run` over the held prefix and
    /// the fragment.
    pub fn feed(&mut self, bytes: &[u8]) -> (out: Vec<char>)
        requires
            old(self).wf(),
        ensures
            final(self).wf(),
            out@ == spec_run(old(self).pending@, bytes@).0,
            final(self).pending@ == spec_run(old(self).pending@, bytes@).1,
    {
        let mut out: Vec<char> = Vec::new();
        let n = bytes.len();
        let mut i: usize = 0;
        proof {
            assert(bytes@.subrange(0, 0) =~= Seq::<u8>::empty());
        }
        while i < n
            invariant
                n == bytes@.len(),
                i <= n,
                self.wf(),
                out@ == spec_run(old(self).pending@, bytes@.subrange(0, i as int)).0,
                self.pending@ == spec_run(old(self).pending@, bytes@.subrange(0, i as int)).1,
            decreases n - i,
        {
            let b = *vstd::slice::slice_index_get(bytes, i);
            self.step(b, &mut out);
            proof {
                assert(bytes@.subrange(0, i + 1) =~= bytes@.subrange(0, i as int).push(b));
                lemma_run_snoc(old(self).pending@, bytes@.subrange(0, i as int), b);
            }
            i = i + 1;
        }
        proof {
            assert(bytes@.subrange(0, n as int) =~= bytes@);
        }
        out
    }

    /// How many bytes of an incomplete code point are currently held.
    pub fn pending_len(&self) -> (n: usize)
        ensures
            n == self.pending@.len(),
    {
        self.pending.len()
    }
}

} // verus!
