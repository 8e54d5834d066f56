//! The model handle: loaded weights plus vocabulary operations.
//!
//! A model is immutable after load and outlives every context built from
//! it. The fake engine loads a standard byte-level vocabulary: id 0 is
//! reserved, id 1 is the beginning-of-sequence token, id 2 the
//! end-of-sequence token, and ids 3..=258 stand for the 256 byte values, so
//! a token's byte fragment can be any single byte — including a fragment of
//! a multi-byte UTF-8 code point.

use vstd::prelude::*;

use crate::engine::{FakeEngine, ResourceKind};
use crate::errors::{InvalidTokenError, LoadError, TokenizeError};
use crate::params::{LlamaModelParams, ParamOverrideValue};
use crate::token::LlamaToken;
use vstd::string::StrSliceExecFns;
use vstd::string::StringSliceAdditionalSpecFns;

verus! {

/// Vocabulary id of the beginning-of-sequence token.
pub const BOS_ID: i32 = 1;

/// Vocabulary id of the end-of-sequence token.
pub const EOS_ID: i32 = 2;

/// Vocabulary id of the token standing for byte value 0.
pub const BYTE_TOKEN_OFFSET: i32 = 3;

/// Vocabulary size: one reserved id, two special tokens, 256 byte tokens.
pub const N_VOCAB: i32 = 259;

/// Whether tokenization prepends the beginning-of-sequence token.
#[derive(Copy, Clone, Debug, PartialEq, Eq, Structural)]
pub enum AddBos {
    /// Always prepend it.
    Always,
    /// Never prepend it.
    Never,
    /// Follow the vocabulary's own default.
    Auto,
}

/// How special tokens render when converted back to bytes.
#[derive(Copy, Clone, Debug, PartialEq, Eq, Structural)]
pub enum Special {
    /// Render special tokens as their marker text.
    Tokenize,
    /// Render special tokens as nothing.
    Plaintext,
}

/// Whether the given choice, resolved against the vocabulary default,
/// prepends the beginning-of-sequence token.
pub open spec fn spec_add_bos(add_bos: AddBos, vocab_default: bool) -> bool {
    match add_bos {
        AddBos::Always => true,
        AddBos::Never => false,
        AddBos::Auto => vocab_default,
    }
}

/// The token standing for one byte of input text.
pub open spec fn spec_byte_token(b: u8) -> LlamaToken {
    LlamaToken((BYTE_TOKEN_OFFSET + b as i32) as i32)
}

/// The token sequence for the given text bytes: the byte tokens in order,
/// preceded by the beginning-of-sequence token when requested.
pub open spec fn spec_tokenize(bytes: Seq<u8>, add_bos: bool) -> Seq<LlamaToken> {
    let base = bytes.map_values(|b: u8| spec_byte_token(b));
    if add_bos {
        seq![LlamaToken(BOS_ID)] + base
    } else {
        base
    }
}

/// The byte fragment a token converts back to: byte tokens yield their
/// byte, special tokens yield their marker text (or nothing in plaintext
/// mode), the reserved id yields nothing.
pub open spec fn spec_token_bytes(t: LlamaToken, special: Special) -> Seq<u8> {
    if t.0 == BOS_ID {
        if special == Special::Tokenize {
            seq![60u8, 115u8, 62u8]
        } else {
            Seq::empty()
        }
    } else if t.0 == EOS_ID {
        if special == Special::Tokenize {
            seq![60u8, 47u8, 115u8, 62u8]
        } else {
            Seq::empty()
        }
    } else if t.0 >= BYTE_TOKEN_OFFSET {
        seq![(t.0 - BYTE_TOKEN_OFFSET) as u8]
    } else {
        Seq::empty()
    }
}

/// Handle to loaded model weights and their vocabulary metadata.
#[derive(Debug)]
pub struct LlamaModel {
    pub id: u64,
    /// Vocabulary size.
    pub n_vocab: i32,
    /// Beginning-of-sequence token.
    pub bos: LlamaToken,
    /// End-of-sequence token.
    pub eos: LlamaToken,
    /// Whether tokenization prepends the BOS token by default.
    pub add_bos_default: bool,
}

impl LlamaModel {
    /// The model invariant: the vocabulary metadata of the engine's
    /// standard byte-level vocabulary.
    pub open spec fn wf(self) -> bool {
        &&& self.n_vocab == N_VOCAB
        &&& self.bos == LlamaToken(BOS_ID)
        &&& self.eos == LlamaToken(EOS_ID)
        &&& self.add_bos_default == true
    }

    /// Load model weights from a file under a live backend.
    ///
    /// Fails with `FileNotFound` when the engine does not recognize the
    /// path, and with `BadOverride` naming the first override key the
    /// engine does not accept. A failed load releases everything it
    /// allocated: the engine is exactly as before.
    pub fn load_from_file(
        e: &mut FakeEngine,
        backend: &crate::backend::LlamaBackend,
        path: &str,
        params: &LlamaModelParams,
    ) -> (r: Result<LlamaModel, LoadError>)
        requires
            old(e).wf(),
            old(e).live_as(backend.id, ResourceKind::Backend),
            old(e).next_id < u64::MAX,
            old(e).allocs < u64::MAX,
        ensures
            final(e).wf(),
            r is Ok <==> crate::engine::contains_string(old(e).model_files@, path@)
                && overrides_ok(old(e).override_keys@, params.kv_overrides@),
            r is Err ==> *final(e) == *old(e),
            r matches Err(LoadError::FileNotFound { path: p }) ==> !crate::engine::contains_string(
                old(e).model_files@,
                path@,
            ) && p@ == path@,
            r matches Err(LoadError::BadOverride { key }) ==> crate::engine::contains_string(
                old(e).model_files@,
                path@,
            ) && first_bad_override(old(e).override_keys@, params.kv_overrides@, key@),
            r matches Ok(m) ==> {
                &&& m.wf()
                &&& m.id == old(e).next_id
                &&& final(e).live_as(m.id, ResourceKind::Model)
                &&& !old(e).live(m.id)
                &&& final(e).allocs == old(e).allocs + 1
                &&& final(e).next_id == old(e).next_id + 1
                &&& final(e).frees == old(e).frees
                &&& final(e).same_config(*old(e))
                &&& forall|x: u64| x != m.id ==> final(e).live(x) == old(e).live(x)
                &&& forall|x: u64, k: ResourceKind|
                    x != m.id ==> final(e).live_as(x, k) == old(e).live_as(x, k)
                &&& forall|x: u64|
                    #[trigger] final(e).has_dependent(x) ==> old(e).has_dependent(x) || x == backend.id
                &&& forall|x: u64| old(e).has_dependent(x) ==> final(e).has_dependent(x)
                &&& final(e).backend_live()
            },
    {
        if !crate::engine::contains_string_vec(&e.model_files, path) {
            return Err(LoadError::FileNotFound { path: path.to_owned() });
        }
        // Check every override key against the engine's catalog; report the
        // first unknown one.
        let mut i: usize = 0;
        while i < params.kv_overrides.len()
            invariant
                *e == *old(e),
                e.wf(),
                e.next_id < u64::MAX,
                e.allocs < u64::MAX,
                e.live_as(backend.id, ResourceKind::Backend),
                crate::engine::contains_string(e.model_files@, path@),
                i <= params.kv_overrides@.len(),
                forall|j: int|
                    0 <= j < i ==> crate::engine::contains_string(
                        e.override_keys@,
                        #[trigger] params.kv_overrides@[j].0@,
                    ),
            decreases params.kv_overrides@.len() - i,
        {
            if !crate::engine::contains_string_vec(&e.override_keys, params.kv_overrides[i].0.as_str()) {
                let key = params.kv_overrides[i].0.clone();
                proof {
                    assert(first_bad_override(e.override_keys@, params.kv_overrides@, key@)) by {
                        assert(0 <= i < params.kv_overrides@.len()
                            && !crate::engine::contains_string(
                            e.override_keys@,
                            params.kv_overrides@[i as int].0@,
                        ) && params.kv_overrides@[i as int].0@ == key@ && forall|j: int|
                            0 <= j < i ==> crate::engine::contains_string(
                                e.override_keys@,
                                #[trigger] params.kv_overrides@[j].0@,
                            ));
                    }
                }
                return Err(LoadError::BadOverride { key });
            }
            i = i + 1;
        }
        let id = e.allocate(ResourceKind::Model, Some(backend.id));
        Ok(
            LlamaModel {
                id,
                n_vocab: N_VOCAB,
                bos: LlamaToken(BOS_ID),
                eos: LlamaToken(EOS_ID),
                add_bos_default: true,
            },
        )
    }

    /// Release the model. Fails if the handle is stale or contexts built
    /// from it are still live; a failed free changes nothing.
    pub fn free(&self, e: &mut FakeEngine) -> (r: Result<(), crate::errors::FreeError>)
        requires
            old(e).wf(),
        ensures
            final(e).wf(),
            r is Ok <==> old(e).live(self.id) && !old(e).has_dependent(self.id),
            r == Err::<(), crate::errors::FreeError>(crate::errors::FreeError::NotLive) <==> !old(
                e,
            ).live(self.id),
            r == Err::<(), crate::errors::FreeError>(
                crate::errors::FreeError::DependentsLive,
            ) <==> old(e).live(self.id) && old(e).has_dependent(self.id),
            r is Err ==> *final(e) == *old(e),
            r is Ok ==> {
                &&& !final(e).live(self.id)
                &&& forall|x: u64| x != self.id ==> final(e).live(x) == old(e).live(x)
                &&& forall|x: u64, k: ResourceKind|
                    x != self.id ==> final(e).live_as(x, k) == old(e).live_as(x, k)
                &&& final(e).frees == old(e).frees + 1
                &&& final(e).allocs == old(e).allocs
                &&& final(e).same_config(*old(e))
            },
    {
        e.free(self.id)
    }

    /// Tokenize text into vocabulary tokens. Fails exactly when the text
    /// holds an interior NUL byte, naming the first one; otherwise the
    /// result is the byte tokens of the text's UTF-8 bytes, preceded by the
    /// BOS token as `add_bos` resolves.
    pub fn str_to_token(
        &self,
        e: &FakeEngine,
        text: &str,
        add_bos: AddBos,
    ) -> (r: Result<Vec<LlamaToken>, TokenizeError>)
        requires
            self.wf(),
            e.live_as(self.id, ResourceKind::Model),
        ensures
            r is Ok <==> forall|i: int|
                0 <= i < text.spec_bytes().len() ==> #[trigger] text.spec_bytes()[i] != 0,
            r matches Ok(toks) ==> toks@ == spec_tokenize(
                text.spec_bytes(),
                spec_add_bos(add_bos, self.add_bos_default),
            ),
            r matches Err(te) ==> {
                &&& te.nul_position < text.spec_bytes().len()
                &&& text.spec_bytes()[te.nul_position as int] == 0
                &&& forall|i: int|
                    0 <= i < te.nul_position ==> #[trigger] text.spec_bytes()[i] != 0
            },
    {
        let bytes = text.as_bytes_vec();
        let mut i: usize = 0;
        while i < bytes.len()
            invariant
                bytes@ == text.spec_bytes(),
                i <= bytes@.len(),
                forall|j: int| 0 <= j < i ==> #[trigger] bytes@[j] != 0,
            decreases bytes@.len() - i,
        {
            if bytes[i] == 0 {
                return Err(TokenizeError { nul_position: i });
            }
            i = i + 1;
        }
        let effective_bos = match add_bos {
            AddBos::Always => true,
            AddBos::Never => false,
            AddBos::Auto => self.add_bos_default,
        };
        let mut toks: Vec<LlamaToken> = Vec::new();
        if effective_bos {
            toks.push(LlamaToken(BOS_ID));
        }
        let ghost prefix_len: int = toks@.len() as int;
        let mut k: usize = 0;
        while k < bytes.len()
            invariant
                bytes@ == text.spec_bytes(),
                k <= bytes@.len(),
                toks@.len() == prefix_len + k,
                prefix_len == if effective_bos { 1int } else { 0int },
                effective_bos ==> toks@[0] == LlamaToken(BOS_ID),
                forall|j: int|
                    0 <= j < k ==> #[trigger] toks@[prefix_len + j] == spec_byte_token(bytes@[j]),
            decreases bytes@.len() - k,
        {
            let b = bytes[k];
            toks.push(LlamaToken(BYTE_TOKEN_OFFSET + b as i32));
            proof {
                assert(toks@[prefix_len + k] == spec_byte_token(bytes@[k as int]));
            }
            k = k + 1;
        }
        proof {
            let target = spec_tokenize(
                text.spec_bytes(),
                spec_add_bos(add_bos, self.add_bos_default),
            );
            assert forall|x: int| 0 <= x < toks@.len() implies toks@[x] == target[x] by {
                if x >= prefix_len {
                    let j = x - prefix_len;
                    assert(toks@[prefix_len + j] == spec_byte_token(bytes@[j]));
                }
            }
            assert(toks@ =~= target);
        }
        Ok(toks)
    }

    /// Convert one token back to its byte fragment. The fragment may be a
    /// partial UTF-8 sequence — a single code point can span multiple
    /// tokens — so successive fragments must be fed through an incremental
    /// decoder rather than decoded in isolation. Fails exactly on ids
    /// outside the vocabulary.
    pub fn token_to_bytes(
        &self,
        e: &FakeEngine,
        token: LlamaToken,
        special: Special,
    ) -> (r: Result<Vec<u8>, InvalidTokenError>)
        requires
            self.wf(),
            e.live_as(self.id, ResourceKind::Model),
        ensures
            r is Ok <==> 0 <= token.0 < self.n_vocab,
            r matches Ok(bytes) ==> bytes@ == spec_token_bytes(token, special),
            r matches Err(err) ==> err == (InvalidTokenError { id: token.0, n_vocab: self.n_vocab }),
    {
        if token.0 < 0 || token.0 >= self.n_vocab {
            return Err(InvalidTokenError { id: token.0, n_vocab: self.n_vocab });
        }
        let mut out: Vec<u8> = Vec::new();
        if token.0 == BOS_ID {
            if matches!(special, Special::Tokenize) {
                out.push(60);
                out.push(115);
                out.push(62);
            }
        } else if token.0 == EOS_ID {
            if matches!(special, Special::Tokenize) {
                out.push(60);
                out.push(47);
                out.push(115);
                out.push(62);
            }
        } else if token.0 >= BYTE_TOKEN_OFFSET {
            out.push((token.0 - BYTE_TOKEN_OFFSET) as u8);
        }
        proof {
            assert(out@ =~= spec_token_bytes(token, special));
        }
        Ok(out)
    }

    /// The vocabulary size.
    pub fn vocab_size(&self) -> (n: i32)
        ensures
            n == self.n_vocab,
    {
        self.n_vocab
    }

    /// The beginning-of-sequence token.
    pub fn token_bos(&self) -> (t: LlamaToken)
        ensures
            t == self.bos,
    {
        self.bos
    }

    /// The end-of-sequence token.
    pub fn token_eos(&self) -> (t: LlamaToken)
        ensures
            t == self.eos,
    {
        self.eos
    }
}

/// Every override key is in the engine's catalog.
pub open spec fn overrides_ok(
    keys: Seq<String>,
    overrides: Seq<(String, ParamOverrideValue)>,
) -> bool {
    forall|i: int|
        0 <= i < overrides.len() ==> crate::engine::contains_string(
            keys,
            #[trigger] overrides[i].0@,
        )
}

/// `key` is the first override key missing from the engine's catalog.
pub open spec fn first_bad_override(
    keys: Seq<String>,
    overrides: Seq<(String, ParamOverrideValue)>,
    key: Seq<char>,
) -> bool {
    exists|i: int|
        0 <= i < overrides.len() && !crate::engine::contains_string(keys, overrides[i].0@)
            && #[trigger] overrides[i].0@ == key && forall|j: int|
            0 <= j < i ==> crate::engine::contains_string(keys, #[trigger] overrides[j].0@)
}

} // verus!
