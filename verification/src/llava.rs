//! The multimodal bridge: a projector model that converts images into patch
//! embeddings, and the evaluation path that streams those embeddings into a
//! context.
//!
//! Image evaluation shares the running-position counter with ordinary text
//! evaluation: every patch consumed advances the same counter that text
//! tokens advance, so the caller sequences system prompt, image, and user
//! prompt against one position.

use vstd::prelude::*;

use crate::context::LlamaContext;
use crate::engine::{FakeEngine, ImageFile, ResourceKind};
use crate::errors::{DecodeError, FreeError, ImageError, LoadError};
use crate::eval::{eval_advance, spec_last_chunk, spec_min};

verus! {

/// The catalog holds an image with this path.
pub open spec fn contains_image(files: Seq<ImageFile>, path: Seq<char>) -> bool {
    exists|i: int| 0 <= i < files.len() && #[trigger] files[i].path@ == path
}

/// `n` is the patch count of the first catalog entry with this path.
pub open spec fn first_image_patches(files: Seq<ImageFile>, path: Seq<char>, n: u32) -> bool {
    exists|i: int|
        0 <= i < files.len() && #[trigger] files[i].path@ == path && files[i].n_patches == n
            && forall|j: int| 0 <= j < i ==> #[trigger] files[j].path@ != path
}

/// Handle to a loaded projector model.
#[derive(Debug)]
pub struct ClipCtx {
    pub id: u64,
}

impl ClipCtx {
    /// Load a projector model from a file. Fails exactly when the engine
    /// does not recognize the path; a failed load allocates nothing.
    pub fn load_from_file(e: &mut FakeEngine, path: &str, verbosity: i32) -> (r: Result<
        ClipCtx,
        LoadError,
    >)
        requires
            old(e).wf(),
            old(e).next_id < u64::MAX,
            old(e).allocs < u64::MAX,
        ensures
            final(e).wf(),
            r is Ok <==> crate::engine::contains_string(old(e).projector_files@, path@),
            r matches Err(LoadError::FileNotFound { path: p }) ==> p@ == path@,
            r is Err ==> *final(e) == *old(e),
            r matches Ok(c) ==> {
                &&& c.id == old(e).next_id
                &&& final(e).live_as(c.id, ResourceKind::Projector)
                &&& !old(e).live(c.id)
                &&& final(e).allocs == old(e).allocs + 1
                &&& final(e).next_id == old(e).next_id + 1
                &&& final(e).frees == old(e).frees
                &&& final(e).same_config(*old(e))
                &&& forall|x: u64| x != c.id ==> final(e).live(x) == old(e).live(x)
                &&& forall|x: u64, k: ResourceKind|
                    x != c.id ==> final(e).live_as(x, k) == old(e).live_as(x, k)
                &&& forall|x: u64| final(e).has_dependent(x) == old(e).has_dependent(x)
            },
    {
        let _ = verbosity;
        if !crate::engine::contains_string_vec(&e.projector_files, path) {
            return Err(LoadError::FileNotFound { path: path.to_owned() });
        }
        let id = e.allocate(ResourceKind::Projector, None);
        Ok(ClipCtx { id })
    }

    /// Release the projector. Fails if the handle is stale; a failed free
    /// changes nothing.
    pub fn free(&self, e: &mut FakeEngine) -> (r: Result<(), FreeError>)
        requires
            old(e).wf(),
        ensures
            final(e).wf(),
            r is Ok <==> old(e).live(self.id) && !old(e).has_dependent(self.id),
            r == Err::<(), FreeError>(FreeError::NotLive) <==> !old(e).live(self.id),
            r is Err ==> *final(e) == *old(e),
            r is Ok ==> {
                &&& !final(e).live(self.id)
                &&& forall|x: u64| x != self.id ==> final(e).live(x) == old(e).live(x)
                &&& forall|x: u64, k: ResourceKind|
                    x != self.id ==> final(e).live_as(x, k) == old(e).live_as(x, k)
                &&& final(e).frees == old(e).frees + 1
                &&& final(e).allocs == old(e).allocs
                &&& final(e).same_config(*old(e))
            },
    {
        e.free(self.id)
    }
}

/// Handle to the embedding vectors produced from one image: one vector per
/// image patch, immutable once produced.
#[derive(Debug)]
pub struct LlavaImageEmbed {
    pub id: u64,
    /// Number of patch embeddings the image produced.
    pub n_patches: u32,
}

impl LlavaImageEmbed {
    /// Convert an image file into patch embeddings through a live
    /// projector. Fails exactly when the engine cannot read the image at
    /// that path; a failed conversion allocates nothing.
    pub fn make_with_file(
        e: &mut FakeEngine,
        clip: &ClipCtx,
        n_threads: i32,
        path: &str,
    ) -> (r: Result<LlavaImageEmbed, ImageError>)
        requires
            old(e).wf(),
            old(e).live_as(clip.id, ResourceKind::Projector),
            old(e).next_id < u64::MAX,
            old(e).allocs < u64::MAX,
        ensures
            final(e).wf(),
            r is Ok <==> contains_image(old(e).image_files@, path@),
            r matches Err(ImageError::FileNotFound { path: p }) ==> p@ == path@,
            r is Err ==> *final(e) == *old(e),
            r matches Ok(emb) ==> {
                &&& emb.id == old(e).next_id
                &&& first_image_patches(old(e).image_files@, path@, emb.n_patches)
                &&& final(e).live_as(emb.id, ResourceKind::ImageEmbed)
                &&& !old(e).live(emb.id)
                &&& final(e).allocs == old(e).allocs + 1
                &&& final(e).next_id == old(e).next_id + 1
                &&& final(e).frees == old(e).frees
                &&& final(e).same_config(*old(e))
                &&& forall|x: u64| x != emb.id ==> final(e).live(x) == old(e).live(x)
                &&& forall|x: u64, k: ResourceKind|
                    x != emb.id ==> final(e).live_as(x, k) == old(e).live_as(x, k)
                &&& forall|x: u64| final(e).has_dependent(x) == old(e).has_dependent(x)
            },
    {
        let _ = n_threads;
        let owned: String = path.to_owned();
        let mut i: usize = 0;
        let mut n_patches: u32 = 0;
        let mut found = false;
        while i < e.image_files.len()
            invariant
                owned@ == path@,
                i <= e.image_files@.len(),
                !found ==> forall|j: int| 0 <= j < i ==> #[trigger] e.image_files@[j].path@
                    != path@,
                found ==> first_image_patches(e.image_files@, path@, n_patches),
            decreases e.image_files@.len() - i,
        {
            if !found {
                if e.image_files[i].path.eq(&owned) {
                    n_patches = e.image_files[i].n_patches;
                    found = true;
                }
            }
            i = i + 1;
        }
        if !found {
            return Err(ImageError::FileNotFound { path: owned });
        }
        let id = e.allocate(ResourceKind::ImageEmbed, None);
        Ok(LlavaImageEmbed { id, n_patches })
    }

    /// Stream the patch embeddings into the context as a pseudo-batch of
    /// image tokens, in chunks of at most `n_batch`, advancing the shared
    /// running-position counter by every chunk consumed.
    ///
    /// Succeeds exactly when every chunk fits in what is left of the
    /// window; fails with the failing chunk's size and the space that was
    /// left for it, after having advanced by all earlier chunks. Image
    /// decoding requests no logits, so nothing is retrievable afterwards.
    pub fn eval(
        &self,
        e: &FakeEngine,
        ctx: &mut LlamaContext,
        n_batch: i32,
        n_past: &mut i32,
    ) -> (r: Result<(), DecodeError>)
        requires
            old(ctx).wf(),
            e.live_as(self.id, ResourceKind::ImageEmbed),
            e.live_as(old(ctx).id, ResourceKind::Context),
            n_batch >= 1,
            0 <= *old(n_past),
            *old(n_past) + self.n_patches <= i32::MAX,
        ensures
            final(ctx).wf(),
            final(ctx).n_past == old(ctx).n_past + eval_advance(
                self.n_patches as int,
                n_batch as int,
                old(ctx).spec_remaining() as int,
            ),
            *final(n_past) == *old(n_past) + eval_advance(
                self.n_patches as int,
                n_batch as int,
                old(ctx).spec_remaining() as int,
            ),
            final(ctx).id == old(ctx).id,
            final(ctx).model_id == old(ctx).model_id,
            final(ctx).n_ctx == old(ctx).n_ctx,
            final(ctx).n_vocab == old(ctx).n_vocab,
            final(ctx).no_perf == old(ctx).no_perf,
            r is Ok <==> eval_advance(
                self.n_patches as int,
                n_batch as int,
                old(ctx).spec_remaining() as int,
            ) == self.n_patches,
            self.n_patches == 0 ==> *final(ctx) == *old(ctx),
            r is Ok && self.n_patches > 0 ==> final(ctx).last_batch_logits@ == Seq::new(
                spec_last_chunk(self.n_patches as int, n_batch as int) as nat,
                |i: int| false,
            ),
            r matches Err(d) ==> {
                let adv = eval_advance(
                    self.n_patches as int,
                    n_batch as int,
                    old(ctx).spec_remaining() as int,
                );
                &&& d.batch_size == spec_min(self.n_patches - adv, n_batch as int)
                &&& d.context_window_remaining == old(ctx).spec_remaining() - adv
            },
    {
        let n = self.n_patches;
        let nb = n_batch as u32;
        let ghost len0: int = n as int;
        let ghost rem0: int = old(ctx).spec_remaining() as int;
        let mut i: u32 = 0;
        while i < n
            invariant
                n == self.n_patches,
                nb == n_batch as int,
                n_batch >= 1,
                len0 == n as int,
                rem0 == old(ctx).spec_remaining() as int,
                0 <= *old(n_past),
                *old(n_past) + n <= i32::MAX,
                i <= n,
                *n_past == *old(n_past) + i,
                ctx.wf(),
                ctx.id == old(ctx).id,
                ctx.model_id == old(ctx).model_id,
                ctx.n_ctx == old(ctx).n_ctx,
                ctx.n_vocab == old(ctx).n_vocab,
                ctx.no_perf == old(ctx).no_perf,
                ctx.n_past == old(ctx).n_past + i,
                eval_advance(len0, nb as int, rem0) == i + eval_advance(
                    len0 - i,
                    nb as int,
                    rem0 - i,
                ),
                i < n ==> spec_last_chunk(len0, nb as int) == spec_last_chunk(
                    len0 - i,
                    nb as int,
                ),
                i == 0 ==> *ctx == *old(ctx),
                i > 0 && i == n ==> ctx.last_batch_logits@ == Seq::new(
                    spec_last_chunk(len0, nb as int) as nat,
                    |k: int| false,
                ),
            decreases n - i,
        {
            let rest = n - i;
            let chunk: u32 = if rest > nb {
                nb
            } else {
                rest
            };
            let rem = ctx.remaining();
            if chunk > rem {
                proof {
                    assert(eval_advance(len0 - i, nb as int, rem0 - i) == 0);
                }
                return Err(
                    DecodeError { batch_size: chunk as usize, context_window_remaining: rem },
                );
            }
            ctx.n_past = ctx.n_past + chunk;
            let mut flags: Vec<bool> = Vec::new();
            let mut k: u32 = 0;
            while k < chunk
                invariant
                    k <= chunk,
                    flags@.len() == k,
                    forall|j: int| 0 <= j < k ==> #[trigger] flags@[j] == false,
                decreases chunk - k,
            {
                flags.push(false);
                k = k + 1;
            }
            ctx.last_batch_logits = flags;
            if !ctx.no_perf {
                ctx.decode_calls = ctx.decode_calls + 1;
            }
            *n_past = *n_past + chunk as i32;
            proof {
                assert(eval_advance(len0 - i, nb as int, rem0 - i) == chunk + eval_advance(
                    len0 - i - chunk,
                    nb as int,
                    rem0 - i - chunk,
                ));
                if i + chunk < n {
                    assert(spec_last_chunk(len0 - i, nb as int) == spec_last_chunk(
                        len0 - i - chunk,
                        nb as int,
                    ));
                } else {
                    assert(spec_last_chunk(len0 - i, nb as int) == chunk);
                }
                assert(ctx.last_batch_logits@ =~= Seq::new(chunk as nat, |j: int| false));
            }
            i = i + chunk;
        }
        proof {
            assert(eval_advance(len0, nb as int, rem0) == n);
        }
        Ok(())
    }

    /// Release the embedding buffer. Fails if the handle is stale; a failed
    /// free changes nothing.
    pub fn free(&self, e: &mut FakeEngine) -> (r: Result<(), FreeError>)
        requires
            old(e).wf(),
        ensures
            final(e).wf(),
            r is Ok <==> old(e).live(self.id) && !old(e).has_dependent(self.id),
            r == Err::<(), FreeError>(FreeError::NotLive) <==> !old(e).live(self.id),
            r is Err ==> *final(e) == *old(e),
            r is Ok ==> {
                &&& !final(e).live(self.id)
                &&& forall|x: u64| x != self.id ==> final(e).live(x) == old(e).live(x)
                &&& forall|x: u64, k: ResourceKind|
                    x != self.id ==> final(e).live_as(x, k) == old(e).live_as(x, k)
                &&& final(e).frees == old(e).frees + 1
                &&& final(e).allocs == old(e).allocs
                &&& final(e).same_config(*old(e))
            },
    {
        e.free(self.id)
    }
}

} // verus!
