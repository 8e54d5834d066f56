//! Sampler chains: ordered stages that read a position's logits and select
//! the next token.
//!
//! A chain owns its internal state — a pseudo-random generator seeded at
//! construction and the history of accepted tokens — and sampling is a
//! deterministic function of that state and the logits: a fixed seed and
//! fixed logits always select the same token.

use vstd::prelude::*;

use crate::context::LlamaContext;
use crate::engine::{FakeEngine, ResourceKind};
use crate::errors::{FreeError, LogitsError};
use crate::token::LlamaToken;

verus! {

/// One stage of a sampler chain.
#[derive(Copy, Clone, Debug, PartialEq, Eq, Structural)]
pub enum SamplerStage {
    /// Seeded distribution sampling: selects a token at random, weighted by
    /// the logits, from a generator seeded with `seed`.
    Dist { seed: u32 },
    /// Greedy arg-max selection: selects the first token with the largest
    /// logit.
    Greedy,
}

/// Multiplier of the linear-congruential step.
pub const RNG_MUL: u64 = 6364136223846793005;

/// Increment of the linear-congruential step.
pub const RNG_INC: u64 = 1442695040888963407;

/// One step of the chain's pseudo-random generator.
pub open spec fn spec_rng_next(s: u64) -> u64 {
    vstd::wrapping::u64_specs::wrapping_add(
        vstd::wrapping::u64_specs::wrapping_mul(s, RNG_MUL),
        RNG_INC,
    )
}

/// The generator state a fresh chain starts from: the seed of its first
/// distribution stage, or 0 when it has none.
pub open spec fn spec_init_rng(stages: Seq<SamplerStage>) -> u64
    decreases stages.len(),
{
    if stages.len() == 0 {
        0u64
    } else {
        match stages[0] {
            SamplerStage::Dist { seed } => seed as u64,
            _ => spec_init_rng(stages.drop_first()),
        }
    }
}

/// The candidate list a chain starts from: every vocabulary index paired
/// with its logit.
pub open spec fn spec_initial_cands(logits: Seq<i32>) -> Seq<(usize, i32)> {
    Seq::new(logits.len(), |i: int| (i as usize, logits[i]))
}

/// Position of the first maximal logit among the first `n` candidates.
pub open spec fn spec_argmax_upto(c: Seq<(usize, i32)>, n: int) -> int
    recommends
        1 <= n <= c.len(),
    decreases n,
{
    if n <= 1 {
        0
    } else {
        let p = spec_argmax_upto(c, n - 1);
        if c[n - 1].1 > c[p].1 {
            n - 1
        } else {
            p
        }
    }
}

/// The smallest logit among the first `n` candidates.
pub open spec fn spec_min_upto(c: Seq<(usize, i32)>, n: int) -> int
    recommends
        1 <= n <= c.len(),
    decreases n,
{
    if n <= 1 {
        c[0].1 as int
    } else {
        let m = spec_min_upto(c, n - 1);
        if (c[n - 1].1 as int) < m {
            c[n - 1].1 as int
        } else {
            m
        }
    }
}

/// Cumulative weight of the first `n` candidates, where a candidate with
/// logit `l` weighs `l - m + 1` (positive whenever `m` is the minimum).
pub open spec fn spec_cum(c: Seq<(usize, i32)>, m: int, n: int) -> int
    decreases n,
{
    if n <= 0 {
        0
    } else {
        spec_cum(c, m, n - 1) + (c[n - 1].1 - m + 1)
    }
}

/// First candidate position whose cumulative weight passes `r`, scanning
/// from position `i`.
pub open spec fn spec_pick_from(c: Seq<(usize, i32)>, m: int, r: int, i: int) -> int
    decreases c.len() - i,
{
    if i >= c.len() {
        i
    } else if spec_cum(c, m, i + 1) > r {
        i
    } else {
        spec_pick_from(c, m, r, i + 1)
    }
}

/// Effect of one stage on the chain state: the candidate list, the selected
/// vocabulary index so far, and the generator state. A selecting stage
/// overrides any earlier selection, as stages apply in order.
pub open spec fn spec_apply_stage(
    stage: SamplerStage,
    c: Seq<(usize, i32)>,
    chosen: Option<usize>,
    rng: u64,
) -> (Seq<(usize, i32)>, Option<usize>, u64) {
    if c.len() == 0 {
        (c, chosen, rng)
    } else {
        match stage {
            SamplerStage::Greedy => (c, Some(c[spec_argmax_upto(c, c.len() as int)].0), rng),
            SamplerStage::Dist { seed: _ } => {
                let r2 = spec_rng_next(rng);
                let m = spec_min_upto(c, c.len() as int);
                let total = spec_cum(c, m, c.len() as int);
                let r = (r2 as int) % total;
                let p = spec_pick_from(c, m, r, 0);
                (c, Some(c[p].0), r2)
            },
        }
    }
}

/// Effect of a whole chain, applied stage by stage in order.
pub open spec fn spec_run_chain(
    stages: Seq<SamplerStage>,
    c: Seq<(usize, i32)>,
    chosen: Option<usize>,
    rng: u64,
) -> (Seq<(usize, i32)>, Option<usize>, u64)
    decreases stages.len(),
{
    if stages.len() == 0 {
        (c, chosen, rng)
    } else {
        let (c2, ch2, r2) = spec_apply_stage(stages[0], c, chosen, rng);
        spec_run_chain(stages.drop_first(), c2, ch2, r2)
    }
}

/// What sampling returns: the selected vocabulary index and the generator
/// state after the chain ran. A chain in which no stage selected falls back
/// to greedy arg-max over the final candidates.
#[verifier::opaque]
pub open spec fn spec_sample(stages: Seq<SamplerStage>, rng: u64, logits: Seq<i32>) -> (
    int,
    u64,
)
    recommends
        logits.len() >= 1,
{
    let c0 = spec_initial_cands(logits);
    let (c, chosen, r) = spec_run_chain(stages, c0, None::<usize>, rng);
    match chosen {
        Some(v) => (v as int, r),
        None => (c[spec_argmax_upto(c, c.len() as int)].0 as int, r),
    }
}

/// The minimum over a prefix bounds every candidate in it.
proof fn lemma_min_upto_le(c: Seq<(usize, i32)>, n: int, j: int)
    requires
        0 <= j < n <= c.len(),
    ensures
        spec_min_upto(c, n) <= c[j].1,
    decreases n,
{
    if n > 1 && j < n - 1 {
        lemma_min_upto_le(c, n - 1, j);
    }
}

/// When `m` bounds every logit in the prefix, each candidate weighs at
/// least 1, so the cumulative weight grows by at least 1 per candidate and
/// by at most the full logit range.
proof fn lemma_cum_bounds(c: Seq<(usize, i32)>, m: int, n: int)
    requires
        0 <= n <= c.len(),
        forall|j: int| 0 <= j < n ==> m <= #[trigger] c[j].1,
    ensures
        n <= spec_cum(c, m, n),
        m >= i32::MIN ==> spec_cum(c, m, n) <= n * 0x1_0000_0000,
    decreases n,
{
    if n > 0 {
        lemma_cum_bounds(c, m, n - 1);
    }
}

/// The first-maximum position over a non-empty prefix is inside it.
proof fn lemma_argmax_range(c: Seq<(usize, i32)>, n: int)
    requires
        1 <= n <= c.len(),
    ensures
        0 <= spec_argmax_upto(c, n) < n,
    decreases n,
{
    if n > 1 {
        lemma_argmax_range(c, n - 1);
    }
}

/// The cumulative weight grows with the prefix.
proof fn lemma_cum_mono(c: Seq<(usize, i32)>, m: int, i: int, n: int)
    requires
        0 <= i <= n <= c.len(),
        forall|j: int| 0 <= j < n ==> m <= #[trigger] c[j].1,
    ensures
        spec_cum(c, m, i) <= spec_cum(c, m, n),
    decreases n - i,
{
    if i < n {
        lemma_cum_mono(c, m, i + 1, n);
    }
}

/// A weight target below the total is reached inside the candidate list.
proof fn lemma_pick_in_range(c: Seq<(usize, i32)>, m: int, r: int, i: int)
    requires
        0 <= i <= c.len(),
        spec_cum(c, m, i) <= r,
        r < spec_cum(c, m, c.len() as int),
        forall|j: int| 0 <= j < c.len() ==> m <= #[trigger] c[j].1,
    ensures
        i <= spec_pick_from(c, m, r, i) < c.len(),
    decreases c.len() - i,
{
    if i == c.len() {
        assert(false);
    } else if spec_cum(c, m, i + 1) > r {
    } else {
        lemma_pick_in_range(c, m, r, i + 1);
    }
}

/// A chain only ever selects indices of the candidate list it started
/// from, and never clears a selection.
proof fn lemma_run_chain_in_range(
    stages: Seq<SamplerStage>,
    c: Seq<(usize, i32)>,
    chosen: Option<usize>,
    rng: u64,
    logits: Seq<i32>,
)
    requires
        c == spec_initial_cands(logits),
        logits.len() >= 1,
        chosen matches Some(v) ==> v < logits.len(),
    ensures
        ({
            let (c2, ch2, r2) = spec_run_chain(stages, c, chosen, rng);
            &&& c2 == c
            &&& (ch2 matches Some(v) ==> v < logits.len())
            &&& (chosen is Some ==> ch2 is Some)
        }),
    decreases stages.len(),
{
    if stages.len() > 0 {
        let (c2, ch2, r2) = spec_apply_stage(stages[0], c, chosen, rng);
        assert(c2 == c);
        assert(ch2 matches Some(v) ==> v < logits.len()) by {
            let n = c.len() as int;
            match stages[0] {
                SamplerStage::Greedy => {
                    lemma_argmax_range(c, n);
                },
                SamplerStage::Dist { seed: _ } => {
                    let m = spec_min_upto(c, n);
                    assert forall|j: int| 0 <= j < n implies m <= #[trigger] c[j].1 by {
                        lemma_min_upto_le(c, n, j);
                    }
                    lemma_cum_bounds(c, m, n);
                    let total = spec_cum(c, m, n);
                    let r = (spec_rng_next(rng) as int) % total;
                    lemma_pick_in_range(c, m, r, 0);
                },
            }
        }
        lemma_run_chain_in_range(stages.drop_first(), c, ch2, r2, logits);
    }
}

/// Sampling always selects a vocabulary index of the logits it was given.
pub proof fn lemma_sample_in_range(stages: Seq<SamplerStage>, rng: u64, logits: Seq<i32>)
    requires
        logits.len() >= 1,
    ensures
        0 <= spec_sample(stages, rng, logits).0 < logits.len(),
{
    reveal(spec_sample);
    let c = spec_initial_cands(logits);
    lemma_run_chain_in_range(stages, c, None::<usize>, rng, logits);
    let (c2, ch2, r2) = spec_run_chain(stages, c, None::<usize>, rng);
    if ch2 is None {
        lemma_argmax_range(c2, c2.len() as int);
    }
}

/// Position of the first maximal logit in the candidate list (executable
/// greedy arg-max).
fn argmax_cands(cands: &Vec<(usize, i32)>) -> (best: usize)
    requires
        cands@.len() >= 1,
    ensures
        best < cands@.len(),
        best as int == spec_argmax_upto(cands@, cands@.len() as int),
{
    let n = cands.len();
    let mut best: usize = 0;
    let mut k: usize = 1;
    while k < n
        invariant
            n == cands@.len(),
            1 <= k <= n,
            best < k,
            best as int == spec_argmax_upto(cands@, k as int),
        decreases n - k,
    {
        if cands[k].1 > cands[best].1 {
            best = k;
        }
        k = k + 1;
    }
    best
}

/// Weighted pick for the distribution stage: the candidate position the
/// stepped generator selects.
fn dist_pick(cands: &Vec<(usize, i32)>, rng: u64) -> (picked: usize)
    requires
        1 <= cands@.len() <= i32::MAX,
    ensures
        picked < cands@.len(),
        ({
            let m = spec_min_upto(cands@, cands@.len() as int);
            let total = spec_cum(cands@, m, cands@.len() as int);
            picked as int == spec_pick_from(cands@, m, (rng as int) % total, 0)
        }),
{
    let n = cands.len();
    let mut m: i32 = cands[0].1;
    let mut k: usize = 1;
    while k < n
        invariant
            n == cands@.len(),
            1 <= k <= n,
            m as int == spec_min_upto(cands@, k as int),
        decreases n - k,
    {
        if cands[k].1 < m {
            m = cands[k].1;
        }
        k = k + 1;
    }
    proof {
        assert forall|j: int| 0 <= j < n implies m as int <= #[trigger] cands@[j].1 by {
            lemma_min_upto_le(cands@, n as int, j);
        }
    }
    let mut total: u64 = 0;
    let mut k: usize = 0;
    while k < n
        invariant
            n == cands@.len(),
            n <= i32::MAX,
            k <= n,
            m as int == spec_min_upto(cands@, n as int),
            forall|j: int| 0 <= j < n ==> m as int <= #[trigger] cands@[j].1,
            total == spec_cum(cands@, m as int, k as int),
            total <= k * 0x1_0000_0000,
        decreases n - k,
    {
        let w: u64 = (cands[k].1 as i64 - m as i64 + 1) as u64;
        proof {
            lemma_cum_bounds(cands@, m as int, k as int + 1);
        }
        total = total + w;
        k = k + 1;
    }
    proof {
        lemma_cum_bounds(cands@, m as int, n as int);
    }
    let r: u64 = rng % total;
    let ghost r_int = r as int;
    let mut acc: u64 = 0;
    let mut k: usize = 0;
    let mut picked: usize = 0;
    let mut found = false;
    while k < n
        invariant
            n == cands@.len(),
            n <= i32::MAX,
            k <= n,
            m as int == spec_min_upto(cands@, n as int),
            forall|j: int| 0 <= j < n ==> m as int <= #[trigger] cands@[j].1,
            total == spec_cum(cands@, m as int, n as int),
            r_int == r,
            r < total,
            !found ==> acc == spec_cum(cands@, m as int, k as int),
            !found ==> acc <= k * 0x1_0000_0000,
            !found ==> acc <= r,
            !found ==> spec_pick_from(cands@, m as int, r_int, 0) == spec_pick_from(
                cands@,
                m as int,
                r_int,
                k as int,
            ),
            found ==> picked < n && picked as int == spec_pick_from(cands@, m as int, r_int, 0),
        decreases n - k,
    {
        if !found {
            let w: u64 = (cands[k].1 as i64 - m as i64 + 1) as u64;
            proof {
                lemma_cum_bounds(cands@, m as int, k as int + 1);
            }
            if acc + w > r {
                picked = k;
                found = true;
            } else {
                acc = acc + w;
            }
        }
        k = k + 1;
    }
    proof {
        if !found {
            assert(acc == spec_cum(cands@, m as int, n as int));
            assert(false);
        }
    }
    picked
}

/// Handle to a sampler chain: the ordered stages plus the chain's internal
/// state (generator and accepted-token history).
#[derive(Debug)]
pub struct LlamaSampler {
    pub id: u64,
    /// The stages, applied in order.
    pub stages: Vec<SamplerStage>,
    /// Pseudo-random generator state.
    pub rng: u64,
    /// Tokens accepted into the chain so far (repetition history).
    pub prev: Vec<LlamaToken>,
}

impl LlamaSampler {
    /// Build a chain from the given stages. The generator starts from the
    /// first distribution stage's seed, so two chains built from equal
    /// stage lists are in identical states.
    pub fn chain_simple(e: &mut FakeEngine, stages: Vec<SamplerStage>) -> (s: LlamaSampler)
        requires
            old(e).wf(),
            old(e).next_id < u64::MAX,
            old(e).allocs < u64::MAX,
        ensures
            final(e).wf(),
            s.id == old(e).next_id,
            final(e).live_as(s.id, ResourceKind::Sampler),
            !old(e).live(s.id),
            final(e).allocs == old(e).allocs + 1,
            final(e).next_id == old(e).next_id + 1,
            final(e).frees == old(e).frees,
            final(e).same_config(*old(e)),
            forall|x: u64| x != s.id ==> final(e).live(x) == old(e).live(x),
            forall|x: u64, k: ResourceKind|
                x != s.id ==> final(e).live_as(x, k) == old(e).live_as(x, k),
            forall|x: u64| final(e).has_dependent(x) == old(e).has_dependent(x),
            s.stages == stages,
            s.rng == spec_init_rng(stages@),
            s.prev@.len() == 0,
    {
        let mut rng: u64 = 0;
        let mut i: usize = 0;
        let mut found = false;
        proof {
            assert(stages@.skip(0) =~= stages@);
        }
        while i < stages.len()
            invariant
                i <= stages@.len(),
                !found ==> rng == 0 && spec_init_rng(stages@) == spec_init_rng(stages@.skip(
                    i as int,
                )),
                found ==> rng == spec_init_rng(stages@),
            decreases stages@.len() - i,
        {
            if !found {
                match stages[i] {
                    SamplerStage::Dist { seed } => {
                        rng = seed as u64;
                        found = true;
                        proof {
                            assert(stages@.skip(i as int)[0] == stages@[i as int]);
                        }
                    },
                    _ => {
                        proof {
                            assert(stages@.skip(i as int)[0] == stages@[i as int]);
                            assert(stages@.skip(i as int).drop_first() =~= stages@.skip(
                                i as int + 1,
                            ));
                        }
                    },
                }
            }
            i = i + 1;
        }
        proof {
            if !found {
                assert(stages@.skip(stages@.len() as int).len() == 0);
            }
        }
        let id = e.allocate(ResourceKind::Sampler, None);
        proof {
            assert forall|x: u64| final(e).has_dependent(x) == old(e).has_dependent(x) by {}
        }
        LlamaSampler { id, stages, rng, prev: Vec::new() }
    }

    /// Sample from an explicit logit vector: run the chain and return the
    /// selected token, advancing the generator state. Deterministic: the
    /// result is a function of the stages, the generator state, and the
    /// logits alone.
    #[verifier::rlimit(60)]
    pub fn sample_logits(&mut self, logits: &Vec<i32>) -> (t: LlamaToken)
        requires
            logits@.len() >= 1,
            logits@.len() <= i32::MAX,
        ensures
            final(self).id == old(self).id,
            final(self).stages == old(self).stages,
            final(self).prev == old(self).prev,
            t.0 as int == spec_sample(old(self).stages@, old(self).rng, logits@).0,
            final(self).rng == spec_sample(old(self).stages@, old(self).rng, logits@).1,
            0 <= t.0 < logits@.len(),
    {
        proof {
            reveal(spec_sample);
        }
        let n = logits.len();
        let mut cands: Vec<(usize, i32)> = Vec::new();
        let mut i: usize = 0;
        while i < n
            invariant
                n == logits@.len(),
                i <= n,
                cands@.len() == i,
                forall|j: int| 0 <= j < i ==> #[trigger] cands@[j] == (j as usize, logits@[j]),
            decreases n - i,
        {
            cands.push((i, logits[i]));
            i = i + 1;
        }
        proof {
            assert(cands@ =~= spec_initial_cands(logits@));
        }
        let ghost c0 = cands@;
        let ghost stages0 = self.stages@;
        let ghost rng0 = self.rng;
        let mut chosen: Option<usize> = None;
        let mut s: usize = 0;
        let n_stages = self.stages.len();
        proof {
            assert(stages0.skip(0) =~= stages0);
        }
        while s < n_stages
            invariant
                n == logits@.len(),
                1 <= n <= i32::MAX,
                n_stages == stages0.len(),
                s <= n_stages,
                self.stages == old(self).stages,
                self.stages@ == stages0,
                self.id == old(self).id,
                self.prev == old(self).prev,
                cands@ == c0,
                c0 == spec_initial_cands(logits@),
                chosen matches Some(v) ==> v < n,
                spec_run_chain(stages0, c0, None::<usize>, rng0) == spec_run_chain(
                    stages0.skip(s as int),
                    cands@,
                    chosen,
                    self.rng,
                ),
            decreases n_stages - s,
        {
            let ghost pre_chosen = chosen;
            let ghost pre_rng = self.rng;
            let stage = self.stages[s];
            match stage {
                SamplerStage::Greedy => {
                    let best = argmax_cands(&cands);
                    chosen = Some(cands[best].0);
                },
                SamplerStage::Dist { seed: _ } => {
                    self.rng = self.rng.wrapping_mul(RNG_MUL).wrapping_add(RNG_INC);
                    let picked = dist_pick(&cands, self.rng);
                    chosen = Some(cands[picked].0);
                },
            }
            proof {
                assert(stages0.skip(s as int)[0] == stages0[s as int]);
                assert(stages0.skip(s as int).drop_first() =~= stages0.skip(s as int + 1));
                assert(spec_apply_stage(stages0[s as int], cands@, pre_chosen, pre_rng) == (
                    cands@,
                    chosen,
                    self.rng,
                ));
            }
            s = s + 1;
        }
        proof {
            assert(stages0.skip(n_stages as int).len() == 0);
        }
        let idx = match chosen {
            Some(v) => v,
            None => {
                let best = argmax_cands(&cands);
                cands[best].0
            },
        };
        LlamaToken(idx as i32)
    }

    /// Sample the token at batch position `i` of the context's most recent
    /// decode. Fails exactly when that position's logits are not
    /// retrievable; otherwise the result is the chain's deterministic
    /// selection over those logits.
    pub fn sample(
        &mut self,
        ctx: &LlamaContext,
        i: usize,
    ) -> (r: Result<LlamaToken, LogitsError>)
        requires
            ctx.wf(),
        ensures
            r is Ok <==> i < ctx.last_batch_logits@.len() && ctx.last_batch_logits@[i as int],
            r matches Err(err) ==> err == (LogitsError { position: i }) && *final(self) == *old(
                self,
            ),
            final(self).id == old(self).id,
            final(self).stages == old(self).stages,
            final(self).prev == old(self).prev,
            r matches Ok(t) ==> {
                let logits = Seq::new(
                    ctx.n_vocab as nat,
                    |v: int| crate::context::spec_logit(ctx.n_past, i as int, v),
                );
                &&& t.0 as int == spec_sample(old(self).stages@, old(self).rng, logits).0
                &&& final(self).rng == spec_sample(old(self).stages@, old(self).rng, logits).1
                &&& 0 <= t.0 < ctx.n_vocab
            },
    {
        let logits = match ctx.logits_at(i) {
            Ok(v) => v,
            Err(err) => {
                return Err(LogitsError { position: err.position });
            },
        };
        proof {
            assert(logits@ =~= Seq::new(
                ctx.n_vocab as nat,
                |v: int| crate::context::spec_logit(ctx.n_past, i as int, v),
            ));
        }
        Ok(self.sample_logits(&logits))
    }

    /// Accept a produced token into the chain's internal state (the
    /// repetition history); called exactly once per produced token.
    pub fn accept(&mut self, token: LlamaToken)
        ensures
            final(self).prev@ == old(self).prev@.push(token),
            final(self).id == old(self).id,
            final(self).stages == old(self).stages,
            final(self).rng == old(self).rng,
    {
        self.prev.push(token);
    }

    /// Release the sampler chain. Fails if the handle is stale; a failed
    /// free changes nothing.
    pub fn free(&self, e: &mut FakeEngine) -> (r: Result<(), FreeError>)
        requires
            old(e).wf(),
        ensures
            final(e).wf(),
            r is Ok <==> old(e).live(self.id) && !old(e).has_dependent(self.id),
            r == Err::<(), FreeError>(FreeError::NotLive) <==> !old(e).live(self.id),
            r is Err ==> *final(e) == *old(e),
            r is Ok ==> {
                &&& !final(e).live(self.id)
                &&& forall|x: u64| x != self.id ==> final(e).live(x) == old(e).live(x)
                &&& forall|x: u64, k: ResourceKind|
                    x != self.id ==> final(e).live_as(x, k) == old(e).live_as(x, k)
                &&& final(e).frees == old(e).frees + 1
                &&& final(e).allocs == old(e).allocs
                &&& final(e).same_config(*old(e))
            },
    {
        e.free(self.id)
    }
}

/// Sampling is deterministic and reproducible: two chains with equal stage
/// lists and equal internal generator states select the same token, and end
/// in the same generator state, on any fixed logits.
pub proof fn lemma_sample_deterministic(
    a: LlamaSampler,
    b: LlamaSampler,
    logits: Seq<i32>,
)
    requires
        a.stages@ == b.stages@,
        a.rng == b.rng,
    ensures
        spec_sample(a.stages@, a.rng, logits) == spec_sample(b.stages@, b.rng, logits),
{
}

} // verus!
