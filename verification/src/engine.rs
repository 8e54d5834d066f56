//! The engine resource registry: an allocation-counting fake engine.
//!
//! The native inference engine hands out raw handles and frees them through
//! C calls; this crate models that collaborator as an explicit in-process
//! engine object that tracks every allocation and release. Handles are plain
//! ids into this registry, and every use of a handle carries a liveness
//! precondition, so use-after-free and double-free are ruled out at
//! verification time and observable (as counted allocations and frees) at
//! test time.

use vstd::prelude::*;

use crate::errors::FreeError;

verus! {

/// The kind of engine resource a registry entry stands for.
#[derive(Copy, Clone, Debug, PartialEq, Eq, Structural)]
pub enum ResourceKind {
    /// Process-wide engine state.
    Backend,
    /// Loaded model weights and vocabulary.
    Model,
    /// Per-conversation decode state (KV-cache), bound to one model.
    Context,
    /// A sampler chain with its internal state.
    Sampler,
    /// An image-to-embedding projector model.
    Projector,
    /// A dense array of image-patch embedding vectors.
    ImageEmbed,
}

/// One live engine resource: its id, its kind, and the resource it depends
/// on (a context depends on its model, a model on the backend).
#[derive(Copy, Clone, Debug)]
pub struct EngineResource {
    pub id: u64,
    pub kind: ResourceKind,
    pub parent: Option<u64>,
}

/// An image file the fake engine knows how to convert, with the number of
/// patch embeddings its conversion produces.
#[derive(Clone, Debug)]
pub struct ImageFile {
    pub path: String,
    pub n_patches: u32,
}

/// The fake engine: the registry of live resources plus cumulative
/// allocation and free counters, and the catalog of files the engine
/// recognizes (model weights, projector weights, images) and of model
/// parameter keys it accepts as overrides.
#[derive(Debug)]
pub struct FakeEngine {
    /// Currently live resources.
    pub resources: Vec<EngineResource>,
    /// Next id to hand out; ids are never reused.
    pub next_id: u64,
    /// Total resources ever allocated.
    pub allocs: u64,
    /// Total resources ever freed.
    pub frees: u64,
    /// Largest context window the engine can allocate.
    pub max_context_window: u32,
    /// Paths that load as model weights.
    pub model_files: Vec<String>,
    /// Paths that load as projector weights.
    pub projector_files: Vec<String>,
    /// Images the engine can embed.
    pub image_files: Vec<ImageFile>,
    /// Model parameter keys that key/value overrides may name.
    pub override_keys: Vec<String>,
}

impl FakeEngine {
    /// A resource with this id is currently live.
    pub open spec fn live(self, id: u64) -> bool {
        exists|i: int| 0 <= i < self.resources@.len() && self.resources@[i].id == id
    }

    /// A resource with this id is currently live and of this kind.
    pub open spec fn live_as(self, id: u64, kind: ResourceKind) -> bool {
        exists|i: int|
            0 <= i < self.resources@.len() && self.resources@[i].id == id
                && self.resources@[i].kind == kind
    }

    /// Some live resource depends on the resource with this id.
    pub open spec fn has_dependent(self, id: u64) -> bool {
        exists|i: int|
            0 <= i < self.resources@.len() && self.resources@[i].parent == Some(id)
    }

    /// A backend resource is currently live.
    pub open spec fn backend_live(self) -> bool {
        exists|i: int|
            0 <= i < self.resources@.len() && self.resources@[i].kind == ResourceKind::Backend
    }

    /// The registry invariant: ids are unique and below `next_id`, the
    /// counters balance against the live set, every dependency points at a
    /// live resource, and at most one backend is live.
    pub open spec fn wf(self) -> bool {
        &&& forall|i: int, j: int|
            0 <= i < j < self.resources@.len() ==> #[trigger] self.resources@[i].id
                != #[trigger] self.resources@[j].id
        &&& forall|i: int|
            0 <= i < self.resources@.len() ==> #[trigger] self.resources@[i].id < self.next_id
        &&& self.allocs as int == self.frees as int + self.resources@.len()
        &&& forall|i: int|
            0 <= i < self.resources@.len() ==> (#[trigger] self.resources@[i].parent matches Some(
                p,
            ) ==> self.live(p))
        &&& forall|i: int, j: int|
            0 <= i < self.resources@.len() && 0 <= j < self.resources@.len()
                && #[trigger] self.resources@[i].kind == ResourceKind::Backend
                && #[trigger] self.resources@[j].kind == ResourceKind::Backend ==> i == j
    }

    /// The engine's fixed configuration: everything except the live set and
    /// the counters.
    pub open spec fn same_config(self, other: FakeEngine) -> bool {
        &&& self.max_context_window == other.max_context_window
        &&& self.model_files == other.model_files
        &&& self.projector_files == other.projector_files
        &&& self.image_files == other.image_files
        &&& self.override_keys == other.override_keys
    }

    /// A fresh fake engine with no live resources and an empty catalog.
    pub fn new(max_context_window: u32) -> (e: FakeEngine)
        ensures
            e.wf(),
            e.resources@.len() == 0,
            e.next_id == 0,
            e.allocs == 0,
            e.frees == 0,
            e.max_context_window == max_context_window,
            e.model_files@.len() == 0,
            e.projector_files@.len() == 0,
            e.image_files@.len() == 0,
            e.override_keys@.len() == 0,
    {
        FakeEngine {
            resources: Vec::new(),
            next_id: 0,
            allocs: 0,
            frees: 0,
            max_context_window,
            model_files: Vec::new(),
            projector_files: Vec::new(),
            image_files: Vec::new(),
            override_keys: Vec::new(),
        }
    }

    /// Register a path that will load as model weights.
    pub fn register_model_file(&mut self, path: String)
        ensures
            final(self).model_files@ == old(self).model_files@.push(path),
            final(self).resources == old(self).resources,
            final(self).next_id == old(self).next_id,
            final(self).allocs == old(self).allocs,
            final(self).frees == old(self).frees,
            final(self).max_context_window == old(self).max_context_window,
            final(self).projector_files == old(self).projector_files,
            final(self).image_files == old(self).image_files,
            final(self).override_keys == old(self).override_keys,
            old(self).wf() ==> final(self).wf(),
    {
        self.model_files.push(path);
    }

    /// Register a path that will load as projector weights.
    pub fn register_projector_file(&mut self, path: String)
        ensures
            final(self).projector_files@ == old(self).projector_files@.push(path),
            final(self).resources == old(self).resources,
            final(self).next_id == old(self).next_id,
            final(self).allocs == old(self).allocs,
            final(self).frees == old(self).frees,
            final(self).max_context_window == old(self).max_context_window,
            final(self).model_files == old(self).model_files,
            final(self).image_files == old(self).image_files,
            final(self).override_keys == old(self).override_keys,
            old(self).wf() ==> final(self).wf(),
    {
        self.projector_files.push(path);
    }

    /// Register an image the engine can embed, with its patch count.
    pub fn register_image_file(&mut self, path: String, n_patches: u32)
        ensures
            final(self).image_files@ == old(self).image_files@.push(
                ImageFile { path, n_patches },
            ),
            final(self).resources == old(self).resources,
            final(self).next_id == old(self).next_id,
            final(self).allocs == old(self).allocs,
            final(self).frees == old(self).frees,
            final(self).max_context_window == old(self).max_context_window,
            final(self).model_files == old(self).model_files,
            final(self).projector_files == old(self).projector_files,
            final(self).override_keys == old(self).override_keys,
            old(self).wf() ==> final(self).wf(),
    {
        self.image_files.push(ImageFile { path, n_patches });
    }

    /// Register a model parameter key that overrides may name.
    pub fn register_override_key(&mut self, key: String)
        ensures
            final(self).override_keys@ == old(self).override_keys@.push(key),
            final(self).resources == old(self).resources,
            final(self).next_id == old(self).next_id,
            final(self).allocs == old(self).allocs,
            final(self).frees == old(self).frees,
            final(self).max_context_window == old(self).max_context_window,
            final(self).model_files == old(self).model_files,
            final(self).projector_files == old(self).projector_files,
            final(self).image_files == old(self).image_files,
            old(self).wf() ==> final(self).wf(),
    {
        self.override_keys.push(key);
    }

    /// Index of the live resource with this id, if any.
    fn find_index(&self, id: u64) -> (r: Option<usize>)
        ensures
            match r {
                Some(i) => i < self.resources@.len() && self.resources@[i as int].id == id,
                None => !self.live(id),
            },
    {
        let mut i: usize = 0;
        while i < self.resources.len()
            invariant
                i <= self.resources@.len(),
                forall|j: int| 0 <= j < i ==> #[trigger] self.resources@[j].id != id,
            decreases self.resources@.len() - i,
        {
            if self.resources[i].id == id {
                return Some(i);
            }
            i = i + 1;
        }
        None
    }

    /// Whether some live resource depends on this id.
    fn find_dependent(&self, id: u64) -> (r: bool)
        ensures
            r == self.has_dependent(id),
    {
        let mut i: usize = 0;
        while i < self.resources.len()
            invariant
                i <= self.resources@.len(),
                forall|j: int| 0 <= j < i ==> #[trigger] self.resources@[j].parent != Some(id),
            decreases self.resources@.len() - i,
        {
            let is_dep = match self.resources[i].parent {
                Some(p) => p == id,
                None => false,
            };
            if is_dep {
                return true;
            }
            i = i + 1;
        }
        false
    }

    /// Allocate a resource of the given kind depending on `parent`, and
    /// return its id. This is the fake of the engine's handle-returning
    /// constructors; the public wrappers decide when it may be called.
    pub(crate) fn allocate(&mut self, kind: ResourceKind, parent: Option<u64>) -> (id: u64)
        requires
            old(self).wf(),
            old(self).next_id < u64::MAX,
            old(self).allocs < u64::MAX,
            parent matches Some(p) ==> old(self).live(p),
            kind == ResourceKind::Backend ==> !old(self).backend_live(),
        ensures
            final(self).wf(),
            id == old(self).next_id,
            final(self).resources@ == old(self).resources@.push(EngineResource { id, kind, parent }),
            final(self).next_id == old(self).next_id + 1,
            final(self).allocs == old(self).allocs + 1,
            final(self).frees == old(self).frees,
            final(self).same_config(*old(self)),
            final(self).live_as(id, kind),
            !old(self).live(id),
            forall|x: u64| x != id ==> final(self).live(x) == old(self).live(x),
            forall|x: u64, k: ResourceKind|
                x != id ==> final(self).live_as(x, k) == old(self).live_as(x, k),
            forall|x: u64|
                #[trigger] final(self).has_dependent(x) ==> old(self).has_dependent(x) || parent == Some(
                    x,
                ),
            forall|x: u64| old(self).has_dependent(x) ==> final(self).has_dependent(x),
            final(self).backend_live() == (old(self).backend_live() || kind == ResourceKind::Backend),
    {
        let id = self.next_id;
        self.resources.push(EngineResource { id, kind, parent });
        self.next_id = self.next_id + 1;
        self.allocs = self.allocs + 1;
        proof {
            let n = old(self).resources@.len() as int;
            assert(self.resources@[n].id == id);
            assert forall|x: u64| x != id implies self.live(x) == old(self).live(x) by {
                if old(self).live(x) {
                    let i = choose|i: int|
                        0 <= i < old(self).resources@.len() && old(self).resources@[i].id == x;
                    assert(self.resources@[i].id == x);
                }
                if self.live(x) {
                    let i = choose|i: int|
                        0 <= i < self.resources@.len() && self.resources@[i].id == x;
                    assert(i < n + 1);
                    if i < n {
                        assert(old(self).resources@[i].id == x);
                    }
                }
            }
            assert forall|x: u64, k: ResourceKind| x != id implies self.live_as(x, k) == old(
                self,
            ).live_as(x, k) by {
                if old(self).live_as(x, k) {
                    let i = choose|i: int|
                        0 <= i < old(self).resources@.len() && old(self).resources@[i].id == x
                            && old(self).resources@[i].kind == k;
                    assert(self.resources@[i].id == x && self.resources@[i].kind == k);
                }
                if self.live_as(x, k) {
                    let i = choose|i: int|
                        0 <= i < self.resources@.len() && self.resources@[i].id == x
                            && self.resources@[i].kind == k;
                    if i < n {
                        assert(old(self).resources@[i].id == x);
                    }
                }
            }
            assert forall|x: u64| old(self).has_dependent(x) implies self.has_dependent(x) by {
                let i = choose|i: int|
                    0 <= i < old(self).resources@.len() && old(self).resources@[i].parent == Some(
                        x,
                    );
                assert(self.resources@[i].parent == Some(x));
            }
            if old(self).backend_live() {
                let i = choose|i: int|
                    0 <= i < old(self).resources@.len() && old(self).resources@[i].kind
                        == ResourceKind::Backend;
                assert(self.resources@[i].kind == ResourceKind::Backend);
            }
        }
        id
    }

    /// Release the resource with this id. Fails if the id is not live
    /// (double free) or if live resources still depend on it; a failed free
    /// changes nothing.
    pub(crate) fn free(&mut self, id: u64) -> (r: Result<(), FreeError>)
        requires
            old(self).wf(),
        ensures
            final(self).wf(),
            r is Ok <==> old(self).live(id) && !old(self).has_dependent(id),
            r == Err::<(), FreeError>(FreeError::NotLive) <==> !old(self).live(id),
            r == Err::<(), FreeError>(FreeError::DependentsLive) <==> old(self).live(id) && old(
                self,
            ).has_dependent(id),
            r is Err ==> *final(self) == *old(self),
            r is Ok ==> {
                &&& !final(self).live(id)
                &&& forall|x: u64| x != id ==> final(self).live(x) == old(self).live(x)
                &&& forall|x: u64, k: ResourceKind|
                    x != id ==> final(self).live_as(x, k) == old(self).live_as(x, k)
                &&& forall|x: u64|
                    #[trigger] final(self).has_dependent(x) ==> old(self).has_dependent(x)
                &&& final(self).frees == old(self).frees + 1
                &&& final(self).allocs == old(self).allocs
                &&& final(self).next_id == old(self).next_id
                &&& final(self).resources@.len() == old(self).resources@.len() - 1
                &&& final(self).same_config(*old(self))
            },
    {
        let idx = match self.find_index(id) {
            Some(i) => i,
            None => {
                return Err(FreeError::NotLive);
            },
        };
        if self.find_dependent(id) {
            return Err(FreeError::DependentsLive);
        }
        self.resources.remove(idx);
        self.frees = self.frees + 1;
        proof {
            let i = idx as int;
            let olds = old(self).resources@;
            let news = self.resources@;
            assert(news == olds.remove(i));
            assert forall|x: u64| x != id implies self.live(x) == old(self).live(x) by {
                if old(self).live(x) {
                    let j = choose|j: int| 0 <= j < olds.len() && olds[j].id == x;
                    if j < i {
                        assert(news[j].id == x);
                    } else {
                        assert(j != i);
                        assert(news[j - 1].id == x);
                    }
                }
                if self.live(x) {
                    let j = choose|j: int| 0 <= j < news.len() && news[j].id == x;
                    if j < i {
                        assert(olds[j].id == x);
                    } else {
                        assert(olds[j + 1].id == x);
                    }
                }
            }
            assert forall|x: u64, k: ResourceKind| x != id implies self.live_as(x, k) == old(
                self,
            ).live_as(x, k) by {
                if old(self).live_as(x, k) {
                    let j = choose|j: int|
                        0 <= j < olds.len() && olds[j].id == x && olds[j].kind == k;
                    if j < i {
                        assert(news[j].id == x && news[j].kind == k);
                    } else {
                        assert(j != i);
                        assert(news[j - 1].id == x && news[j - 1].kind == k);
                    }
                }
                if self.live_as(x, k) {
                    let j = choose|j: int|
                        0 <= j < news.len() && news[j].id == x && news[j].kind == k;
                    if j < i {
                        assert(olds[j].id == x && olds[j].kind == k);
                    } else {
                        assert(olds[j + 1].id == x && olds[j + 1].kind == k);
                    }
                }
            }
            assert(!self.live(id)) by {
                if self.live(id) {
                    let j = choose|j: int| 0 <= j < news.len() && news[j].id == id;
                    if j < i {
                        assert(olds[j].id == id);
                        assert(olds[i].id == id);
                    } else {
                        assert(olds[j + 1].id == id);
                        assert(olds[i].id == id);
                    }
                }
            }
            assert forall|x: u64| #[trigger] self.has_dependent(x) implies old(
                self,
            ).has_dependent(x) by {
                let j = choose|j: int| 0 <= j < news.len() && news[j].parent == Some(x);
                if j < i {
                    assert(olds[j].parent == Some(x));
                } else {
                    assert(olds[j + 1].parent == Some(x));
                }
            }
            assert(self.wf()) by {
                assert forall|a: int, b: int|
                    0 <= a < b < news.len() implies #[trigger] news[a].id
                    != #[trigger] news[b].id by {
                    let a0: int = if a < i { a } else { a + 1 };
                    let b0: int = if b < i { b } else { b + 1 };
                    assert(news[a] == olds[a0]);
                    assert(news[b] == olds[b0]);
                }
                assert forall|a: int| 0 <= a < news.len() implies #[trigger] news[a].id
                    < self.next_id by {
                    let a0: int = if a < i { a } else { a + 1 };
                    assert(news[a] == olds[a0]);
                }
                assert forall|a: int|
                    0 <= a < news.len() implies (#[trigger] news[a].parent matches Some(p)
                    ==> self.live(p)) by {
                    let a0: int = if a < i { a } else { a + 1 };
                    assert(news[a] == olds[a0]);
                    if news[a].parent is Some {
                        let p = news[a].parent->Some_0;
                        assert(old(self).live(p));
                        assert(p != id) by {
                            if p == id {
                                assert(old(self).has_dependent(id));
                            }
                        }
                        assert(self.live(p));
                    }
                }
                assert forall|a: int, b: int|
                    0 <= a < news.len() && 0 <= b < news.len() && #[trigger] news[a].kind
                        == ResourceKind::Backend && #[trigger] news[b].kind
                        == ResourceKind::Backend implies a == b by {
                    let a0: int = if a < i { a } else { a + 1 };
                    let b0: int = if b < i { b } else { b + 1 };
                    assert(news[a] == olds[a0]);
                    assert(news[b] == olds[b0]);
                }
            }
        }
        Ok(())
    }

    /// Whether this engine has a live backend (executable check).
    pub fn backend_is_live(&self) -> (r: bool)
        ensures
            r == self.backend_live(),
    {
        let mut i: usize = 0;
        while i < self.resources.len()
            invariant
                i <= self.resources@.len(),
                forall|j: int|
                    0 <= j < i ==> #[trigger] self.resources@[j].kind != ResourceKind::Backend,
            decreases self.resources@.len() - i,
        {
            let is_backend = match self.resources[i].kind {
                ResourceKind::Backend => true,
                _ => false,
            };
            if is_backend {
                return true;
            }
            i = i + 1;
        }
        false
    }

    /// Number of currently live resources (executable view of the balance
    /// between allocations and frees).
    pub fn live_count(&self) -> (n: usize)
        ensures
            n == self.resources@.len(),
    {
        self.resources.len()
    }
}

/// The catalog holds an entry spelled exactly `s`.
pub open spec fn contains_string(list: Seq<String>, s: Seq<char>) -> bool {
    exists|i: int| 0 <= i < list.len() && #[trigger] list[i]@ == s
}

/// Executable catalog lookup.
pub fn contains_string_vec(list: &Vec<String>, s: &str) -> (r: bool)
    ensures
        r == contains_string(list@, s@),
{
    let owned: String = s.to_owned();
    let mut i: usize = 0;
    while i < list.len()
        invariant
            owned@ == s@,
            i <= list@.len(),
            forall|j: int| 0 <= j < i ==> #[trigger] list@[j]@ != s@,
        decreases list@.len() - i,
    {
        if list[i].eq(&owned) {
            return true;
        }
        i = i + 1;
    }
    false
}

/// Allocations always balance against frees plus the live set: a registry
/// that satisfies its invariant has leaked nothing — once every live
/// resource is freed, `allocs == frees`.
pub proof fn lemma_alloc_free_balance(e: FakeEngine)
    requires
        e.wf(),
    ensures
        e.allocs as int == e.frees as int + e.resources@.len(),
        e.resources@.len() == 0 ==> e.allocs == e.frees,
{
}

/// No double free: a successful free leaves its id not live, and `free`
/// succeeds exactly on a live id, so the success condition can never hold
/// again for the same id.
pub proof fn lemma_no_double_free(e: FakeEngine, id: u64)
    requires
        !e.live(id),
    ensures
        !(e.live(id) && !e.has_dependent(id)),
{
}

/// No use after free through a fresh handle: every id `allocate` may hand
/// out next is not live now, so a freed id can never come back to life.
pub proof fn lemma_fresh_ids_not_live(e: FakeEngine, id: u64)
    requires
        e.wf(),
        id >= e.next_id,
    ensures
        !e.live(id),
{
}

} // verus!
