//! The process-wide backend handle.
//!
//! The backend is the engine's global state: it is initialized at most once
//! at a time, every model is loaded under it, and it can be released only
//! after everything depending on it is gone.

use vstd::prelude::*;

use crate::engine::{FakeEngine, ResourceKind};
use crate::errors::{BackendError, FreeError};

verus! {

/// Handle to the process-wide engine state.
#[derive(Debug)]
pub struct LlamaBackend {
    pub id: u64,
}

impl LlamaBackend {
    /// Initialize the engine. Fails exactly when a backend is already live;
    /// a failed initialization allocates nothing.
    pub fn init(e: &mut FakeEngine) -> (r: Result<LlamaBackend, BackendError>)
        requires
            old(e).wf(),
            old(e).next_id < u64::MAX,
            old(e).allocs < u64::MAX,
        ensures
            final(e).wf(),
            r is Ok <==> !old(e).backend_live(),
            r is Err ==> *final(e) == *old(e) && r == Err::<LlamaBackend, BackendError>(
                BackendError::AlreadyInitialized,
            ),
            r matches Ok(b) ==> {
                &&& b.id == old(e).next_id
                &&& final(e).live_as(b.id, ResourceKind::Backend)
                &&& final(e).backend_live()
                &&& !old(e).live(b.id)
                &&& final(e).allocs == old(e).allocs + 1
                &&& final(e).frees == old(e).frees
                &&& final(e).next_id == old(e).next_id + 1
                &&& final(e).same_config(*old(e))
                &&& forall|x: u64| x != b.id ==> final(e).live(x) == old(e).live(x)
                &&& forall|x: u64, k: ResourceKind|
                    x != b.id ==> final(e).live_as(x, k) == old(e).live_as(x, k)
                &&& forall|x: u64| final(e).has_dependent(x) == old(e).has_dependent(x)
            },
    {
        if e.backend_is_live() {
            return Err(BackendError::AlreadyInitialized);
        }
        let id = e.allocate(ResourceKind::Backend, None);
        proof {
            assert forall|x: u64| e.has_dependent(x) == old(e).has_dependent(x) by {
                assert forall|x: u64| #[trigger] e.has_dependent(x) implies old(e).has_dependent(
                    x,
                ) by {}
            }
        }
        Ok(LlamaBackend { id })
    }

    /// Release the engine's global state. Fails if this handle is stale
    /// (double free) or if models, samplers or projectors still depend on
    /// it; a failed free changes nothing.
    pub fn free(&self, e: &mut FakeEngine) -> (r: Result<(), FreeError>)
        requires
            old(e).wf(),
        ensures
            final(e).wf(),
            r is Ok <==> old(e).live(self.id) && !old(e).has_dependent(self.id),
            r == Err::<(), FreeError>(FreeError::NotLive) <==> !old(e).live(self.id),
            r == Err::<(), FreeError>(FreeError::DependentsLive) <==> old(e).live(self.id) && old(
                e,
            ).has_dependent(self.id),
            r is Err ==> *final(e) == *old(e),
            r is Ok ==> {
                &&& !final(e).live(self.id)
                &&& forall|x: u64| x != self.id ==> final(e).live(x) == old(e).live(x)
                &&& forall|x: u64, k: ResourceKind|
                    x != self.id ==> final(e).live_as(x, k) == old(e).live_as(x, k)
                &&& final(e).frees == old(e).frees + 1
                &&& final(e).allocs == old(e).allocs
                &&& final(e).same_config(*old(e))
            },
    {
        e.free(self.id)
    }
}

} // verus!
