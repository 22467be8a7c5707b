//! A shared optional handle to an outside tool or backend, kept by a resolver
//! that acquires it while empty and probes it while held.
use vstd::prelude::*;

verus! {

/// What the resolver does next.
#[derive(Clone, Copy, Debug, PartialEq, Eq, Structural)]
pub enum ResolverAction {
    /// The handle is empty: try to find or install the resource.
    Acquire,
    /// The handle is held: check that it still answers.
    Probe,
}

/// The handle that every control loop reads at each tick.
pub struct Resource<H> {
    pub handle: Option<H>,
}

/// The resource after a liveness probe: a failed probe empties it.
pub open spec fn after_probe<H>(r: Resource<H>, alive: bool) -> Resource<H> {
    if alive { r } else { Resource { handle: None } }
}

/// The resource after an acquisition attempt: a found handle is held, a miss
/// leaves the resource as it was.
pub open spec fn after_acquire<H>(r: Resource<H>, found: Option<H>) -> Resource<H> {
    match found {
        Some(h) => Resource { handle: Some(h) },
        None => r,
    }
}

/// Acquire while empty, probe while held.
pub open spec fn action_of<H>(r: Resource<H>) -> ResolverAction {
    if r.handle is None { ResolverAction::Acquire } else { ResolverAction::Probe }
}

/// Once a probe fails, the next read of the handle, by any control loop, finds
/// it empty, and the resolver goes back to acquiring; a probe that succeeds
/// leaves the handle as it was.
pub proof fn lemma_failed_probe_clears<H>(r: Resource<H>)
    ensures
        after_probe(r, false).handle is None,
        action_of(after_probe(r, false)) == ResolverAction::Acquire,
        after_probe(r, true) == r,
{
}

impl<H> Resource<H> {
    /// An empty resource, as at boot.
    pub fn new() -> (r: Resource<H>)
        ensures
            r.handle is None,
    {
        Resource { handle: None }
    }

    /// Acquire while empty, probe while held.
    pub fn next_action(&self) -> (r: ResolverAction)
        ensures
            r == action_of(*self),
    {
        if self.handle.is_none() {
            ResolverAction::Acquire
        } else {
            ResolverAction::Probe
        }
    }

    /// Report the outcome of an acquisition attempt.
    pub fn record_acquire(&mut self, found: Option<H>)
        ensures
            *final(self) == after_acquire(*old(self), found),
    {
        if let Some(h) = found {
            self.handle = Some(h);
        }
    }

    /// Report the outcome of a liveness probe.
    pub fn record_probe(&mut self, alive: bool)
        ensures
            *final(self) == after_probe(*old(self), alive),
    {
        if !alive {
            self.handle = None;
        }
    }

    /// The handle as a control loop sees it at the start of a tick.
    pub fn current(&self) -> (r: Option<&H>)
        ensures
            r == match self.handle {
                Some(h) => Some(&h),
                None => None::<&H>,
            },
    {
        match &self.handle {
            Some(h) => Some(h),
            None => None,
        }
    }
}

} // verus!
