//! Pluggable cache eviction strategies for memoized function values.
use vstd::prelude::*;

use crate::id::Id;

verus! {

/// Trait for cache eviction strategies.
///
/// Implementations control when memoized values are evicted from the cache.
/// Every policy keeps a well-formedness invariant, `wf`, that creation
/// establishes and every operation preserves.
pub trait EvictionPolicy: Sized {
    /// The policy's internal invariant.
    spec fn wf(&self) -> bool;

    /// Whether this policy can retire memo values within a revision; by
    /// default it cannot.
    fn retires_values() -> (r: bool)
        default_ensures
            !r,
    {
        false
    }

    /// Create a new eviction policy with the given capacity.
    fn new(capacity: usize) -> (policy: Self)
        ensures
            policy.wf(),
    ;

    /// How the policy changes when `id` is used.
    spec fn records_use(old: Self, id: Id, new: Self) -> bool;

    /// Record that an item was accessed.
    fn record_use(&mut self, id: Id)
        requires
            old(self).wf(),
        ensures
            final(self).wf(),
            Self::records_use(*old(self), id, *final(self)),
    ;

    /// Record that an item had a value inserted into its memo.
    ///
    /// Returns `true` if the policy crossed an eviction point and the
    /// ingredient should run an eviction pass. By default an insertion is
    /// recorded as a use and never crosses an eviction point.
    fn record_insert(&mut self, id: Id) -> (evict: bool)
        requires
            old(self).wf(),
        ensures
            final(self).wf(),
        default_ensures
            Self::records_use(*old(self), id, *final(self)),
            !evict,
    {
        self.record_use(id);
        false
    }

    /// Set the maximum capacity.
    fn set_capacity(&mut self, capacity: usize)
        requires
            old(self).wf(),
        ensures
            final(self).wf(),
    ;

    /// Whether an eviction pass of this policy may offer `id` to its
    /// callback.
    spec fn may_offer(&self, id: Id) -> bool;

    /// Offers the items that should be evicted to `cb`, which evicts an
    /// item and returns `true`, or keeps it and returns `false`. Only items
    /// that the policy may offer are passed to `cb`: a callback need only
    /// accept those.
    ///
    /// Called at eviction points, including the start of a new revision.
    fn for_each_evicted<F: FnMut(Id) -> bool>(&mut self, cb: F)
        requires
            old(self).wf(),
            forall|id: Id| old(self).may_offer(id) ==> call_requires(cb, (id,)),
        ensures
            final(self).wf(),
    ;
}

/// Marker trait for eviction policies that have a configurable capacity.
///
/// Only policies that implement this trait expose runtime capacity
/// configuration on tracked functions.
pub trait HasCapacity: EvictionPolicy {}

} // verus!
