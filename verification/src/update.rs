//! In-place updates of stored values across revisions.
use vstd::prelude::*;

verus! {

/// A value that can be replaced in place, reporting whether it changed.
pub trait Update: Sized {
    /// Replaces `*current` by `new_value` where they differ; returns whether
    /// the stored value changed. A value that differs is always replaced and
    /// reported; an unchanged value stays as it was.
    fn maybe_update(current: &mut Self, new_value: Self) -> (changed: bool)
        ensures
            changed ==> *final(current) == new_value,
            !changed ==> *final(current) == *old(current),
            *old(current) != new_value ==> changed,
    ;
}

} // verus!
