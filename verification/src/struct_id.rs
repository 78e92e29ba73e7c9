//! Nominal wrappers around generic Salsa struct handles.
use vstd::prelude::*;

use crate::generic::Interned;
use crate::id::{AsId, FromId, Id};
use crate::storage::HasJar;

verus! {

/// Capability passed when reconstructing a nominal struct wrapper; only
/// this crate can create one.
pub struct StructToken {
    _private: (),
}

impl StructToken {
    fn new() -> (token: StructToken) {
        StructToken { _private: () }
    }
}

/// Plumbing implemented by the built-in generic struct handles.
pub trait StructRepr: AsId + FromId + HasJar {}

impl<T: AsId + FromId + HasJar> StructRepr for T {}

/// Extracts the stored data type from an interned representation.
pub trait InternedStructRepr {
    type Data;
}

impl<T> InternedStructRepr for Interned<T> {
    type Data = T;
}

/// A nominal wrapper around a generic struct handle.
///
/// Implementing this trait does not provide constructors, field accessors
/// or ordinary trait implementations. It only says how to move between the
/// wrapper and its generic representation, leaving the wrapper's public API
/// under its author's control.
pub trait Struct: Sized {
    /// The generic handle wrapped by this type.
    type Repr: StructRepr;

    /// The generic handle this wrapper holds.
    spec fn spec_repr(&self) -> Self::Repr;

    /// Wraps the generic representation.
    fn from_repr(token: StructToken, repr: Self::Repr) -> (wrapper: Self)
        ensures
            wrapper.spec_repr() == repr,
    ;

    /// Borrows the generic representation.
    fn as_repr(&self) -> (repr: &Self::Repr)
        ensures
            *repr == self.spec_repr(),
    ;
}

impl<T: Struct> AsId for T {
    /// A wrapper has the id of the handle it holds.
    open spec fn spec_id(&self) -> Id {
        self.spec_repr().spec_id()
    }

    fn as_id(&self) -> (id: Id) {
        self.as_repr().as_id()
    }
}

impl<T: Struct> FromId for T {
    fn from_id(id: Id) -> (value: Self) {
        Self::from_repr(StructToken::new(), T::Repr::from_id(id))
    }
}

impl<T: Struct> HasJar for T {
    /// A wrapper registers the jar of the handle it holds.
    open spec fn spec_jar_key() -> u64 {
        T::Repr::spec_jar_key()
    }

    open spec fn spec_jar_ingredients() -> u32 {
        T::Repr::spec_jar_ingredients()
    }

    fn jar_key() -> (key: u64) {
        T::Repr::jar_key()
    }

    fn jar_ingredients() -> (count: u32) {
        T::Repr::jar_ingredients()
    }
}

} // verus!
