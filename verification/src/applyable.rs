//! Applying one field: a value that may be missing, onto the value that it
//! replaces.
use crate::value::Value;
use vstd::prelude::*;

verus! {

/// A type together with the type that its optional field holds.
pub trait OptionalRepresentation {
    type Inner;
}

/// A value of this crate is held as it is.
impl<T> OptionalRepresentation for Value<T> {
    type Inner = Value<T>;
}

/// The optional field for a `T`.
pub struct OptionalStructureField<T: OptionalRepresentation>(
    pub Option<<T as OptionalRepresentation>::Inner>,
);

/// What can be applied onto a `T`.
pub trait Applyable<T>: Sized {
    /// Whether `after` is what applying this onto `before` leaves. An impl
    /// that does not say what it leaves promises nothing.
    open spec fn applies(self, before: T, after: T) -> bool {
        true
    }

    /// Applies this onto `t`.
    fn apply_to(self, t: &mut T)
        ensures
            self.applies(*old(t), *final(t)),
    ;
}

/// A value that may be missing replaces `t` where it is there.
impl<T> Applyable<T> for Option<T> {
    open spec fn applies(self, before: T, after: T) -> bool {
        after == match self {
            Some(s) => s,
            None => before,
        }
    }

    fn apply_to(self, t: &mut T) {
        if let Some(s) = self {
            *t = s;
        }
    }
}

/// A value replaces `t`.
impl<T> Applyable<T> for T {
    open spec fn applies(self, before: T, after: T) -> bool {
        after == self
    }

    fn apply_to(self, t: &mut T) {
        *t = self;
    }
}

/// An optional field is applied as what it holds.
impl<T: OptionalRepresentation> Applyable<T> for OptionalStructureField<T> where
    Option<<T as OptionalRepresentation>::Inner>: Applyable<T>,
 {
    open spec fn applies(self, before: T, after: T) -> bool {
        self.0.applies(before, after)
    }

    fn apply_to(self, t: &mut T) {
        self.0.apply_to(t)
    }
}

} // verus!
