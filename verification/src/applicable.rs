//! The interface that every mirror offers, and the mirror of this crate
//! that offers it: a value together with the plan by which it is read.
use crate::convert::{can_convert, downgrade, present, try_downgraded};
use crate::merge::{merge_into_base, merge_into_partial, merged_base, merged_partial};
use crate::plan::Plan;
use crate::value::Value;
use vstd::prelude::*;

verus! {

/// The operations of a mirror.
pub trait Applicable: Sized {
    /// The record that this is the mirror of.
    type Base;

    /// Whether `after` is what merging this mirror into `before` leaves. An
    /// impl that does not say what it leaves promises nothing.
    open spec fn merges_into(self, before: Self::Base, after: Self::Base) -> bool {
        true
    }

    /// Whether `after` is what merging this mirror into the mirror `before`
    /// leaves.
    open spec fn merges_into_opt(self, before: Self, after: Self) -> bool {
        true
    }

    /// Whether `answer` says if this mirror holds all that its record needs.
    open spec fn answers(&self, answer: bool) -> bool {
        true
    }

    /// Merges this mirror into `base` and returns the record.
    fn build(self, base: Self::Base) -> (r: Self::Base)
        ensures
            self.merges_into(base, r),
    {
        let mut base = base;
        self.apply_to(&mut base);
        base
    }

    /// Merges this mirror into `base`: what is set here is set there.
    fn apply_to(self, base: &mut Self::Base)
        ensures
            self.merges_into(*old(base), *final(base)),
    ;

    /// Merges this mirror into `other`: what is set here wins, and what is
    /// set only there stays.
    fn apply_to_opt(self, other: &mut Self)
        ensures
            self.merges_into_opt(*old(other), *final(other)),
    ;

    /// Merges `other` into this mirror and returns it: what is set in
    /// `other` wins.
    fn apply(self, other: Self) -> (r: Self)
        ensures
            other.merges_into_opt(self, r),
    {
        let mut target = self;
        other.apply_to_opt(&mut target);
        target
    }

    /// Whether this mirror can become its record.
    fn can_convert(&self) -> (r: bool)
        ensures
            self.answers(r),
    ;
}

/// A mirror: a value, read by a plan.
#[derive(Debug, PartialEq, Eq)]
pub struct Mirror<T> {
    pub plan: Plan,
    pub value: Value<T>,
}

impl<T> Applicable for Mirror<T> {
    type Base = Value<T>;

    open spec fn merges_into(self, before: Value<T>, after: Value<T>) -> bool {
        after@ == merged_base(self.plan, self.value@, before@)
    }

    /// The plan of `before` stays; its value is merged by the plan of the
    /// incoming mirror.
    open spec fn merges_into_opt(self, before: Self, after: Self) -> bool {
        &&& after.plan == before.plan
        &&& after.value@ == merged_partial(self.plan, self.value@, before.value@)
    }

    open spec fn answers(&self, answer: bool) -> bool {
        answer == present(self.plan, self.value@)
    }

    fn apply_to(self, base: &mut Value<T>) {
        merge_into_base(&self.plan, self.value, base);
    }

    fn apply_to_opt(self, other: &mut Self) {
        merge_into_partial(&self.plan, self.value, &mut other.value);
    }

    fn can_convert(&self) -> (r: bool) {
        can_convert(&self.plan, &self.value)
    }
}

impl<T> Mirror<T> {
    /// The downgrade: the record that this mirror holds. Where a field that
    /// the record needs is missing, the mirror comes back as it was.
    pub fn downgrade(self) -> (r: Result<Value<T>, Mirror<T>>)
        ensures
            r is Ok <==> present(self.plan, self.value@),
            match r {
                Ok(record) => try_downgraded(self.plan, self.value@) == Some(record@),
                Err(mirror) => mirror == self,
            },
    {
        proof {
            crate::convert::lemma_present_iff_downgrades(self.plan, self.value@);
        }
        let Mirror { plan, value } = self;
        match downgrade(&plan, value) {
            Ok(record) => Ok(record),
            Err(value) => Err(Mirror { plan, value }),
        }
    }
}

} // verus!
