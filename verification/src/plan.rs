//! What the generated operations know of a mirror when they run: the class
//! of each field, and for a redirected field the plan of the mirror that it
//! is redirected to.
use crate::classify::FieldPolicy;
use crate::synth::FieldKind;
use vstd::prelude::*;

verus! {

/// One field of a plan.
#[derive(Debug, PartialEq, Eq)]
pub struct FieldPlan {
    pub kind: FieldKind,
    /// The plan of the nested mirror, for a redirected field.
    pub nested: Option<Plan>,
}

/// The fields of a mirror, in declaration order.
#[derive(Debug, PartialEq, Eq)]
pub struct Plan {
    pub fields: Vec<FieldPlan>,
}

impl Plan {
    /// The plan of a mirror from the policies of its fields. `nested` holds,
    /// for each field in order, the plan of the mirror that the field is
    /// redirected to, and `None` for a field that is not redirected.
    ///
    /// Returns `None` where `nested` does not fit the policies: where the
    /// lengths differ, or a plan is given for a field that is not
    /// redirected, or none for one that is.
    pub fn link(found: &Vec<FieldPolicy>, nested: Vec<Option<Plan>>) -> (r: Option<Plan>)
        ensures
            r is Some <==> {
                &&& nested@.len() == found@.len()
                &&& forall|i: int| 0 <= i < found@.len() ==> (#[trigger] nested@[i]) is Some == (found@[i].redirect is Some)
            },
            r matches Some(plan) ==> {
                &&& plan.fields@.len() == found@.len()
                &&& forall|i: int| 0 <= i < found@.len() ==> {
                    &&& (#[trigger] plan.fields@[i]).kind == crate::synth::policy_kind(found@[i]@)
                    &&& plan.fields@[i].nested == nested@[i]
                }
            },
    {
        if nested.len() != found.len() {
            return None;
        }
        let ghost given = nested@;
        let mut rest = nested;
        let mut out: Vec<FieldPlan> = Vec::new();
        let mut i: usize = 0;
        while i < found.len()
            invariant
                i <= found.len(),
                rest.len() == found.len(),
                given.len() == found.len(),
                given == nested@,
                out.len() == i,
                forall|j: int| i <= j < found.len() ==> (#[trigger] rest@[j]) == given[j],
                forall|j: int| 0 <= j < i ==> (#[trigger] given[j]) is Some == (found@[j].redirect is Some),
                forall|j: int| 0 <= j < i ==> {
                    &&& (#[trigger] out@[j]).kind == crate::synth::policy_kind(found@[j]@)
                    &&& out@[j].nested == given[j]
                },
            decreases found.len() - i,
        {
            let mut inner: Option<Plan> = None;
            std::mem::swap(&mut rest[i], &mut inner);
            if inner.is_some() != found[i].redirect.is_some() {
                assert(given[i as int] is Some != (found@[i as int].redirect is Some));
                return None;
            }
            out.push(FieldPlan { kind: found[i].kind(), nested: inner });
            i += 1;
        }
        Some(Plan { fields: out })
    }
}

} // verus!
