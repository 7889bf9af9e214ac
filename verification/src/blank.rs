//! The mirror in which nothing is set.
use crate::plan::{FieldPlan, Plan};
use crate::synth::FieldKind;
use crate::value::{lemma_record_view, trees, Tree, Value};
use vstd::prelude::*;

verus! {

/// Whether a mirror of this plan can hold nothing at all: none of its
/// fields holds a plain value, at any depth.
pub open spec fn can_be_unset(plan: Plan) -> bool
    decreases plan,
{
    forall|i: int| 0 <= i < plan.fields@.len() ==> field_can_be_unset(#[trigger] plan.fields@[i])
}

/// Whether one field of a mirror can hold nothing.
pub open spec fn field_can_be_unset(fp: FieldPlan) -> bool
    decreases fp,
{
    match fp.kind {
        FieldKind::Plain => false,
        FieldKind::Nested => match fp.nested {
            Some(inner) => can_be_unset(inner),
            None => false,
        },
        _ => true,
    }
}

/// The mirror of this plan in which nothing is set: every nullable slot
/// holds nothing, and a nested mirror without a slot of its own is unset in
/// turn.
pub open spec fn unset<T>(plan: Plan) -> Tree<T>
    decreases plan,
{
    Tree::Record(
        Seq::new(
            plan.fields@.len(),
            |i: int|
                if 0 <= i < plan.fields@.len() {
                    field_unset(plan.fields@[i])
                } else {
                    Tree::Absent
                },
        ),
    )
}

/// The field of the unset mirror.
pub open spec fn field_unset<T>(fp: FieldPlan) -> Tree<T>
    decreases fp,
{
    match (fp.kind, fp.nested) {
        (FieldKind::Nested, Some(inner)) => unset(inner),
        _ => Tree::Absent,
    }
}

/// Makes the mirror in which nothing is set; `None` where some field of
/// the mirror holds a plain value, which cannot be left out.
pub fn blank<T>(plan: &Plan) -> (r: Option<Value<T>>)
    ensures
        r is Some <==> can_be_unset(*plan),
        r matches Some(m) ==> m@ == unset::<T>(*plan),
    decreases *plan,
{
    let mut items: Vec<Value<T>> = Vec::new();
    let mut i: usize = 0;
    while i < plan.fields.len()
        invariant
            i <= plan.fields.len(),
            items.len() == i,
            forall|j: int| 0 <= j < i ==> field_can_be_unset(#[trigger] plan.fields@[j]),
            forall|j: int| 0 <= j < i ==> (#[trigger] items@[j])@ == field_unset::<T>(plan.fields@[j]),
        decreases plan.fields.len() - i,
    {
        match field_blank(&plan.fields[i]) {
            Some(item) => {
                items.push(item);
            },
            None => {
                assert(!field_can_be_unset(plan.fields@[i as int]));
                return None;
            },
        }
        i += 1;
    }
    proof {
        lemma_record_view(items);
        assert(trees(items@) =~= unset::<T>(*plan)->Record_0);
    }
    Some(Value::Record(items))
}

/// Makes the field of the unset mirror.
pub fn field_blank<T>(fp: &FieldPlan) -> (r: Option<Value<T>>)
    ensures
        r is Some <==> field_can_be_unset(*fp),
        r matches Some(m) ==> m@ == field_unset::<T>(*fp),
    decreases *fp,
{
    match fp.kind {
        FieldKind::Plain => None,
        FieldKind::Nested => match &fp.nested {
            Some(inner) => blank(inner),
            None => None,
        },
        _ => Some(Value::Absent),
    }
}

} // verus!
