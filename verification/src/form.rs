//! The forms of values: which values are records of a plan, and which are
//! mirrors of it.
use crate::plan::{FieldPlan, Plan};
use crate::synth::FieldKind;
use crate::value::{lemma_record_view, trees, Tree, Value};
use vstd::prelude::*;

verus! {

/// Whether `r` is a record of this plan: it has the plan's fields, a
/// nullable field that is not wrapped holds something or nothing, and a
/// redirected field holds a record of the nested plan, within a slot where
/// the field is nullable and not wrapped.
pub open spec fn is_record_of<T>(plan: Plan, r: Tree<T>) -> bool
    decreases plan,
{
    match r {
        Tree::Record(items) => {
            &&& items.len() == plan.fields@.len()
            &&& forall|i: int| 0 <= i < items.len() ==> is_field_of(plan.fields@[i], #[trigger] items[i])
        },
        _ => false,
    }
}

/// Whether `r` is a value of the record's field.
pub open spec fn is_field_of<T>(fp: FieldPlan, r: Tree<T>) -> bool
    decreases fp,
{
    match fp.kind {
        FieldKind::Plain | FieldKind::Wrapped => true,
        FieldKind::Nullable => r is Absent || r is Present,
        FieldKind::Nested | FieldKind::WrappedNested => match fp.nested {
            Some(inner) => is_record_of(inner, r),
            None => false,
        },
        FieldKind::NullableNested => match (fp.nested, r) {
            (Some(_), Tree::Absent) => true,
            (Some(inner), Tree::Present(x)) => is_record_of(inner, *x),
            _ => false,
        },
    }
}

/// Whether `m` is a mirror of this plan: it has the plan's fields, a slot
/// holds something or nothing, and a redirected field holds a mirror of the
/// nested plan, within a slot where the field has one.
pub open spec fn is_mirror_of<T>(plan: Plan, m: Tree<T>) -> bool
    decreases plan,
{
    match m {
        Tree::Record(items) => {
            &&& items.len() == plan.fields@.len()
            &&& forall|i: int| 0 <= i < items.len() ==> is_mirror_field_of(plan.fields@[i], #[trigger] items[i])
        },
        _ => false,
    }
}

/// Whether `m` is a value of the mirror's field.
pub open spec fn is_mirror_field_of<T>(fp: FieldPlan, m: Tree<T>) -> bool
    decreases fp,
{
    match fp.kind {
        FieldKind::Plain => true,
        FieldKind::Wrapped | FieldKind::Nullable => m is Absent || m is Present,
        FieldKind::Nested => match fp.nested {
            Some(inner) => is_mirror_of(inner, m),
            None => false,
        },
        FieldKind::WrappedNested | FieldKind::NullableNested => match (fp.nested, m) {
            (Some(_), Tree::Absent) => true,
            (Some(inner), Tree::Present(x)) => is_mirror_of(inner, *x),
            _ => false,
        },
    }
}

/// Tells whether `r` is a record of this plan.
pub fn admits_record<T>(plan: &Plan, r: &Value<T>) -> (ok: bool)
    ensures
        ok == is_record_of(*plan, r@),
    decreases *plan,
{
    match r {
        Value::Record(items) => {
            if items.len() != plan.fields.len() {
                return false;
            }
            let ghost ts = trees(items@);
            proof {
                lemma_record_view(*items);
            }
            let mut i: usize = 0;
            while i < items.len()
                invariant
                    i <= items.len(),
                    r@ == Tree::Record(ts),
                    ts == trees(items@),
                    items.len() == plan.fields.len(),
                    forall|j: int| 0 <= j < i ==> is_field_of(plan.fields@[j], #[trigger] ts[j]),
                decreases items.len() - i,
            {
                if !admits_field(&plan.fields[i], &items[i]) {
                    assert(!is_field_of(plan.fields@[i as int], ts[i as int]));
                    return false;
                }
                i += 1;
            }
            true
        },
        _ => false,
    }
}

/// Tells whether `r` is a value of the record's field.
pub fn admits_field<T>(fp: &FieldPlan, r: &Value<T>) -> (ok: bool)
    ensures
        ok == is_field_of(*fp, r@),
    decreases *fp,
{
    match fp.kind {
        FieldKind::Plain | FieldKind::Wrapped => true,
        FieldKind::Nullable => match r {
            Value::Absent | Value::Present(_) => true,
            _ => false,
        },
        FieldKind::Nested | FieldKind::WrappedNested => match &fp.nested {
            Some(inner) => admits_record(inner, r),
            None => false,
        },
        FieldKind::NullableNested => match (&fp.nested, r) {
            (Some(_), Value::Absent) => true,
            (Some(inner), Value::Present(x)) => admits_record(inner, x),
            _ => false,
        },
    }
}

/// Tells whether `m` is a mirror of this plan.
pub fn admits_mirror<T>(plan: &Plan, m: &Value<T>) -> (ok: bool)
    ensures
        ok == is_mirror_of(*plan, m@),
    decreases *plan,
{
    match m {
        Value::Record(items) => {
            if items.len() != plan.fields.len() {
                return false;
            }
            let ghost ts = trees(items@);
            proof {
                lemma_record_view(*items);
            }
            let mut i: usize = 0;
            while i < items.len()
                invariant
                    i <= items.len(),
                    m@ == Tree::Record(ts),
                    ts == trees(items@),
                    items.len() == plan.fields.len(),
                    forall|j: int| 0 <= j < i ==> is_mirror_field_of(plan.fields@[j], #[trigger] ts[j]),
                decreases items.len() - i,
            {
                if !admits_mirror_field(&plan.fields[i], &items[i]) {
                    assert(!is_mirror_field_of(plan.fields@[i as int], ts[i as int]));
                    return false;
                }
                i += 1;
            }
            true
        },
        _ => false,
    }
}

/// Tells whether `m` is a value of the mirror's field.
pub fn admits_mirror_field<T>(fp: &FieldPlan, m: &Value<T>) -> (ok: bool)
    ensures
        ok == is_mirror_field_of(*fp, m@),
    decreases *fp,
{
    match fp.kind {
        FieldKind::Plain => true,
        FieldKind::Wrapped | FieldKind::Nullable => match m {
            Value::Absent | Value::Present(_) => true,
            _ => false,
        },
        FieldKind::Nested => match &fp.nested {
            Some(inner) => admits_mirror(inner, m),
            None => false,
        },
        FieldKind::WrappedNested | FieldKind::NullableNested => match (&fp.nested, m) {
            (Some(_), Value::Absent) => true,
            (Some(inner), Value::Present(x)) => admits_mirror(inner, x),
            _ => false,
        },
    }
}

} // verus!
