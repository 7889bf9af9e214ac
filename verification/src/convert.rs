//! The presence check and the downgrade of a mirror to a record; and the
//! way back, from a record to the mirror that holds all of it.
use crate::plan::{FieldPlan, Plan};
use crate::synth::{downgrade_step, presence_step, DowngradeStep, FieldKind, PresenceStep};
use crate::value::{lemma_record_view, trees, Tree, Value};
use vstd::prelude::*;

verus! {

/// Whether a mirror holds all that its record needs: the mirror is a
/// record of as many fields as the plan, and each field holds what its
/// class asks for.
pub open spec fn present<T>(plan: Plan, v: Tree<T>) -> bool
    decreases plan,
{
    match v {
        Tree::Record(items) => {
            &&& items.len() == plan.fields@.len()
            &&& forall|i: int| 0 <= i < items.len() ==> field_present(plan.fields@[i], #[trigger] items[i])
        },
        _ => false,
    }
}

/// Whether one field of a mirror holds what its class asks for.
pub open spec fn field_present<T>(fp: FieldPlan, v: Tree<T>) -> bool
    decreases fp,
{
    match presence_step(fp.kind) {
        PresenceStep::Always => true,
        PresenceStep::Filled => v is Present,
        PresenceStep::Nested => match fp.nested {
            Some(inner) => present(inner, v),
            None => false,
        },
        PresenceStep::FilledAndNested => match (fp.nested, v) {
            (Some(inner), Tree::Present(x)) => present(inner, *x),
            _ => false,
        },
        PresenceStep::NestedIfSet => match (fp.nested, v) {
            (_, Tree::Absent) => true,
            (Some(inner), Tree::Present(x)) => present(inner, *x),
            _ => false,
        },
    }
}

/// The record that a mirror downgrades to; `None` where a field that the
/// record needs is missing.
pub open spec fn try_downgraded<T>(plan: Plan, v: Tree<T>) -> Option<Tree<T>>
    decreases plan,
{
    match v {
        Tree::Record(items) => if items.len() == plan.fields@.len() && (forall|i: int|
            0 <= i < items.len() ==> field_try_downgraded(plan.fields@[i], #[trigger] items[i]) is Some) {
            Some(
                Tree::Record(
                    Seq::new(
                        items.len(),
                        |i: int|
                            if 0 <= i < plan.fields@.len() {
                                field_try_downgraded(plan.fields@[i], items[i])->Some_0
                            } else {
                                Tree::Absent
                            },
                    ),
                ),
            )
        } else {
            None
        },
        _ => None,
    }
}

/// The field of the record that one field of a mirror downgrades to.
pub open spec fn field_try_downgraded<T>(fp: FieldPlan, v: Tree<T>) -> Option<Tree<T>>
    decreases fp,
{
    match downgrade_step(fp.kind) {
        DowngradeStep::Keep => Some(v),
        DowngradeStep::Unwrap => match v {
            Tree::Present(x) => Some(*x),
            _ => None,
        },
        DowngradeStep::Nested => match fp.nested {
            Some(inner) => try_downgraded(inner, v),
            None => None,
        },
        DowngradeStep::UnwrapNested => match (fp.nested, v) {
            (Some(inner), Tree::Present(x)) => try_downgraded(inner, *x),
            _ => None,
        },
        DowngradeStep::NestedIfSet => match (fp.nested, v) {
            (_, Tree::Absent) => Some(Tree::Absent),
            (Some(inner), Tree::Present(x)) => match try_downgraded(inner, *x) {
                Some(d) => Some(Tree::Present(Box::new(d))),
                None => None,
            },
            _ => None,
        },
    }
}

/// The presence check holds of exactly the mirrors that downgrade.
pub proof fn lemma_present_iff_downgrades<T>(plan: Plan, v: Tree<T>)
    ensures
        present(plan, v) <==> try_downgraded(plan, v) is Some,
    decreases plan,
{
    if let Tree::Record(items) = v {
        if items.len() == plan.fields@.len() {
            assert forall|i: int| 0 <= i < items.len() implies (field_present(
                plan.fields@[i],
                #[trigger] items[i],
            ) <==> field_try_downgraded(plan.fields@[i], items[i]) is Some) by {
                lemma_field_present_iff_downgrades(plan.fields@[i], items[i]);
            }
        }
    }
}

/// One field holds what its class asks for exactly if it downgrades.
pub proof fn lemma_field_present_iff_downgrades<T>(fp: FieldPlan, v: Tree<T>)
    ensures
        field_present(fp, v) <==> field_try_downgraded(fp, v) is Some,
    decreases fp,
{
    if let Some(inner) = fp.nested {
        lemma_present_iff_downgrades(inner, v);
        if let Tree::Present(x) = v {
            lemma_present_iff_downgrades(inner, *x);
        }
    }
}

/// The presence check: whether `v`, a mirror of this plan, can become a
/// record. Fields are tried in declaration order, up to the first that
/// lacks something.
pub fn can_convert<T>(plan: &Plan, v: &Value<T>) -> (ok: bool)
    ensures
        ok == present(*plan, v@),
    decreases *plan,
{
    match v {
        Value::Record(items) => {
            if items.len() != plan.fields.len() {
                return false;
            }
            let ghost ts = trees(items@);
            proof {
                lemma_record_view(*items);
            }
            let mut i: usize = 0;
            while i < items.len()
                invariant
                    i <= items.len(),
                    v@ == Tree::Record(ts),
                    ts == trees(items@),
                    items.len() == plan.fields.len(),
                    forall|j: int| 0 <= j < i ==> field_present(plan.fields@[j], #[trigger] ts[j]),
                decreases items.len() - i,
            {
                if !field_can_convert(&plan.fields[i], &items[i]) {
                    assert(!field_present(plan.fields@[i as int], ts[i as int]));
                    return false;
                }
                i += 1;
            }
            true
        },
        _ => false,
    }
}

/// The presence check at one field.
pub fn field_can_convert<T>(fp: &FieldPlan, v: &Value<T>) -> (ok: bool)
    ensures
        ok == field_present(*fp, v@),
    decreases *fp,
{
    match fp.kind.presence() {
        PresenceStep::Always => true,
        PresenceStep::Filled => v.is_present(),
        PresenceStep::Nested => match &fp.nested {
            Some(inner) => can_convert(inner, v),
            None => false,
        },
        PresenceStep::FilledAndNested => match (&fp.nested, v) {
            (Some(inner), Value::Present(x)) => can_convert(inner, x),
            _ => false,
        },
        PresenceStep::NestedIfSet => match (&fp.nested, v) {
            (_, Value::Absent) => true,
            (Some(inner), Value::Present(x)) => can_convert(inner, x),
            _ => false,
        },
    }
}

/// Makes the record from a mirror that holds all that the record needs.
fn lower<T>(plan: &Plan, v: Value<T>) -> (r: Value<T>)
    requires
        try_downgraded(*plan, v@) is Some,
    ensures
        try_downgraded(*plan, v@) == Some(r@),
    decreases *plan,
{
    let ghost before = v@;
    match v {
        Value::Record(mut items) => {
            let ghost ts = trees(items@);
            proof {
                lemma_record_view(items);
            }
            let mut i: usize = 0;
            while i < items.len()
                invariant
                    i <= items.len(),
                    before == Tree::Record(ts),
                    try_downgraded(*plan, before) is Some,
                    ts.len() == items.len(),
                    items.len() == plan.fields.len(),
                    forall|j: int| i <= j < items.len() ==> (#[trigger] items@[j])@ == ts[j],
                    forall|j: int| 0 <= j < i ==> Some((#[trigger] items@[j])@) == field_try_downgraded(plan.fields@[j], ts[j]),
                decreases items.len() - i,
            {
                assert(field_try_downgraded(plan.fields@[i as int], ts[i as int]) is Some);
                let mut item = Value::Absent;
                std::mem::swap(&mut items[i], &mut item);
                let mut lowered = field_lower(&plan.fields[i], item);
                std::mem::swap(&mut items[i], &mut lowered);
                i += 1;
            }
            proof {
                lemma_record_view(items);
                assert(trees(items@) =~= try_downgraded(*plan, before)->Some_0->Record_0);
            }
            Value::Record(items)
        },
        other => other,
    }
}

/// Makes one field of the record from a field of the mirror that holds
/// what its class asks for.
fn field_lower<T>(fp: &FieldPlan, v: Value<T>) -> (r: Value<T>)
    requires
        field_try_downgraded(*fp, v@) is Some,
    ensures
        field_try_downgraded(*fp, v@) == Some(r@),
    decreases *fp,
{
    match fp.kind.downgrade() {
        DowngradeStep::Keep => v,
        DowngradeStep::Unwrap => match v {
            Value::Present(x) => *x,
            other => other,
        },
        DowngradeStep::Nested => match &fp.nested {
            Some(inner) => lower(inner, v),
            None => v,
        },
        DowngradeStep::UnwrapNested => match (&fp.nested, v) {
            (Some(inner), Value::Present(x)) => lower(inner, *x),
            (_, other) => other,
        },
        DowngradeStep::NestedIfSet => match (&fp.nested, v) {
            (Some(inner), Value::Present(x)) => Value::present(lower(inner, *x)),
            (_, other) => other,
        },
    }
}

/// The downgrade: makes the record from `v`, a mirror of this plan. Where
/// a field that the record needs is missing, the mirror comes back as it
/// was given.
pub fn downgrade<T>(plan: &Plan, v: Value<T>) -> (r: Result<Value<T>, Value<T>>)
    ensures
        match r {
            Ok(record) => try_downgraded(*plan, v@) == Some(record@),
            Err(mirror) => try_downgraded(*plan, v@) is None && mirror == v,
        },
{
    proof {
        lemma_present_iff_downgrades(*plan, v@);
    }
    if can_convert(plan, &v) {
        Ok(lower(plan, v))
    } else {
        Err(v)
    }
}

/// The mirror that holds all of a record: every wrapped field is set, and
/// every redirected field holds the mirror of all of the nested record.
pub open spec fn full_mirror<T>(plan: Plan, r: Tree<T>) -> Tree<T>
    decreases plan,
{
    match r {
        Tree::Record(items) => if items.len() == plan.fields@.len() {
            Tree::Record(
                Seq::new(
                    items.len(),
                    |i: int|
                        if 0 <= i < plan.fields@.len() {
                            field_full_mirror(plan.fields@[i], items[i])
                        } else {
                            Tree::Absent
                        },
                ),
            )
        } else {
            r
        },
        _ => r,
    }
}

/// The field of the mirror that holds all of a field of the record.
pub open spec fn field_full_mirror<T>(fp: FieldPlan, r: Tree<T>) -> Tree<T>
    decreases fp,
{
    match fp.kind {
        FieldKind::Plain | FieldKind::Nullable => r,
        FieldKind::Wrapped => Tree::Present(Box::new(r)),
        FieldKind::Nested => match fp.nested {
            Some(inner) => full_mirror(inner, r),
            None => r,
        },
        FieldKind::WrappedNested => match fp.nested {
            Some(inner) => Tree::Present(Box::new(full_mirror(inner, r))),
            None => Tree::Present(Box::new(r)),
        },
        FieldKind::NullableNested => match (fp.nested, r) {
            (Some(inner), Tree::Present(x)) => Tree::Present(Box::new(full_mirror(inner, *x))),
            _ => r,
        },
    }
}

/// Makes the mirror that holds all of `r`, a record of this plan.
pub fn lift<T>(plan: &Plan, r: Value<T>) -> (m: Value<T>)
    ensures
        m@ == full_mirror(*plan, r@),
    decreases *plan,
{
    let ghost before = r@;
    match r {
        Value::Record(mut items) => {
            proof {
                lemma_record_view(items);
            }
            if items.len() != plan.fields.len() {
                return Value::Record(items);
            }
            let ghost ts = trees(items@);
            let mut i: usize = 0;
            while i < items.len()
                invariant
                    i <= items.len(),
                    before == Tree::Record(ts),
                    ts.len() == items.len(),
                    items.len() == plan.fields.len(),
                    forall|j: int| i <= j < items.len() ==> (#[trigger] items@[j])@ == ts[j],
                    forall|j: int| 0 <= j < i ==> (#[trigger] items@[j])@ == field_full_mirror(plan.fields@[j], ts[j]),
                decreases items.len() - i,
            {
                let mut item = Value::Absent;
                std::mem::swap(&mut items[i], &mut item);
                let mut lifted = field_lift(&plan.fields[i], item);
                std::mem::swap(&mut items[i], &mut lifted);
                i += 1;
            }
            proof {
                lemma_record_view(items);
                assert(trees(items@) =~= full_mirror(*plan, before)->Record_0);
            }
            Value::Record(items)
        },
        other => other,
    }
}

/// Makes the field of the mirror that holds all of one field of a record.
pub fn field_lift<T>(fp: &FieldPlan, r: Value<T>) -> (m: Value<T>)
    ensures
        m@ == field_full_mirror(*fp, r@),
    decreases *fp,
{
    match fp.kind {
        FieldKind::Plain | FieldKind::Nullable => r,
        FieldKind::Wrapped => Value::present(r),
        FieldKind::Nested => match &fp.nested {
            Some(inner) => lift(inner, r),
            None => r,
        },
        FieldKind::WrappedNested => match &fp.nested {
            Some(inner) => Value::present(lift(inner, r)),
            None => Value::present(r),
        },
        FieldKind::NullableNested => match (&fp.nested, r) {
            (Some(inner), Value::Present(x)) => Value::present(lift(inner, *x)),
            (_, other) => other,
        },
    }
}

} // verus!
