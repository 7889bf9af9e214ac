//! The two merges: of a mirror into a record, and of a mirror into another
//! mirror of the same plan.
use crate::convert::{downgrade, try_downgraded};
use crate::plan::{FieldPlan, Plan};
use crate::synth::{merge_base_step, merge_partial_step, MergeBaseStep, MergePartialStep};
use crate::value::{lemma_record_view, trees, Tree, Value};
use vstd::prelude::*;

verus! {

/// The record that is left when the mirror `m` is merged into the record
/// `b`. Each field is merged as its class says. A mirror or a record that
/// does not have the plan's fields changes nothing.
pub open spec fn merged_base<T>(plan: Plan, m: Tree<T>, b: Tree<T>) -> Tree<T>
    decreases plan,
{
    match (m, b) {
        (Tree::Record(incoming), Tree::Record(items)) => if incoming.len() == plan.fields@.len()
            && items.len() == plan.fields@.len() {
            Tree::Record(
                Seq::new(
                    items.len(),
                    |i: int|
                        if 0 <= i < plan.fields@.len() {
                            field_merged_base(plan.fields@[i], incoming[i], items[i])
                        } else {
                            Tree::Absent
                        },
                ),
            )
        } else {
            b
        },
        _ => b,
    }
}

/// What is left in one field of a record when the mirror's field `m` is
/// merged into it.
pub open spec fn field_merged_base<T>(fp: FieldPlan, m: Tree<T>, b: Tree<T>) -> Tree<T>
    decreases fp,
{
    match merge_base_step(fp.kind) {
        MergeBaseStep::Overwrite => m,
        MergeBaseStep::OverwriteIfSet => match m {
            Tree::Present(x) => *x,
            _ => b,
        },
        MergeBaseStep::ReplaceIfSet => if m is Present {
            m
        } else {
            b
        },
        MergeBaseStep::Merge => match fp.nested {
            Some(inner) => merged_base(inner, m, b),
            None => b,
        },
        MergeBaseStep::MergeIfSet => match (fp.nested, m) {
            (Some(inner), Tree::Present(x)) => merged_base(inner, *x, b),
            _ => b,
        },
        MergeBaseStep::AdoptOrMerge => match (fp.nested, m) {
            (Some(inner), Tree::Present(x)) => match b {
                Tree::Present(existing) => Tree::Present(
                    Box::new(merged_base(inner, *x, *existing)),
                ),
                Tree::Absent => match try_downgraded(inner, *x) {
                    Some(d) => Tree::Present(Box::new(d)),
                    None => b,
                },
                _ => b,
            },
            _ => b,
        },
    }
}

/// The mirror that is left when the mirror `m` is merged into the mirror
/// `other`: what `m` holds wins, and what only `other` holds stays. A
/// mirror that does not have the plan's fields changes nothing.
pub open spec fn merged_partial<T>(plan: Plan, m: Tree<T>, other: Tree<T>) -> Tree<T>
    decreases plan,
{
    match (m, other) {
        (Tree::Record(incoming), Tree::Record(items)) => if incoming.len() == plan.fields@.len()
            && items.len() == plan.fields@.len() {
            Tree::Record(
                Seq::new(
                    items.len(),
                    |i: int|
                        if 0 <= i < plan.fields@.len() {
                            field_merged_partial(plan.fields@[i], incoming[i], items[i])
                        } else {
                            Tree::Absent
                        },
                ),
            )
        } else {
            other
        },
        _ => other,
    }
}

/// What is left in one field of a mirror when the field `m` of another
/// mirror is merged into it.
pub open spec fn field_merged_partial<T>(fp: FieldPlan, m: Tree<T>, other: Tree<T>) -> Tree<T>
    decreases fp,
{
    match merge_partial_step(fp.kind) {
        MergePartialStep::Overwrite => m,
        MergePartialStep::ReplaceIfSet => if m is Present {
            m
        } else {
            other
        },
        MergePartialStep::Merge => match fp.nested {
            Some(inner) => merged_partial(inner, m, other),
            None => other,
        },
        MergePartialStep::AdoptOrMerge => match (fp.nested, m) {
            (Some(inner), Tree::Present(x)) => match other {
                Tree::Present(existing) => Tree::Present(
                    Box::new(merged_partial(inner, *x, *existing)),
                ),
                Tree::Absent => m,
                _ => other,
            },
            _ => other,
        },
    }
}

/// Merges the mirror `m` into the record `b`.
pub fn merge_into_base<T>(plan: &Plan, m: Value<T>, b: &mut Value<T>)
    ensures
        final(b)@ == merged_base(*plan, m@, old(b)@),
    decreases *plan,
{
    let ghost mt = m@;
    let ghost bt = b@;
    let mut target = Value::Absent;
    std::mem::swap(b, &mut target);
    match (m, target) {
        (Value::Record(mut incoming), Value::Record(mut items)) => {
            proof {
                lemma_record_view(incoming);
                lemma_record_view(items);
            }
            if incoming.len() == plan.fields.len() && items.len() == plan.fields.len() {
                let ghost ms = trees(incoming@);
                let ghost bs = trees(items@);
                let mut i: usize = 0;
                while i < items.len()
                    invariant
                        i <= items.len(),
                        mt == Tree::Record(ms),
                        bt == Tree::Record(bs),
                        ms.len() == incoming.len(),
                        bs.len() == items.len(),
                        incoming.len() == plan.fields.len(),
                        items.len() == plan.fields.len(),
                        forall|j: int| i <= j < items.len() ==> (#[trigger] incoming@[j])@ == ms[j],
                        forall|j: int| i <= j < items.len() ==> (#[trigger] items@[j])@ == bs[j],
                        forall|j: int| 0 <= j < i ==> (#[trigger] items@[j])@ == field_merged_base(plan.fields@[j], ms[j], bs[j]),
                    decreases items.len() - i,
                {
                    let mut item = Value::Absent;
                    std::mem::swap(&mut incoming[i], &mut item);
                    field_merge_into_base(&plan.fields[i], item, &mut items[i]);
                    i += 1;
                }
                proof {
                    lemma_record_view(items);
                    assert(trees(items@) =~= merged_base(*plan, mt, bt)->Record_0);
                }
            }
            *b = Value::Record(items);
        },
        (_, target) => {
            *b = target;
        },
    }
}

/// Merges one field of a mirror into the field of the record.
pub fn field_merge_into_base<T>(fp: &FieldPlan, m: Value<T>, b: &mut Value<T>)
    ensures
        final(b)@ == field_merged_base(*fp, m@, old(b)@),
    decreases *fp,
{
    match fp.kind.get_incremental_setter_concrete() {
        MergeBaseStep::Overwrite => {
            *b = m;
        },
        MergeBaseStep::OverwriteIfSet => {
            if let Value::Present(x) = m {
                *b = *x;
            }
        },
        MergeBaseStep::ReplaceIfSet => {
            if m.is_present() {
                *b = m;
            }
        },
        MergeBaseStep::Merge => {
            if let Some(inner) = &fp.nested {
                merge_into_base(inner, m, b);
            }
        },
        MergeBaseStep::MergeIfSet => {
            if let (Some(inner), Value::Present(x)) = (&fp.nested, m) {
                merge_into_base(inner, *x, b);
            }
        },
        MergeBaseStep::AdoptOrMerge => {
            if let (Some(inner), Value::Present(x)) = (&fp.nested, m) {
                let mut target = Value::Absent;
                std::mem::swap(b, &mut target);
                match target {
                    Value::Present(existing) => {
                        let mut record = *existing;
                        merge_into_base(inner, *x, &mut record);
                        *b = Value::present(record);
                    },
                    Value::Absent => {
                        if let Ok(record) = downgrade(inner, *x) {
                            *b = Value::present(record);
                        }
                    },
                    other => {
                        *b = other;
                    },
                }
            }
        },
    }
}

/// Merges the mirror `m` into the mirror `other`.
pub fn merge_into_partial<T>(plan: &Plan, m: Value<T>, other: &mut Value<T>)
    ensures
        final(other)@ == merged_partial(*plan, m@, old(other)@),
    decreases *plan,
{
    let ghost mt = m@;
    let ghost bt = other@;
    let mut target = Value::Absent;
    std::mem::swap(other, &mut target);
    match (m, target) {
        (Value::Record(mut incoming), Value::Record(mut items)) => {
            proof {
                lemma_record_view(incoming);
                lemma_record_view(items);
            }
            if incoming.len() == plan.fields.len() && items.len() == plan.fields.len() {
                let ghost ms = trees(incoming@);
                let ghost bs = trees(items@);
                let mut i: usize = 0;
                while i < items.len()
                    invariant
                        i <= items.len(),
                        mt == Tree::Record(ms),
                        bt == Tree::Record(bs),
                        ms.len() == incoming.len(),
                        bs.len() == items.len(),
                        incoming.len() == plan.fields.len(),
                        items.len() == plan.fields.len(),
                        forall|j: int| i <= j < items.len() ==> (#[trigger] incoming@[j])@ == ms[j],
                        forall|j: int| i <= j < items.len() ==> (#[trigger] items@[j])@ == bs[j],
                        forall|j: int| 0 <= j < i ==> (#[trigger] items@[j])@ == field_merged_partial(plan.fields@[j], ms[j], bs[j]),
                    decreases items.len() - i,
                {
                    let mut item = Value::Absent;
                    std::mem::swap(&mut incoming[i], &mut item);
                    field_merge_into_partial(&plan.fields[i], item, &mut items[i]);
                    i += 1;
                }
                proof {
                    lemma_record_view(items);
                    assert(trees(items@) =~= merged_partial(*plan, mt, bt)->Record_0);
                }
            }
            *other = Value::Record(items);
        },
        (_, target) => {
            *other = target;
        },
    }
}

/// Merges one field of a mirror into the same field of another mirror.
pub fn field_merge_into_partial<T>(fp: &FieldPlan, m: Value<T>, other: &mut Value<T>)
    ensures
        final(other)@ == field_merged_partial(*fp, m@, old(other)@),
    decreases *fp,
{
    match fp.kind.get_incremental_setter_opt() {
        MergePartialStep::Overwrite => {
            *other = m;
        },
        MergePartialStep::ReplaceIfSet => {
            if m.is_present() {
                *other = m;
            }
        },
        MergePartialStep::Merge => {
            if let Some(inner) = &fp.nested {
                merge_into_partial(inner, m, other);
            }
        },
        MergePartialStep::AdoptOrMerge => {
            if let (Some(inner), Value::Present(x)) = (&fp.nested, m) {
                let mut target = Value::Absent;
                std::mem::swap(other, &mut target);
                match target {
                    Value::Present(existing) => {
                        let mut nested = *existing;
                        merge_into_partial(inner, *x, &mut nested);
                        *other = Value::present(nested);
                    },
                    Value::Absent => {
                        *other = Value::Present(x);
                    },
                    kept => {
                        *other = kept;
                    },
                }
            }
        },
    }
}

} // verus!
