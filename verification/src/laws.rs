//! What holds of the generated operations, for every plan and every value.
use crate::blank::{can_be_unset, field_can_be_unset, field_unset, unset};
use crate::classify::{
    classification, classifications, field_ident_of, guard_of, is_helper, stripped, PolicyView,
};
use crate::convert::{
    field_full_mirror, field_present, field_try_downgraded, full_mirror,
    lemma_present_iff_downgrades, present, try_downgraded,
};
use crate::engine::{transformation, OutputView};
use crate::form::{is_field_of, is_mirror_field_of, is_mirror_of, is_record_of};
use crate::merge::{field_merged_base, field_merged_partial, merged_base, merged_partial};
use crate::plan::{FieldPlan, Plan};
use crate::schema::{
    DirectiveView, FieldDescriptor, FieldView, ParametersView, SchemaError, SchemaView,
};
use crate::synth::{
    downgrade_step, kind_of, merge_base_step, merge_partial_step, presence_step, FieldKind,
};
use crate::value::Tree;
use vstd::prelude::*;

verus! {

/// Classification is repeatable: it depends on nothing but what the field
/// holds, its position and the default. Two descriptors that hold the same,
/// classified at the same position, have the same policy or the same error.
pub proof fn lemma_classification_is_repeatable(
    first: FieldDescriptor,
    second: FieldDescriptor,
    index: nat,
    default_wrap: bool,
)
    requires
        first@ == second@,
    ensures
        classification(first@, index, default_wrap) == classification(
            second@,
            index,
            default_wrap,
        ),
{
}

/// Where every field of a record has a policy, the policies are those of
/// the fields, each at its position.
pub proof fn lemma_classifications_are_pointwise(fields: Seq<FieldView>, default_wrap: bool)
    requires
        classifications(fields, default_wrap) is Ok,
    ensures
        classifications(fields, default_wrap)->Ok_0.len() == fields.len(),
        forall|i: int|
            0 <= i < fields.len() ==> classification(#[trigger] fields[i], i as nat, default_wrap)
                == Ok::<PolicyView, SchemaError>(classifications(fields, default_wrap)->Ok_0[i]),
    decreases fields.len(),
{
    if fields.len() > 0 {
        let front = fields.drop_last();
        lemma_classifications_are_pointwise(front, default_wrap);
        assert forall|i: int| 0 <= i < fields.len() implies classification(
            #[trigger] fields[i],
            i as nat,
            default_wrap,
        ) == Ok::<PolicyView, SchemaError>(classifications(fields, default_wrap)->Ok_0[i]) by {
            if i < fields.len() - 1 {
                assert(front[i] == fields[i]);
            }
        }
    }
}

/// No consumed directive stays on a field, and the compilation guard does.
pub proof fn lemma_stripped_keeps_the_guard(dirs: Seq<DirectiveView>)
    ensures
        forall|i: int| 0 <= i < stripped(dirs).len() ==> !is_helper(#[trigger] stripped(dirs)[i]),
        guard_of(stripped(dirs)) == guard_of(dirs),
        stripped(stripped(dirs)) == stripped(dirs),
    decreases dirs.len(),
{
    if dirs.len() > 0 {
        lemma_stripped_keeps_the_guard(dirs.drop_last());
        if !is_helper(dirs.last()) {
            let kept = stripped(dirs.drop_last()).push(dirs.last());
            assert(kept.drop_last() =~= stripped(dirs.drop_last()));
            assert(kept.last() == dirs.last());
        }
    }
}

/// Mirror and operations agree, field by field: the mirror has the fields
/// of the record, in their order, and each of the four operations has, at
/// each position, one fragment that names that field, stands under its
/// guard, and does what belongs to the class that the mirror field's type
/// shows: wrapped or not, redirected or not, of a nullable field or not.
pub proof fn lemma_operations_agree_with_mirror(attr: ParametersView, input: SchemaView, i: int)
    requires
        transformation(attr, input) is Ok,
        0 <= i < input.fields.len(),
    ensures
        ({
            let out: OutputView = transformation(attr, input)->Ok_0;
            let made = out.generated;
            let field = made.mirror.fields[i];
            let policy = classification(input.fields[i], i as nat, attr.default_wrapping)->Ok_0;
            let kind = kind_of(
                policy.already_nullable,
                field.ty.wrapped,
                field.ty.base is Redirect,
            );
            &&& out.original.fields.len() == input.fields.len()
            &&& made.mirror.fields.len() == input.fields.len()
            &&& made.apply_to.len() == input.fields.len()
            &&& made.apply_to_opt.len() == input.fields.len()
            &&& made.can_convert.len() == input.fields.len()
            &&& made.try_from.len() == input.fields.len()
            &&& field.ident == input.fields[i].ident
            &&& field.attrs == stripped(input.fields[i].attrs)
            &&& out.original.fields[i].attrs == stripped(input.fields[i].attrs)
            &&& made.apply_to[i].step == merge_base_step(kind)
            &&& made.apply_to_opt[i].step == merge_partial_step(kind)
            &&& made.can_convert[i].step == presence_step(kind)
            &&& made.try_from[i].step == downgrade_step(kind)
            &&& made.apply_to[i].ident == field_ident_of(input.fields[i], i as nat)
            &&& made.apply_to_opt[i].ident == made.apply_to[i].ident
            &&& made.can_convert[i].ident == made.apply_to[i].ident
            &&& made.try_from[i].ident == made.apply_to[i].ident
            &&& made.apply_to[i].guard == guard_of(input.fields[i].attrs)
            &&& made.apply_to_opt[i].guard == made.apply_to[i].guard
            &&& made.can_convert[i].guard == made.apply_to[i].guard
            &&& made.try_from[i].guard == made.apply_to[i].guard
        }),
{
    lemma_classifications_are_pointwise(input.fields, attr.default_wrapping);
    lemma_stripped_keeps_the_guard(input.fields[i].attrs);
}

/// Round trip: the mirror that holds all of a record downgrades to that
/// record.
pub proof fn lemma_round_trip<T>(plan: Plan, r: Tree<T>)
    requires
        is_record_of(plan, r),
    ensures
        try_downgraded(plan, full_mirror(plan, r)) == Some(r),
        present(plan, full_mirror(plan, r)),
    decreases plan,
{
    let items = r->Record_0;
    let lifted = full_mirror(plan, r)->Record_0;
    assert forall|i: int| 0 <= i < items.len() implies field_try_downgraded(
        plan.fields@[i],
        #[trigger] lifted[i],
    ) == Some(items[i]) by {
        lemma_field_round_trip(plan.fields@[i], items[i]);
    }
    assert(try_downgraded(plan, full_mirror(plan, r))->Some_0->Record_0 =~= items);
    lemma_present_iff_downgrades(plan, full_mirror(plan, r));
}

/// Round trip, at one field.
pub proof fn lemma_field_round_trip<T>(fp: FieldPlan, r: Tree<T>)
    requires
        is_field_of(fp, r),
    ensures
        field_try_downgraded(fp, field_full_mirror(fp, r)) == Some(r),
    decreases fp,
{
    if let Some(inner) = fp.nested {
        match fp.kind {
            FieldKind::Nested | FieldKind::WrappedNested => {
                lemma_round_trip(inner, r);
            },
            FieldKind::NullableNested => {
                if let Tree::Present(x) = r {
                    lemma_round_trip(inner, *x);
                }
            },
            _ => {},
        }
    }
}

/// Whether a field of a mirror is one that holds something or nothing,
/// and nothing nested.
pub open spec fn is_slot(kind: FieldKind) -> bool {
    kind == FieldKind::Wrapped || kind == FieldKind::Nullable
}

/// Whether a field of a mirror is one that holds a nested mirror or
/// nothing.
pub open spec fn is_nested_slot(kind: FieldKind) -> bool {
    kind == FieldKind::WrappedNested || kind == FieldKind::NullableNested
}

/// Precedence between two mirrors: when `a` is merged into `b`, a field
/// that is set in `a` holds in the result what it holds in `a`, and a field
/// that is unset in `a` holds what it holds in `b`. A field without a slot
/// is always set.
pub proof fn lemma_merge_partial_precedence<T>(plan: Plan, a: Seq<Tree<T>>, b: Seq<Tree<T>>, i: int)
    requires
        a.len() == plan.fields@.len(),
        b.len() == plan.fields@.len(),
        0 <= i < plan.fields@.len(),
    ensures
        merged_partial(plan, Tree::Record(a), Tree::Record(b)) is Record,
        merged_partial(plan, Tree::Record(a), Tree::Record(b))->Record_0.len() == a.len(),
        plan.fields@[i].kind == FieldKind::Plain ==> merged_partial(
            plan,
            Tree::Record(a),
            Tree::Record(b),
        )->Record_0[i] == a[i],
        is_slot(plan.fields@[i].kind) && a[i] is Present ==> merged_partial(
            plan,
            Tree::Record(a),
            Tree::Record(b),
        )->Record_0[i] == a[i],
        is_slot(plan.fields@[i].kind) && !(a[i] is Present) ==> merged_partial(
            plan,
            Tree::Record(a),
            Tree::Record(b),
        )->Record_0[i] == b[i],
{
}

/// Composition between two mirrors: when `a` is merged into `b`, a
/// redirected field of the result holds the merge of what it holds in `a`
/// into what it holds in `b`, and neither of the two as a whole. Where only
/// one of the two holds a nested mirror, the result holds that one.
pub proof fn lemma_merge_partial_composes<T>(plan: Plan, a: Seq<Tree<T>>, b: Seq<Tree<T>>, i: int)
    requires
        a.len() == plan.fields@.len(),
        b.len() == plan.fields@.len(),
        0 <= i < plan.fields@.len(),
        plan.fields@[i].nested is Some,
    ensures
        plan.fields@[i].kind == FieldKind::Nested ==> merged_partial(
            plan,
            Tree::Record(a),
            Tree::Record(b),
        )->Record_0[i] == merged_partial(plan.fields@[i].nested->Some_0, a[i], b[i]),
        is_nested_slot(plan.fields@[i].kind) && a[i] is Present && b[i] is Present
            ==> merged_partial(plan, Tree::Record(a), Tree::Record(b))->Record_0[i]
            == Tree::Present(
            Box::new(
                merged_partial(
                    plan.fields@[i].nested->Some_0,
                    *a[i]->Present_0,
                    *b[i]->Present_0,
                ),
            ),
        ),
        is_nested_slot(plan.fields@[i].kind) && a[i] is Present && b[i] is Absent
            ==> merged_partial(plan, Tree::Record(a), Tree::Record(b))->Record_0[i] == a[i],
        is_nested_slot(plan.fields@[i].kind) && !(a[i] is Present) ==> merged_partial(
            plan,
            Tree::Record(a),
            Tree::Record(b),
        )->Record_0[i] == b[i],
{
}

/// A merge into a record touches only what is set: a slot of the mirror
/// that holds nothing leaves the field of the record as it was.
pub proof fn lemma_merge_base_touches_only_what_is_set<T>(
    plan: Plan,
    m: Seq<Tree<T>>,
    b: Seq<Tree<T>>,
    i: int,
)
    requires
        m.len() == plan.fields@.len(),
        b.len() == plan.fields@.len(),
        0 <= i < plan.fields@.len(),
        is_slot(plan.fields@[i].kind) || is_nested_slot(plan.fields@[i].kind),
        !(m[i] is Present),
    ensures
        merged_base(plan, Tree::Record(m), Tree::Record(b)) is Record,
        merged_base(plan, Tree::Record(m), Tree::Record(b))->Record_0.len() == b.len(),
        merged_base(plan, Tree::Record(m), Tree::Record(b))->Record_0[i] == b[i],
{
}

/// A field whose own type is nullable, and which is not wrapped once more,
/// never blocks a downgrade: a mirror in which every other field holds what
/// it must, and each such field holds that or nothing, downgrades.
pub proof fn lemma_nullable_never_blocks<T>(plan: Plan, items: Seq<Tree<T>>)
    requires
        items.len() == plan.fields@.len(),
        forall|i: int|
            0 <= i < items.len() ==> field_present(plan.fields@[i], #[trigger] items[i]) || (
            plan.fields@[i].kind == kind_of(true, false, plan.fields@[i].nested is Some)
                && items[i] is Absent),
    ensures
        present(plan, Tree::Record(items)),
        try_downgraded(plan, Tree::Record(items)) is Some,
{
    assert forall|i: int| 0 <= i < items.len() implies field_present(
        plan.fields@[i],
        #[trigger] items[i],
    ) by {
        if !field_present(plan.fields@[i], items[i]) {
            assert(plan.fields@[i].kind == kind_of(true, false, plan.fields@[i].nested is Some));
        }
    }
    lemma_present_iff_downgrades(plan, Tree::Record(items));
}

/// Merging the unset mirror changes nothing, in a record and in a mirror.
pub proof fn lemma_unset_changes_nothing<T>(plan: Plan, b: Tree<T>)
    requires
        can_be_unset(plan),
    ensures
        merged_base(plan, unset(plan), b) == b,
        merged_partial(plan, unset(plan), b) == b,
    decreases plan,
{
    if let Tree::Record(items) = b {
        if items.len() == plan.fields@.len() {
            let incoming = unset::<T>(plan)->Record_0;
            assert forall|i: int| 0 <= i < items.len() implies field_merged_base(
                plan.fields@[i],
                incoming[i],
                #[trigger] items[i],
            ) == items[i] && field_merged_partial(plan.fields@[i], incoming[i], items[i])
                == items[i] by {
                lemma_field_unset_changes_nothing(plan.fields@[i], items[i]);
            }
            assert(merged_base(plan, unset(plan), b)->Record_0 =~= items);
            assert(merged_partial(plan, unset(plan), b)->Record_0 =~= items);
        }
    }
}

/// Merging the unset mirror changes nothing, at one field.
pub proof fn lemma_field_unset_changes_nothing<T>(fp: FieldPlan, b: Tree<T>)
    requires
        field_can_be_unset(fp),
    ensures
        field_merged_base(fp, field_unset(fp), b) == b,
        field_merged_partial(fp, field_unset(fp), b) == b,
    decreases fp,
{
    if fp.kind == FieldKind::Nested {
        lemma_unset_changes_nothing(fp.nested->Some_0, b);
    }
}

/// Whether no field of the plan, at any depth, is nullable, redirected and
/// not wrapped: no merge into a record adopts what a nested mirror
/// downgrades to.
pub open spec fn never_adopts(plan: Plan) -> bool
    decreases plan,
{
    forall|i: int| 0 <= i < plan.fields@.len() ==> field_never_adopts(#[trigger] plan.fields@[i])
}

/// Whether a field is not one that adopts, and holds none.
pub open spec fn field_never_adopts(fp: FieldPlan) -> bool
    decreases fp,
{
    &&& fp.kind != FieldKind::NullableNested
    &&& match fp.nested {
        Some(inner) => never_adopts(inner),
        None => true,
    }
}

/// The merge of two mirrors is a mirror.
pub proof fn lemma_merge_partial_keeps_form<T>(plan: Plan, a: Tree<T>, b: Tree<T>)
    requires
        is_mirror_of(plan, a),
        is_mirror_of(plan, b),
    ensures
        is_mirror_of(plan, merged_partial(plan, a, b)),
    decreases plan,
{
    let xs = a->Record_0;
    let ys = b->Record_0;
    let zs = merged_partial(plan, a, b)->Record_0;
    assert forall|i: int| 0 <= i < zs.len() implies is_mirror_field_of(
        plan.fields@[i],
        #[trigger] zs[i],
    ) by {
        assert(is_mirror_field_of(plan.fields@[i], xs[i]));
        assert(is_mirror_field_of(plan.fields@[i], ys[i]));
        lemma_field_merge_partial_keeps_form(plan.fields@[i], xs[i], ys[i]);
    }
}

/// The merge of two fields of mirrors is a field of a mirror.
pub proof fn lemma_field_merge_partial_keeps_form<T>(fp: FieldPlan, a: Tree<T>, b: Tree<T>)
    requires
        is_mirror_field_of(fp, a),
        is_mirror_field_of(fp, b),
    ensures
        is_mirror_field_of(fp, field_merged_partial(fp, a, b)),
    decreases fp,
{
    if let Some(inner) = fp.nested {
        match fp.kind {
            FieldKind::Nested => {
                lemma_merge_partial_keeps_form(inner, a, b);
            },
            FieldKind::WrappedNested | FieldKind::NullableNested => {
                if let (Tree::Present(x), Tree::Present(y)) = (a, b) {
                    lemma_merge_partial_keeps_form(inner, *x, *y);
                }
            },
            _ => {},
        }
    }
}

/// Merging composes: to merge the mirror `a` into the mirror `b`, and the
/// result into a record, is to merge `b` into the record and then `a`. This
/// holds of plans in which no field adopts.
pub proof fn lemma_merges_compose<T>(plan: Plan, a: Tree<T>, b: Tree<T>, base: Tree<T>)
    requires
        is_mirror_of(plan, a),
        is_mirror_of(plan, b),
        never_adopts(plan),
    ensures
        merged_base(plan, merged_partial(plan, a, b), base) == merged_base(
            plan,
            a,
            merged_base(plan, b, base),
        ),
    decreases plan,
{
    if let Tree::Record(items) = base {
        if items.len() == plan.fields@.len() {
            let xs = a->Record_0;
            let ys = b->Record_0;
            let zs = merged_partial(plan, a, b)->Record_0;
            let mids = merged_base(plan, b, base)->Record_0;
            let left = merged_base(plan, merged_partial(plan, a, b), base)->Record_0;
            let right = merged_base(plan, a, merged_base(plan, b, base))->Record_0;
            assert forall|i: int| 0 <= i < items.len() implies left[i] == right[i] by {
                assert(is_mirror_field_of(plan.fields@[i], xs[i]));
                assert(is_mirror_field_of(plan.fields@[i], ys[i]));
                assert(field_never_adopts(plan.fields@[i]));
                lemma_field_merges_compose(plan.fields@[i], xs[i], ys[i], items[i]);
                assert(zs[i] == field_merged_partial(plan.fields@[i], xs[i], ys[i]));
                assert(mids[i] == field_merged_base(plan.fields@[i], ys[i], items[i]));
            }
            assert(left =~= right);
        }
    }
}

/// Merging composes, at one field.
pub proof fn lemma_field_merges_compose<T>(fp: FieldPlan, a: Tree<T>, b: Tree<T>, base: Tree<T>)
    requires
        is_mirror_field_of(fp, a),
        is_mirror_field_of(fp, b),
        field_never_adopts(fp),
    ensures
        field_merged_base(fp, field_merged_partial(fp, a, b), base) == field_merged_base(
            fp,
            a,
            field_merged_base(fp, b, base),
        ),
    decreases fp,
{
    if let Some(inner) = fp.nested {
        match fp.kind {
            FieldKind::Nested => {
                lemma_merges_compose(inner, a, b, base);
            },
            FieldKind::WrappedNested => {
                if let (Tree::Present(x), Tree::Present(y)) = (a, b) {
                    lemma_merges_compose(inner, *x, *y, base);
                }
            },
            _ => {},
        }
    }
}

/// The mirror that holds all of a record is a mirror.
pub proof fn lemma_full_mirror_is_mirror<T>(plan: Plan, r: Tree<T>)
    requires
        is_record_of(plan, r),
    ensures
        is_mirror_of(plan, full_mirror(plan, r)),
    decreases plan,
{
    let items = r->Record_0;
    let lifted = full_mirror(plan, r)->Record_0;
    assert forall|i: int| 0 <= i < lifted.len() implies is_mirror_field_of(
        plan.fields@[i],
        #[trigger] lifted[i],
    ) by {
        assert(is_field_of(plan.fields@[i], items[i]));
        lemma_field_full_mirror_is_mirror(plan.fields@[i], items[i]);
    }
}

/// The field that holds all of a record's field is a field of a mirror.
pub proof fn lemma_field_full_mirror_is_mirror<T>(fp: FieldPlan, r: Tree<T>)
    requires
        is_field_of(fp, r),
    ensures
        is_mirror_field_of(fp, field_full_mirror(fp, r)),
    decreases fp,
{
    if let Some(inner) = fp.nested {
        match fp.kind {
            FieldKind::Nested | FieldKind::WrappedNested => {
                lemma_full_mirror_is_mirror(inner, r);
            },
            FieldKind::NullableNested => {
                if let Tree::Present(x) = r {
                    lemma_full_mirror_is_mirror(inner, *x);
                }
            },
            _ => {},
        }
    }
}

/// What a mirror downgrades to is a record.
pub proof fn lemma_downgraded_is_record<T>(plan: Plan, m: Tree<T>)
    requires
        is_mirror_of(plan, m),
        try_downgraded(plan, m) is Some,
    ensures
        is_record_of(plan, try_downgraded(plan, m)->Some_0),
    decreases plan,
{
    let items = m->Record_0;
    let lowered = try_downgraded(plan, m)->Some_0->Record_0;
    assert forall|i: int| 0 <= i < lowered.len() implies is_field_of(
        plan.fields@[i],
        #[trigger] lowered[i],
    ) by {
        assert(is_mirror_field_of(plan.fields@[i], items[i]));
        lemma_field_downgraded_is_record(plan.fields@[i], items[i]);
    }
}

/// What a field of a mirror downgrades to is a field of a record.
pub proof fn lemma_field_downgraded_is_record<T>(fp: FieldPlan, m: Tree<T>)
    requires
        is_mirror_field_of(fp, m),
        field_try_downgraded(fp, m) is Some,
    ensures
        is_field_of(fp, field_try_downgraded(fp, m)->Some_0),
    decreases fp,
{
    if let Some(inner) = fp.nested {
        match fp.kind {
            FieldKind::Nested => {
                lemma_downgraded_is_record(inner, m);
            },
            FieldKind::WrappedNested | FieldKind::NullableNested => {
                if let Tree::Present(x) = m {
                    lemma_downgraded_is_record(inner, *x);
                }
            },
            _ => {},
        }
    }
}

/// The merge of a mirror into a record is a record.
pub proof fn lemma_merge_base_keeps_form<T>(plan: Plan, m: Tree<T>, b: Tree<T>)
    requires
        is_mirror_of(plan, m),
        is_record_of(plan, b),
    ensures
        is_record_of(plan, merged_base(plan, m, b)),
    decreases plan,
{
    let xs = m->Record_0;
    let ys = b->Record_0;
    let zs = merged_base(plan, m, b)->Record_0;
    assert forall|i: int| 0 <= i < zs.len() implies is_field_of(plan.fields@[i], #[trigger] zs[i]) by {
        assert(is_mirror_field_of(plan.fields@[i], xs[i]));
        assert(is_field_of(plan.fields@[i], ys[i]));
        lemma_field_merge_base_keeps_form(plan.fields@[i], xs[i], ys[i]);
    }
}

/// The merge of a field of a mirror into a field of a record is a field of
/// a record.
pub proof fn lemma_field_merge_base_keeps_form<T>(fp: FieldPlan, m: Tree<T>, b: Tree<T>)
    requires
        is_mirror_field_of(fp, m),
        is_field_of(fp, b),
    ensures
        is_field_of(fp, field_merged_base(fp, m, b)),
    decreases fp,
{
    if let Some(inner) = fp.nested {
        match fp.kind {
            FieldKind::Nested => {
                lemma_merge_base_keeps_form(inner, m, b);
            },
            FieldKind::WrappedNested => {
                if let Tree::Present(x) = m {
                    lemma_merge_base_keeps_form(inner, *x, b);
                }
            },
            FieldKind::NullableNested => {
                if let Tree::Present(x) = m {
                    if let Tree::Present(existing) = b {
                        lemma_merge_base_keeps_form(inner, *x, *existing);
                    } else if try_downgraded(inner, *x) is Some {
                        lemma_downgraded_is_record(inner, *x);
                    }
                }
            },
            _ => {},
        }
    }
}

} // verus!
