//! The operation synthesizers: for each of the four generated operations,
//! what it does at one field, chosen by how the field was classified.
use crate::classify::{policies, FieldIdent, FieldIdentView, FieldPolicy, PolicyView};
use crate::schema::{clone_opt_text, opt_text};
use vstd::prelude::*;

verus! {

/// The classes of fields that the generated operations tell apart.
#[derive(Clone, Copy, Debug, PartialEq, Eq, Structural)]
pub enum FieldKind {
    /// Not nullable, not wrapped, not redirected: the mirror holds a value.
    Plain,
    /// Not nullable, not wrapped, redirected: the mirror holds a nested mirror.
    Nested,
    /// Wrapped, not redirected: the mirror holds a value or nothing.
    Wrapped,
    /// Wrapped and redirected: the mirror holds a nested mirror or nothing.
    WrappedNested,
    /// Nullable, not wrapped, redirected: record and mirror both hold
    /// something or nothing; the mirror something nested.
    NullableNested,
    /// Nullable, not wrapped, not redirected: the mirror holds what the
    /// record holds, a value or nothing.
    Nullable,
}

/// The class of a field. Where a field is wrapped, it does not matter
/// whether its own type is nullable.
pub open spec fn kind_of(already_nullable: bool, wrap: bool, has_redirect: bool) -> FieldKind {
    if wrap {
        if has_redirect {
            FieldKind::WrappedNested
        } else {
            FieldKind::Wrapped
        }
    } else if has_redirect {
        if already_nullable {
            FieldKind::NullableNested
        } else {
            FieldKind::Nested
        }
    } else if already_nullable {
        FieldKind::Nullable
    } else {
        FieldKind::Plain
    }
}

/// The class of the field that `policy` was made for.
pub open spec fn policy_kind(policy: PolicyView) -> FieldKind {
    kind_of(policy.already_nullable, policy.wrap, policy.redirect is Some)
}

/// What merging a mirror into a record does at one field.
#[derive(Clone, Copy, Debug, PartialEq, Eq, Structural)]
pub enum MergeBaseStep {
    /// The mirror's value replaces the record's.
    Overwrite,
    /// The nested mirror is merged into the record's nested record.
    Merge,
    /// If the mirror holds a value, it replaces the record's.
    OverwriteIfSet,
    /// If the mirror holds a nested mirror, that is merged into the
    /// record's nested record.
    MergeIfSet,
    /// If the mirror holds a nested mirror: where the record holds a nested
    /// record, the mirror is merged into it; where it holds nothing, it
    /// takes what the nested mirror downgrades to.
    AdoptOrMerge,
    /// If the mirror holds something, the record's slot is replaced by the
    /// mirror's, as a whole.
    ReplaceIfSet,
}

/// What merging a mirror into another mirror does at one field.
#[derive(Clone, Copy, Debug, PartialEq, Eq, Structural)]
pub enum MergePartialStep {
    /// The incoming value replaces the other.
    Overwrite,
    /// The incoming nested mirror is merged into the other.
    Merge,
    /// If something comes in, it replaces the other slot.
    ReplaceIfSet,
    /// If a nested mirror comes in: where the other slot holds one, the
    /// incoming is merged into it; where it holds nothing, it takes the
    /// incoming.
    AdoptOrMerge,
}

/// What a field asks of a mirror that is to become a record.
#[derive(Clone, Copy, Debug, PartialEq, Eq, Structural)]
pub enum PresenceStep {
    /// Nothing.
    Always,
    /// The nested mirror can become a record.
    Nested,
    /// The slot holds a value.
    Filled,
    /// The slot holds a nested mirror that can become a record.
    FilledAndNested,
    /// The slot holds nothing, or a nested mirror that can become a record.
    NestedIfSet,
}

/// How a field of the record is made from the mirror's.
#[derive(Clone, Copy, Debug, PartialEq, Eq, Structural)]
pub enum DowngradeStep {
    /// It is the mirror's value.
    Keep,
    /// It is what the nested mirror downgrades to.
    Nested,
    /// It is the value that the slot holds; without one, the downgrade fails.
    Unwrap,
    /// It is what the nested mirror in the slot downgrades to; without one,
    /// the downgrade fails.
    UnwrapNested,
    /// It is nothing where the slot holds nothing, and else what the nested
    /// mirror in the slot downgrades to.
    NestedIfSet,
}

/// What merging a mirror into a record does at a field of each class.
pub open spec fn merge_base_step(kind: FieldKind) -> MergeBaseStep {
    match kind {
        FieldKind::Plain => MergeBaseStep::Overwrite,
        FieldKind::Nested => MergeBaseStep::Merge,
        FieldKind::Wrapped => MergeBaseStep::OverwriteIfSet,
        FieldKind::WrappedNested => MergeBaseStep::MergeIfSet,
        FieldKind::NullableNested => MergeBaseStep::AdoptOrMerge,
        FieldKind::Nullable => MergeBaseStep::ReplaceIfSet,
    }
}

/// What merging a mirror into another mirror does at a field of each
/// class. Between two mirrors a slot is a slot, whether it comes from
/// wrapping or from the field's own type.
pub open spec fn merge_partial_step(kind: FieldKind) -> MergePartialStep {
    match kind {
        FieldKind::Plain => MergePartialStep::Overwrite,
        FieldKind::Nested => MergePartialStep::Merge,
        FieldKind::Wrapped | FieldKind::Nullable => MergePartialStep::ReplaceIfSet,
        FieldKind::WrappedNested | FieldKind::NullableNested => MergePartialStep::AdoptOrMerge,
    }
}

/// What a field of each class asks of a mirror that is to become a record.
/// Wrapping is what asks for a value; a field whose own type is nullable,
/// and which is not wrapped, asks for none.
pub open spec fn presence_step(kind: FieldKind) -> PresenceStep {
    match kind {
        FieldKind::Plain | FieldKind::Nullable => PresenceStep::Always,
        FieldKind::Nested => PresenceStep::Nested,
        FieldKind::Wrapped => PresenceStep::Filled,
        FieldKind::WrappedNested => PresenceStep::FilledAndNested,
        FieldKind::NullableNested => PresenceStep::NestedIfSet,
    }
}

/// How a field of each class is made from the mirror's.
pub open spec fn downgrade_step(kind: FieldKind) -> DowngradeStep {
    match kind {
        FieldKind::Plain | FieldKind::Nullable => DowngradeStep::Keep,
        FieldKind::Nested => DowngradeStep::Nested,
        FieldKind::Wrapped => DowngradeStep::Unwrap,
        FieldKind::WrappedNested => DowngradeStep::UnwrapNested,
        FieldKind::NullableNested => DowngradeStep::NestedIfSet,
    }
}

impl FieldKind {
    /// The class of a field with these three properties.
    pub fn of(already_nullable: bool, wrap: bool, has_redirect: bool) -> (r: FieldKind)
        ensures
            r == kind_of(already_nullable, wrap, has_redirect),
    {
        match (already_nullable, wrap, has_redirect) {
            (_, true, true) => FieldKind::WrappedNested,
            (_, true, false) => FieldKind::Wrapped,
            (true, false, true) => FieldKind::NullableNested,
            (true, false, false) => FieldKind::Nullable,
            (false, false, true) => FieldKind::Nested,
            (false, false, false) => FieldKind::Plain,
        }
    }

    /// Whether a field of this class is redirected to a nested mirror.
    pub fn is_nested(self) -> (r: bool)
        ensures
            r == (self == FieldKind::Nested || self == FieldKind::WrappedNested || self
                == FieldKind::NullableNested),
    {
        match self {
            FieldKind::Nested | FieldKind::WrappedNested | FieldKind::NullableNested => true,
            _ => false,
        }
    }

    /// The merge into a record, at a field of this class.
    pub fn get_incremental_setter_concrete(self) -> (r: MergeBaseStep)
        ensures
            r == merge_base_step(self),
    {
        match self {
            FieldKind::NullableNested => MergeBaseStep::AdoptOrMerge,
            FieldKind::Nullable => MergeBaseStep::ReplaceIfSet,
            FieldKind::Nested => MergeBaseStep::Merge,
            FieldKind::Plain => MergeBaseStep::Overwrite,
            FieldKind::WrappedNested => MergeBaseStep::MergeIfSet,
            FieldKind::Wrapped => MergeBaseStep::OverwriteIfSet,
        }
    }

    /// The merge into another mirror, at a field of this class. Between two
    /// mirrors a wrapped slot and a nullable one are alike: both hold
    /// something or nothing.
    pub fn get_incremental_setter_opt(self) -> (r: MergePartialStep)
        ensures
            r == merge_partial_step(self),
    {
        let optional = match self {
            FieldKind::Plain | FieldKind::Nested => false,
            _ => true,
        };
        match (optional, self.is_nested()) {
            (true, true) => MergePartialStep::AdoptOrMerge,
            (true, false) => MergePartialStep::ReplaceIfSet,
            (false, true) => MergePartialStep::Merge,
            (false, false) => MergePartialStep::Overwrite,
        }
    }

    /// What a field of this class asks of a mirror that is to become a record.
    pub fn presence(self) -> (r: PresenceStep)
        ensures
            r == presence_step(self),
    {
        match self {
            FieldKind::Wrapped => PresenceStep::Filled,
            FieldKind::WrappedNested => PresenceStep::FilledAndNested,
            FieldKind::Nested => PresenceStep::Nested,
            FieldKind::NullableNested => PresenceStep::NestedIfSet,
            FieldKind::Plain | FieldKind::Nullable => PresenceStep::Always,
        }
    }

    /// How a field of this class is made from the mirror's.
    pub fn downgrade(self) -> (r: DowngradeStep)
        ensures
            r == downgrade_step(self),
    {
        match self {
            FieldKind::Wrapped => DowngradeStep::Unwrap,
            FieldKind::WrappedNested => DowngradeStep::UnwrapNested,
            FieldKind::Nested => DowngradeStep::Nested,
            FieldKind::NullableNested => DowngradeStep::NestedIfSet,
            FieldKind::Plain | FieldKind::Nullable => DowngradeStep::Keep,
        }
    }
}

impl FieldPolicy {
    /// The class of the field that this policy was made for.
    pub fn kind(&self) -> (r: FieldKind)
        ensures
            r == policy_kind(self@),
    {
        FieldKind::of(self.already_nullable, self.wrap, self.redirect.is_some())
    }
}

/// One field's part of a generated operation.
#[derive(Debug, PartialEq, Eq)]
pub struct Fragment<S> {
    /// The field that the fragment reads and writes.
    pub ident: FieldIdent,
    /// The compilation guard under which the fragment exists.
    pub guard: Option<String>,
    pub step: S,
}

pub ghost struct FragmentView<S> {
    pub ident: FieldIdentView,
    pub guard: Option<Seq<char>>,
    pub step: S,
}

impl<S> View for Fragment<S> {
    type V = FragmentView<S>;

    open spec fn view(&self) -> FragmentView<S> {
        FragmentView { ident: self.ident@, guard: opt_text(self.guard), step: self.step }
    }
}

/// The views of a vector of fragments.
pub open spec fn fragments<S>(v: Seq<Fragment<S>>) -> Seq<FragmentView<S>> {
    v.map_values(|f: Fragment<S>| f@)
}

/// The fragment that does `step` at the field of `policy`, under that
/// field's guard.
pub open spec fn fragment_of<S>(policy: PolicyView, step: S) -> FragmentView<S> {
    FragmentView { ident: policy.field_ident, guard: policy.guard, step }
}

impl<S> Fragment<S> {
    /// The fragment that does `step` at the field of `policy`.
    pub fn new(policy: &FieldPolicy, step: S) -> (r: Self)
        ensures
            r@ == fragment_of(policy@, step),
    {
        Fragment { ident: policy.field_ident.clone(), guard: clone_opt_text(&policy.guard), step }
    }
}

/// The merge of a mirror into a record: one fragment per field, in order.
pub open spec fn apply_to_fragments(ps: Seq<PolicyView>) -> Seq<FragmentView<MergeBaseStep>> {
    ps.map_values(|p: PolicyView| fragment_of(p, merge_base_step(policy_kind(p))))
}

/// The merge of a mirror into another: one fragment per field, in order.
pub open spec fn apply_to_opt_fragments(ps: Seq<PolicyView>) -> Seq<FragmentView<MergePartialStep>> {
    ps.map_values(|p: PolicyView| fragment_of(p, merge_partial_step(policy_kind(p))))
}

/// The presence check: one fragment per field, in order.
pub open spec fn can_convert_fragments(ps: Seq<PolicyView>) -> Seq<FragmentView<PresenceStep>> {
    ps.map_values(|p: PolicyView| fragment_of(p, presence_step(policy_kind(p))))
}

/// The downgrade: one fragment per field, in order.
pub open spec fn try_from_fragments(ps: Seq<PolicyView>) -> Seq<FragmentView<DowngradeStep>> {
    ps.map_values(|p: PolicyView| fragment_of(p, downgrade_step(policy_kind(p))))
}

/// Synthesizes the merge of a mirror into a record.
pub fn generate_apply_fn(found: &Vec<FieldPolicy>) -> (r: Vec<Fragment<MergeBaseStep>>)
    ensures
        fragments(r@) == apply_to_fragments(policies(found@)),
{
    let mut acc: Vec<Fragment<MergeBaseStep>> = Vec::new();
    let mut i: usize = 0;
    while i < found.len()
        invariant
            i <= found.len(),
            acc.len() == i,
            forall|j: int| 0 <= j < i ==> (#[trigger] acc@[j])@ == fragment_of(found@[j]@, merge_base_step(policy_kind(found@[j]@))),
        decreases found.len() - i,
    {
        let step = found[i].kind().get_incremental_setter_concrete();
        acc.push(Fragment::new(&found[i], step));
        i += 1;
    }
    assert(fragments(acc@) =~= apply_to_fragments(policies(found@)));
    acc
}

/// Synthesizes the merge of a mirror into another mirror.
pub fn generate_apply_opt_fn(found: &Vec<FieldPolicy>) -> (r: Vec<Fragment<MergePartialStep>>)
    ensures
        fragments(r@) == apply_to_opt_fragments(policies(found@)),
{
    let mut acc: Vec<Fragment<MergePartialStep>> = Vec::new();
    let mut i: usize = 0;
    while i < found.len()
        invariant
            i <= found.len(),
            acc.len() == i,
            forall|j: int| 0 <= j < i ==> (#[trigger] acc@[j])@ == fragment_of(found@[j]@, merge_partial_step(policy_kind(found@[j]@))),
        decreases found.len() - i,
    {
        let step = found[i].kind().get_incremental_setter_opt();
        acc.push(Fragment::new(&found[i], step));
        i += 1;
    }
    assert(fragments(acc@) =~= apply_to_opt_fragments(policies(found@)));
    acc
}

/// Synthesizes the presence check.
pub fn generate_can_convert(found: &Vec<FieldPolicy>) -> (r: Vec<Fragment<PresenceStep>>)
    ensures
        fragments(r@) == can_convert_fragments(policies(found@)),
{
    let mut acc: Vec<Fragment<PresenceStep>> = Vec::new();
    let mut i: usize = 0;
    while i < found.len()
        invariant
            i <= found.len(),
            acc.len() == i,
            forall|j: int| 0 <= j < i ==> (#[trigger] acc@[j])@ == fragment_of(found@[j]@, presence_step(policy_kind(found@[j]@))),
        decreases found.len() - i,
    {
        let step = found[i].kind().presence();
        acc.push(Fragment::new(&found[i], step));
        i += 1;
    }
    assert(fragments(acc@) =~= can_convert_fragments(policies(found@)));
    acc
}

/// Synthesizes the downgrade.
pub fn generate_try_from(found: &Vec<FieldPolicy>) -> (r: Vec<Fragment<DowngradeStep>>)
    ensures
        fragments(r@) == try_from_fragments(policies(found@)),
{
    let mut acc: Vec<Fragment<DowngradeStep>> = Vec::new();
    let mut i: usize = 0;
    while i < found.len()
        invariant
            i <= found.len(),
            acc.len() == i,
            forall|j: int| 0 <= j < i ==> (#[trigger] acc@[j])@ == fragment_of(found@[j]@, downgrade_step(policy_kind(found@[j]@))),
        decreases found.len() - i,
    {
        let step = found[i].kind().downgrade();
        acc.push(Fragment::new(&found[i], step));
        i += 1;
    }
    assert(fragments(acc@) =~= try_from_fragments(policies(found@)));
    acc
}

} // verus!
