//! The mirror builder: the mirror of a record, field by field, from the
//! record and the policies of its fields.
use crate::classify::{
    policies, remove_helper_attributes, stripped, FieldPolicy, PolicyView,
};
use crate::schema::{
    clone_opt_text, clone_schema_attrs, directives, fields, opt_text, schema_attrs, Directive,
    DirectiveView, FieldDescriptor, FieldView, Form, GlobalOptions, OptionsView, Schema,
    SchemaAttr, SchemaAttrView, SchemaView, TypeExpr, TypeExprView, Visibility, VisibilityView,
};
use vstd::prelude::*;

verus! {

/// The type of a mirror field before any wrapping.
#[derive(Debug, PartialEq, Eq)]
pub enum MirrorBase {
    /// The type that the record's field was declared with.
    Declared(TypeExpr),
    /// The type that the field is redirected to, as it was written.
    Redirect(String),
}

pub ghost enum MirrorBaseView {
    Declared(TypeExprView),
    Redirect(Seq<char>),
}

impl View for MirrorBase {
    type V = MirrorBaseView;

    open spec fn view(&self) -> MirrorBaseView {
        match self {
            MirrorBase::Declared(ty) => MirrorBaseView::Declared(ty@),
            MirrorBase::Redirect(target) => MirrorBaseView::Redirect(target@),
        }
    }
}

/// The type of a mirror field.
#[derive(Debug, PartialEq, Eq)]
pub struct MirrorType {
    pub base: MirrorBase,
    /// Whether `base` is wrapped, once, in the nullable wrapper.
    pub wrapped: bool,
}

pub ghost struct MirrorTypeView {
    pub base: MirrorBaseView,
    pub wrapped: bool,
}

impl View for MirrorType {
    type V = MirrorTypeView;

    open spec fn view(&self) -> MirrorTypeView {
        MirrorTypeView { base: self.base@, wrapped: self.wrapped }
    }
}

/// One field of a mirror.
#[derive(Debug, PartialEq, Eq)]
pub struct MirrorField {
    /// The annotations that the field keeps, the compilation guard among them.
    pub attrs: Vec<Directive>,
    pub vis: Visibility,
    pub ident: Option<String>,
    pub ty: MirrorType,
    /// Whether the field is left out of serialized output while it is unset.
    pub skip_serializing_none: bool,
}

pub ghost struct MirrorFieldView {
    pub attrs: Seq<DirectiveView>,
    pub vis: VisibilityView,
    pub ident: Option<Seq<char>>,
    pub ty: MirrorTypeView,
    pub skip_serializing_none: bool,
}

impl View for MirrorField {
    type V = MirrorFieldView;

    open spec fn view(&self) -> MirrorFieldView {
        MirrorFieldView {
            attrs: directives(self.attrs@),
            vis: self.vis@,
            ident: opt_text(self.ident),
            ty: self.ty@,
            skip_serializing_none: self.skip_serializing_none,
        }
    }
}

/// The views of a vector of mirror fields.
pub open spec fn mirror_fields(v: Seq<MirrorField>) -> Seq<MirrorFieldView> {
    v.map_values(|f: MirrorField| f@)
}

/// The mirror of a record.
#[derive(Debug, PartialEq, Eq)]
pub struct MirrorSchema {
    pub attrs: Vec<SchemaAttr>,
    pub vis: Visibility,
    pub ident: String,
    pub generics: String,
    pub form: Form,
    pub fields: Vec<MirrorField>,
}

pub ghost struct MirrorSchemaView {
    pub attrs: Seq<SchemaAttrView>,
    pub vis: VisibilityView,
    pub ident: Seq<char>,
    pub generics: Seq<char>,
    pub form: Form,
    pub fields: Seq<MirrorFieldView>,
}

impl View for MirrorSchema {
    type V = MirrorSchemaView;

    open spec fn view(&self) -> MirrorSchemaView {
        MirrorSchemaView {
            attrs: schema_attrs(self.attrs@),
            vis: self.vis@,
            ident: self.ident@,
            generics: self.generics@,
            form: self.form,
            fields: mirror_fields(self.fields@),
        }
    }
}

/// The type of the mirror field: the redirect's where there is one, else
/// the field's own; wrapped once if the policy says so.
pub open spec fn mirror_type(ty: TypeExprView, policy: PolicyView) -> MirrorTypeView {
    MirrorTypeView {
        base: match policy.redirect {
            Some(target) => MirrorBaseView::Redirect(target),
            None => MirrorBaseView::Declared(ty),
        },
        wrapped: policy.wrap,
    }
}

/// The mirror of one field. Name and guard are the field's; the consumed
/// directives are gone; the field is public where `make_public` says so.
pub open spec fn mirror_field(make_public: bool, field: FieldView, policy: PolicyView) -> MirrorFieldView {
    MirrorFieldView {
        attrs: stripped(field.attrs),
        vis: if make_public {
            VisibilityView::Public
        } else {
            field.vis
        },
        ident: field.ident,
        ty: mirror_type(field.ty, policy),
        skip_serializing_none: policy.serde_skip_if_absent,
    }
}

/// The lesser of two lengths.
pub open spec fn shorter(a: nat, b: nat) -> nat {
    if a <= b {
        a
    } else {
        b
    }
}

/// The mirrors of the fields that have a policy, in order.
pub open spec fn mirrored(make_public: bool, all: Seq<FieldView>, found: Seq<PolicyView>) -> Seq<
    MirrorFieldView,
> {
    Seq::new(shorter(all.len(), found.len()), |i: int| mirror_field(make_public, all[i], found[i]))
}

/// The mirror of a record: named as the options say, with the record's
/// own annotations, visibility, parameters and form, and the mirrors of its
/// fields.
pub open spec fn mirror_of(options: OptionsView, record: SchemaView, found: Seq<PolicyView>) -> MirrorSchemaView {
    MirrorSchemaView {
        attrs: record.attrs,
        vis: record.vis,
        ident: options.new_struct_name,
        generics: record.generics,
        form: record.form,
        fields: mirrored(options.make_fields_public, record.fields, found),
    }
}

/// Chooses the type of a mirror field.
pub fn set_new_field_type(ty: &TypeExpr, policy: &FieldPolicy) -> (r: MirrorType)
    ensures
        r@ == mirror_type(ty@, policy@),
{
    let base = match &policy.redirect {
        Some(target) => MirrorBase::Redirect(target.clone()),
        None => MirrorBase::Declared(ty.clone()),
    };
    MirrorType { base, wrapped: policy.wrap }
}

/// Chooses the visibility of a mirror field.
pub fn set_new_field_visibility(options: &GlobalOptions, vis: &Visibility) -> (r: Visibility)
    ensures
        r@ == if options.make_fields_public {
            VisibilityView::Public
        } else {
            vis@
        },
{
    if options.make_fields_public {
        Visibility::Public
    } else {
        vis.clone()
    }
}

/// Builds the mirror of one field.
pub fn build_mirror_field(options: &GlobalOptions, field: &FieldDescriptor, policy: &FieldPolicy) -> (r:
    MirrorField)
    ensures
        r@ == mirror_field(options.make_fields_public, field@, policy@),
{
    MirrorField {
        attrs: remove_helper_attributes(&field.attrs),
        vis: set_new_field_visibility(options, &field.vis),
        ident: clone_opt_text(&field.ident),
        ty: set_new_field_type(&field.ty, policy),
        skip_serializing_none: policy.serde_skip_if_absent,
    }
}

/// Builds the mirror of a record from the policies of its fields.
pub fn build_mirror(options: &GlobalOptions, record: &Schema, found: &Vec<FieldPolicy>) -> (r:
    MirrorSchema)
    ensures
        r@ == mirror_of(options@, record@, policies(found@)),
{
    let ghost all = fields(record.fields@);
    let ghost ps = policies(found@);
    let mut out: Vec<MirrorField> = Vec::new();
    let mut i: usize = 0;
    while i < record.fields.len() && i < found.len()
        invariant
            i <= record.fields.len(),
            i <= found.len(),
            out.len() == i,
            all == fields(record.fields@),
            ps == policies(found@),
            forall|j: int| 0 <= j < i ==> (#[trigger] out@[j])@ == mirror_field(options.make_fields_public, all[j], ps[j]),
        decreases record.fields.len() - i,
    {
        out.push(build_mirror_field(options, &record.fields[i], &found[i]));
        i += 1;
    }
    assert(mirror_fields(out@) =~= mirrored(options.make_fields_public, all, ps));
    MirrorSchema {
        attrs: clone_schema_attrs(&record.attrs),
        vis: record.vis.clone(),
        ident: options.new_struct_name.clone(),
        generics: record.generics.clone(),
        form: record.form,
        fields: out,
    }
}

} // verus!
