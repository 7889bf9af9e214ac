//! The orchestrator: one transformation, from a record and the caller's
//! parameters to the cleaned record, its mirror and the four operations.
use crate::classify::{
    classifications, classify_fields, policies, remove_helper_attributes, stripped, FieldPolicy,
    PolicyView,
};
use crate::derives::{get_derive_macros, reconciled};
use crate::mirror::{build_mirror, mirror_of, MirrorSchema, MirrorSchemaView};
use crate::schema::{
    clone_opt_text, clone_schema_attrs, fields, resolved_options, texts, FieldDescriptor,
    FieldView, Form, GlobalOptions, OptionsView, ParametersView, ParsedMacroParameters, Schema,
    SchemaError, SchemaView,
};
use crate::synth::{
    apply_to_fragments, apply_to_opt_fragments, can_convert_fragments, fragments,
    generate_apply_fn, generate_apply_opt_fn, generate_can_convert, generate_try_from,
    try_from_fragments, DowngradeStep, Fragment, FragmentView, MergeBaseStep, MergePartialStep,
    PresenceStep,
};
use vstd::prelude::*;

verus! {

/// What is generated beside the record: the mirror, its capabilities, and
/// the four operations, each as one fragment per field.
#[derive(Debug, PartialEq, Eq)]
pub struct Generated {
    /// The capabilities that the mirror is given.
    pub derives: Vec<String>,
    pub mirror: MirrorSchema,
    /// The merge of a mirror into a record.
    pub apply_to: Vec<Fragment<MergeBaseStep>>,
    /// The merge of a mirror into another mirror.
    pub apply_to_opt: Vec<Fragment<MergePartialStep>>,
    /// The downgrade of a mirror to a record.
    pub try_from: Vec<Fragment<DowngradeStep>>,
    /// The presence check.
    pub can_convert: Vec<Fragment<PresenceStep>>,
}

pub ghost struct GeneratedView {
    pub derives: Seq<Seq<char>>,
    pub mirror: MirrorSchemaView,
    pub apply_to: Seq<FragmentView<MergeBaseStep>>,
    pub apply_to_opt: Seq<FragmentView<MergePartialStep>>,
    pub try_from: Seq<FragmentView<DowngradeStep>>,
    pub can_convert: Seq<FragmentView<PresenceStep>>,
}

impl View for Generated {
    type V = GeneratedView;

    open spec fn view(&self) -> GeneratedView {
        GeneratedView {
            derives: texts(self.derives@),
            mirror: self.mirror@,
            apply_to: fragments(self.apply_to@),
            apply_to_opt: fragments(self.apply_to_opt@),
            try_from: fragments(self.try_from@),
            can_convert: fragments(self.can_convert@),
        }
    }
}

/// The two artifacts of a transformation.
#[derive(Debug, PartialEq, Eq)]
pub struct OptionalStructOutput {
    /// The record, without the directives that the transformation consumed.
    pub original: Schema,
    pub generated: Generated,
}

pub ghost struct OutputView {
    pub original: SchemaView,
    pub generated: GeneratedView,
}

impl View for OptionalStructOutput {
    type V = OutputView;

    open spec fn view(&self) -> OutputView {
        OutputView { original: self.original@, generated: self.generated@ }
    }
}

/// Whether a schema is a record with fields.
pub open spec fn is_record(form: Form) -> bool {
    form == Form::Named || form == Form::Unnamed
}

/// A field without the directives that the classifier consumes.
pub open spec fn cleaned_field(field: FieldView) -> FieldView {
    FieldView { attrs: stripped(field.attrs), vis: field.vis, ident: field.ident, ty: field.ty }
}

/// A record without the directives that the classifier consumes, and
/// otherwise unchanged.
pub open spec fn cleaned(input: SchemaView) -> SchemaView {
    SchemaView {
        attrs: input.attrs,
        vis: input.vis,
        ident: input.ident,
        generics: input.generics,
        form: input.form,
        fields: input.fields.map_values(|f: FieldView| cleaned_field(f)),
    }
}

/// What is generated for a record whose fields have the policies `found`.
pub open spec fn generated_for(options: OptionsView, input: SchemaView, found: Seq<PolicyView>) -> GeneratedView {
    GeneratedView {
        derives: reconciled(options.extra_derive, input.attrs),
        mirror: mirror_of(options, input, found),
        apply_to: apply_to_fragments(found),
        apply_to_opt: apply_to_opt_fragments(found),
        try_from: try_from_fragments(found),
        can_convert: can_convert_fragments(found),
    }
}

/// The outcome of a transformation. A schema that is not a record with
/// fields is refused, and so is one with a field that cannot be classified:
/// with the error of the first such field, and without any output.
pub open spec fn transformation(attr: ParametersView, input: SchemaView) -> Result<
    OutputView,
    SchemaError,
> {
    if !is_record(input.form) {
        Err(SchemaError::NotARecord)
    } else {
        match classifications(input.fields, attr.default_wrapping) {
            Err(e) => Err(e),
            Ok(found) => Ok(
                OutputView {
                    original: cleaned(input),
                    generated: generated_for(resolved_options(attr, input.ident), input, found),
                },
            ),
        }
    }
}

/// The fields of a record; an error for a schema that is none.
pub fn borrow_fields(derive_input: &Schema) -> (r: Result<&Vec<FieldDescriptor>, SchemaError>)
    ensures
        match r {
            Ok(found) => is_record(derive_input.form) && *found == derive_input.fields,
            Err(e) => !is_record(derive_input.form) && e == SchemaError::NotARecord,
        },
{
    match derive_input.form {
        Form::Named | Form::Unnamed => Ok(&derive_input.fields),
        _ => Err(SchemaError::NotARecord),
    }
}

/// Copies a record without the directives that the classifier consumes.
pub fn remove_optional_struct_attributes(record: &Schema) -> (r: Schema)
    ensures
        r@ == cleaned(record@),
{
    let ghost all = fields(record.fields@);
    let mut kept: Vec<FieldDescriptor> = Vec::new();
    let mut i: usize = 0;
    while i < record.fields.len()
        invariant
            i <= record.fields.len(),
            kept.len() == i,
            all == fields(record.fields@),
            forall|j: int| 0 <= j < i ==> (#[trigger] kept@[j])@ == cleaned_field(all[j]),
        decreases record.fields.len() - i,
    {
        let field = &record.fields[i];
        kept.push(
            FieldDescriptor {
                attrs: remove_helper_attributes(&field.attrs),
                vis: field.vis.clone(),
                ident: clone_opt_text(&field.ident),
                ty: field.ty.clone(),
            },
        );
        i += 1;
    }
    assert(fields(kept@) =~= all.map_values(|f: FieldView| cleaned_field(f)));
    Schema {
        attrs: clone_schema_attrs(&record.attrs),
        vis: record.vis.clone(),
        ident: record.ident.clone(),
        generics: record.generics.clone(),
        form: record.form,
        fields: kept,
    }
}

/// Classifies the fields of a record, once, and builds from the policies
/// the cleaned record and the mirror.
pub fn visit_fields(global_options: &GlobalOptions, derive_input: &Schema) -> (r: Result<
    (Schema, MirrorSchema, Vec<FieldPolicy>),
    SchemaError,
>)
    ensures
        match r {
            Ok((orig, new, found)) => {
                &&& is_record(derive_input.form)
                &&& classifications(derive_input@.fields, global_options.default_wrapping_behavior)
                    == Ok::<Seq<PolicyView>, SchemaError>(policies(found@))
                &&& orig@ == cleaned(derive_input@)
                &&& new@ == mirror_of(global_options@, derive_input@, policies(found@))
            },
            Err(e) => if is_record(derive_input.form) {
                classifications(derive_input@.fields, global_options.default_wrapping_behavior)
                    == Err::<Seq<PolicyView>, SchemaError>(e)
            } else {
                e == SchemaError::NotARecord
            },
        },
{
    let all = match borrow_fields(derive_input) {
        Ok(all) => all,
        Err(e) => {
            return Err(e);
        },
    };
    let found = match classify_fields(all, global_options.default_wrapping_behavior) {
        Ok(found) => found,
        Err(e) => {
            return Err(e);
        },
    };
    let orig = remove_optional_struct_attributes(derive_input);
    let new = build_mirror(global_options, derive_input, &found);
    Ok((orig, new, found))
}

/// Transforms a record: derives its mirror and the four operations between
/// the two.
pub fn opt_struct(attr: ParsedMacroParameters, input: Schema) -> (r: Result<
    OptionalStructOutput,
    SchemaError,
>)
    ensures
        match r {
            Ok(out) => transformation(attr@, input@) == Ok::<OutputView, SchemaError>(out@),
            Err(e) => transformation(attr@, input@) == Err::<OutputView, SchemaError>(e),
        },
{
    let macro_params = GlobalOptions::new(attr, &input);
    let (orig, new, found) = match visit_fields(&macro_params, &input) {
        Ok(visited) => visited,
        Err(e) => {
            return Err(e);
        },
    };
    let apply_to = generate_apply_fn(&found);
    let apply_to_opt = generate_apply_opt_fn(&found);
    let try_from = generate_try_from(&found);
    let can_convert = generate_can_convert(&found);
    let derives = get_derive_macros(&input.attrs, &macro_params.extra_derive);
    Ok(
        OptionalStructOutput {
            original: orig,
            generated: Generated { derives, mirror: new, apply_to, apply_to_opt, try_from, can_convert },
        },
    )
}

} // verus!
