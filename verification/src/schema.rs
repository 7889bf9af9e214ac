//! The data model of a schema transformation: records, their fields, the
//! directives attached to fields, and the options of one transformation.
//!
//! Every executable type has a mathematical view (`@`), in which vectors
//! are sequences and strings are sequences of characters. Contracts
//! throughout the crate are stated over these views.
use vstd::prelude::*;
use vstd::string::StringExecFns;

verus! {

/// The prefix of a mirror's name when no name is configured.
pub open spec fn default_prefix() -> Seq<char> {
    "Optional"@
}

/// The views of a vector of strings.
pub open spec fn texts(v: Seq<String>) -> Seq<Seq<char>> {
    v.map_values(|s: String| s@)
}

/// The view of an optional string.
pub open spec fn opt_text(o: Option<String>) -> Option<Seq<char>> {
    match o {
        Some(s) => Some(s@),
        None => None,
    }
}

/// Copies a vector of strings.
pub fn clone_texts(v: &Vec<String>) -> (r: Vec<String>)
    ensures
        texts(r@) == texts(v@),
{
    let r = v.clone();
    assert(r@ =~= v@);
    r
}

/// Copies an optional string.
pub fn clone_opt_text(o: &Option<String>) -> (r: Option<String>)
    ensures
        opt_text(r) == opt_text(*o),
{
    match o {
        Some(s) => Some(s.clone()),
        None => None,
    }
}

/// The forms of a declared type that are not a path and not parenthesized.
#[derive(Clone, Copy, Debug, PartialEq, Eq, Structural)]
pub enum TypeKind {
    Array,
    Tuple,
    ImplTrait,
    TraitObject,
    Infer,
    Macro,
    Reference,
    Never,
    Slice,
    Ptr,
    BareFn,
    Verbatim,
    Group,
}

/// The syntactic form of a declared type, as far as classification reads it.
#[derive(Debug, PartialEq, Eq)]
pub enum TypeShape {
    /// A path; the identifiers of its segments, in order.
    Path(Vec<String>),
    /// A type in parentheses.
    Paren(Box<TypeShape>),
    /// Any other form.
    Other(TypeKind),
}

pub ghost enum TypeShapeView {
    Path(Seq<Seq<char>>),
    Paren(Box<TypeShapeView>),
    Other(TypeKind),
}

/// The view of a type's form.
pub open spec fn shape_view(t: TypeShape) -> TypeShapeView
    decreases t,
{
    match t {
        TypeShape::Path(segments) => TypeShapeView::Path(texts(segments@)),
        TypeShape::Paren(inner) => TypeShapeView::Paren(Box::new(shape_view(*inner))),
        TypeShape::Other(kind) => TypeShapeView::Other(kind),
    }
}

impl View for TypeShape {
    type V = TypeShapeView;

    open spec fn view(&self) -> TypeShapeView {
        shape_view(*self)
    }
}

impl Clone for TypeShape {
    fn clone(&self) -> (r: Self)
        ensures
            r@ == self@,
        decreases *self,
    {
        match self {
            TypeShape::Path(segments) => TypeShape::Path(clone_texts(segments)),
            TypeShape::Paren(inner) => {
                let copy = (**inner).clone();
                TypeShape::Paren(Box::new(copy))
            },
            TypeShape::Other(kind) => TypeShape::Other(*kind),
        }
    }
}

/// A declared type: its form, and its tokens as they were written.
#[derive(Debug, PartialEq, Eq)]
pub struct TypeExpr {
    pub shape: TypeShape,
    pub tokens: String,
}

pub ghost struct TypeExprView {
    pub shape: TypeShapeView,
    pub tokens: Seq<char>,
}

impl View for TypeExpr {
    type V = TypeExprView;

    open spec fn view(&self) -> TypeExprView {
        TypeExprView { shape: self.shape@, tokens: self.tokens@ }
    }
}

impl Clone for TypeExpr {
    fn clone(&self) -> (r: Self)
        ensures
            r@ == self@,
    {
        TypeExpr { shape: self.shape.clone(), tokens: self.tokens.clone() }
    }
}

/// One annotation of a field.
#[derive(Debug, PartialEq, Eq)]
pub enum Directive {
    /// The mirror field has another type; the arguments as they were given.
    Redirect(Vec<String>),
    /// The mirror field is not wrapped.
    SkipWrap,
    /// The mirror field is wrapped.
    Wrap,
    /// The mirror field is not serialized while it is unset.
    SerdeSkipNone,
    /// A compilation guard; its expression as it was written.
    Guard(String),
    /// Any other annotation, as it was written.
    Other(String),
}

pub ghost enum DirectiveView {
    Redirect(Seq<Seq<char>>),
    SkipWrap,
    Wrap,
    SerdeSkipNone,
    Guard(Seq<char>),
    Other(Seq<char>),
}

impl View for Directive {
    type V = DirectiveView;

    open spec fn view(&self) -> DirectiveView {
        match self {
            Directive::Redirect(args) => DirectiveView::Redirect(texts(args@)),
            Directive::SkipWrap => DirectiveView::SkipWrap,
            Directive::Wrap => DirectiveView::Wrap,
            Directive::SerdeSkipNone => DirectiveView::SerdeSkipNone,
            Directive::Guard(expr) => DirectiveView::Guard(expr@),
            Directive::Other(text) => DirectiveView::Other(text@),
        }
    }
}

impl Clone for Directive {
    fn clone(&self) -> (r: Self)
        ensures
            r@ == self@,
    {
        match self {
            Directive::Redirect(args) => Directive::Redirect(clone_texts(args)),
            Directive::SkipWrap => Directive::SkipWrap,
            Directive::Wrap => Directive::Wrap,
            Directive::SerdeSkipNone => Directive::SerdeSkipNone,
            Directive::Guard(expr) => Directive::Guard(expr.clone()),
            Directive::Other(text) => Directive::Other(text.clone()),
        }
    }
}

/// The views of a vector of directives.
pub open spec fn directives(v: Seq<Directive>) -> Seq<DirectiveView> {
    v.map_values(|d: Directive| d@)
}

/// Who may name a field or a record.
#[derive(Debug, PartialEq, Eq)]
pub enum Visibility {
    Public,
    Inherited,
    /// Visible within a scope; the scope as it was written.
    Restricted(String),
}

pub ghost enum VisibilityView {
    Public,
    Inherited,
    Restricted(Seq<char>),
}

impl View for Visibility {
    type V = VisibilityView;

    open spec fn view(&self) -> VisibilityView {
        match self {
            Visibility::Public => VisibilityView::Public,
            Visibility::Inherited => VisibilityView::Inherited,
            Visibility::Restricted(scope) => VisibilityView::Restricted(scope@),
        }
    }
}

impl Clone for Visibility {
    fn clone(&self) -> (r: Self)
        ensures
            r@ == self@,
    {
        match self {
            Visibility::Public => Visibility::Public,
            Visibility::Inherited => Visibility::Inherited,
            Visibility::Restricted(scope) => Visibility::Restricted(scope.clone()),
        }
    }
}

/// One field of a record.
#[derive(Debug, PartialEq, Eq)]
pub struct FieldDescriptor {
    /// The annotations, in the order in which they were written.
    pub attrs: Vec<Directive>,
    pub vis: Visibility,
    /// The name; `None` for a positional field.
    pub ident: Option<String>,
    pub ty: TypeExpr,
}

pub ghost struct FieldView {
    pub attrs: Seq<DirectiveView>,
    pub vis: VisibilityView,
    pub ident: Option<Seq<char>>,
    pub ty: TypeExprView,
}

impl View for FieldDescriptor {
    type V = FieldView;

    open spec fn view(&self) -> FieldView {
        FieldView {
            attrs: directives(self.attrs@),
            vis: self.vis@,
            ident: opt_text(self.ident),
            ty: self.ty@,
        }
    }
}

/// The views of a vector of fields.
pub open spec fn fields(v: Seq<FieldDescriptor>) -> Seq<FieldView> {
    v.map_values(|f: FieldDescriptor| f@)
}

/// One annotation of a record.
#[derive(Debug, PartialEq, Eq)]
pub enum SchemaAttr {
    /// A list of requested capabilities; each path as it was written.
    Derive(Vec<String>),
    /// Any other annotation, as it was written.
    Other(String),
}

pub ghost enum SchemaAttrView {
    Derive(Seq<Seq<char>>),
    Other(Seq<char>),
}

impl View for SchemaAttr {
    type V = SchemaAttrView;

    open spec fn view(&self) -> SchemaAttrView {
        match self {
            SchemaAttr::Derive(paths) => SchemaAttrView::Derive(texts(paths@)),
            SchemaAttr::Other(text) => SchemaAttrView::Other(text@),
        }
    }
}

impl Clone for SchemaAttr {
    fn clone(&self) -> (r: Self)
        ensures
            r@ == self@,
    {
        match self {
            SchemaAttr::Derive(paths) => SchemaAttr::Derive(clone_texts(paths)),
            SchemaAttr::Other(text) => SchemaAttr::Other(text.clone()),
        }
    }
}

/// The views of a vector of record annotations.
pub open spec fn schema_attrs(v: Seq<SchemaAttr>) -> Seq<SchemaAttrView> {
    v.map_values(|a: SchemaAttr| a@)
}

/// Copies a vector of record annotations.
pub fn clone_schema_attrs(v: &Vec<SchemaAttr>) -> (r: Vec<SchemaAttr>)
    ensures
        schema_attrs(r@) == schema_attrs(v@),
{
    let mut r: Vec<SchemaAttr> = Vec::new();
    let mut i: usize = 0;
    while i < v.len()
        invariant
            i <= v.len(),
            r.len() == i,
            forall|j: int| 0 <= j < i ==> (#[trigger] r@[j])@ == v@[j]@,
        decreases v.len() - i,
    {
        r.push(v[i].clone());
        i += 1;
    }
    assert(schema_attrs(r@) =~= schema_attrs(v@));
    r
}

/// What kind of item a schema describes.
#[derive(Clone, Copy, Debug, PartialEq, Eq, Structural)]
pub enum Form {
    /// A record with named fields.
    Named,
    /// A record with positional fields.
    Unnamed,
    /// A record without fields.
    Unit,
    /// A tagged union.
    Enum,
    /// An untagged union.
    Union,
}

/// The description of a record.
#[derive(Debug, PartialEq, Eq)]
pub struct Schema {
    pub attrs: Vec<SchemaAttr>,
    pub vis: Visibility,
    pub ident: String,
    /// The type parameters and their bounds, as they were written.
    pub generics: String,
    pub form: Form,
    /// The fields, in the order in which they were declared.
    pub fields: Vec<FieldDescriptor>,
}

pub ghost struct SchemaView {
    pub attrs: Seq<SchemaAttrView>,
    pub vis: VisibilityView,
    pub ident: Seq<char>,
    pub generics: Seq<char>,
    pub form: Form,
    pub fields: Seq<FieldView>,
}

impl View for Schema {
    type V = SchemaView;

    open spec fn view(&self) -> SchemaView {
        SchemaView {
            attrs: schema_attrs(self.attrs@),
            vis: self.vis@,
            ident: self.ident@,
            generics: self.generics@,
            form: self.form,
            fields: fields(self.fields@),
        }
    }
}

/// Why a schema cannot be transformed.
#[derive(Clone, Copy, Debug, PartialEq, Eq, Structural)]
pub enum SchemaError {
    /// A field's type can be neither wrapped nor told to be nullable.
    UnsupportedFieldType,
    /// A redirect does not name exactly one type.
    MalformedDirective,
    /// The schema is not a record with fields.
    NotARecord,
}

/// What is said of an error.
pub open spec fn error_message(e: SchemaError) -> Seq<char> {
    match e {
        SchemaError::UnsupportedFieldType => "unsupported field type"@,
        SchemaError::MalformedDirective =>
            "'optional_rename' attribute expects one and only one argument (the new type to use)"@,
        SchemaError::NotARecord => "OptionalStruct only works for structs"@,
    }
}

impl SchemaError {
    /// The error in words.
    pub fn message(&self) -> (r: String)
        ensures
            r@ == error_message(*self),
    {
        match self {
            SchemaError::UnsupportedFieldType => "unsupported field type".to_owned(),
            SchemaError::MalformedDirective =>
                "'optional_rename' attribute expects one and only one argument (the new type to use)".to_owned(),
            SchemaError::NotARecord => "OptionalStruct only works for structs".to_owned(),
        }
    }
}

/// What the caller of a transformation asks for.
#[derive(Debug, PartialEq, Eq)]
pub struct ParsedMacroParameters {
    /// The mirror's name, where one is asked for.
    pub new_struct_name: Option<String>,
    /// Whether fields are wrapped unless a directive says otherwise.
    pub default_wrapping: bool,
}

pub ghost struct ParametersView {
    pub new_struct_name: Option<Seq<char>>,
    pub default_wrapping: bool,
}

impl View for ParsedMacroParameters {
    type V = ParametersView;

    open spec fn view(&self) -> ParametersView {
        ParametersView {
            new_struct_name: opt_text(self.new_struct_name),
            default_wrapping: self.default_wrapping,
        }
    }
}

/// One token of the parameters of a transformation, as they are written.
#[derive(Debug, PartialEq, Eq)]
pub enum ParameterToken {
    /// An identifier that is no keyword.
    Name(String),
    Comma,
    /// A boolean literal.
    Bool(bool),
    /// Any other token.
    Other,
}

pub ghost enum ParameterTokenView {
    Name(Seq<char>),
    Comma,
    Bool(bool),
    Other,
}

impl View for ParameterToken {
    type V = ParameterTokenView;

    open spec fn view(&self) -> ParameterTokenView {
        match self {
            ParameterToken::Name(name) => ParameterTokenView::Name(name@),
            ParameterToken::Comma => ParameterTokenView::Comma,
            ParameterToken::Bool(b) => ParameterTokenView::Bool(*b),
            ParameterToken::Other => ParameterTokenView::Other,
        }
    }
}

/// The views of a vector of tokens.
pub open spec fn parameter_tokens(v: Seq<ParameterToken>) -> Seq<ParameterTokenView> {
    v.map_values(|t: ParameterToken| t@)
}

/// The parameters that `tokens` spell: nothing, or the mirror's name, or
/// the name and a comma, or the name, a comma and whether fields are
/// wrapped by default. Anything else spells none.
pub open spec fn spelled_parameters(tokens: Seq<ParameterTokenView>) -> Option<ParametersView> {
    if tokens.len() == 0 {
        Some(ParametersView { new_struct_name: None, default_wrapping: true })
    } else if !(tokens[0] is Name) {
        None
    } else if tokens.len() == 1 || (tokens.len() == 2 && tokens[1] is Comma) {
        Some(
            ParametersView { new_struct_name: Some(tokens[0]->Name_0), default_wrapping: true },
        )
    } else if tokens.len() == 3 && tokens[1] is Comma && tokens[2] is Bool {
        Some(
            ParametersView {
                new_struct_name: Some(tokens[0]->Name_0),
                default_wrapping: tokens[2]->Bool_0,
            },
        )
    } else {
        None
    }
}

impl ParsedMacroParameters {
    /// Reads the parameters of a transformation from their tokens.
    pub fn parse(input: &Vec<ParameterToken>) -> (r: Option<Self>)
        ensures
            match r {
                Some(out) => spelled_parameters(parameter_tokens(input@)) == Some(out@),
                None => spelled_parameters(parameter_tokens(input@)) is None,
            },
    {
        let mut out = ParsedMacroParameters { new_struct_name: None, default_wrapping: true };
        if input.len() == 0 {
            return Some(out);
        }
        if let ParameterToken::Name(struct_name) = &input[0] {
            out.new_struct_name = Some(struct_name.clone());
        } else {
            return None;
        }
        if input.len() == 1 {
            return Some(out);
        }
        if let ParameterToken::Comma = &input[1] {
        } else {
            return None;
        }
        if input.len() == 2 {
            return Some(out);
        }
        if let ParameterToken::Bool(wrapping) = &input[2] {
            out.default_wrapping = *wrapping;
        } else {
            return None;
        }
        if input.len() == 3 {
            Some(out)
        } else {
            None
        }
    }
}

impl Default for ParsedMacroParameters {
    fn default() -> (r: Self)
        ensures
            r@ == (ParametersView { new_struct_name: None, default_wrapping: true }),
    {
        ParsedMacroParameters { new_struct_name: None, default_wrapping: true }
    }
}

/// The options of one transformation, resolved once per schema.
#[derive(Debug, PartialEq, Eq)]
pub struct GlobalOptions {
    pub new_struct_name: String,
    /// The capabilities that the mirror is to have.
    pub extra_derive: Vec<String>,
    pub default_wrapping_behavior: bool,
    pub make_fields_public: bool,
}

pub ghost struct OptionsView {
    pub new_struct_name: Seq<char>,
    pub extra_derive: Seq<Seq<char>>,
    pub default_wrapping_behavior: bool,
    pub make_fields_public: bool,
}

impl View for GlobalOptions {
    type V = OptionsView;

    open spec fn view(&self) -> OptionsView {
        OptionsView {
            new_struct_name: self.new_struct_name@,
            extra_derive: texts(self.extra_derive@),
            default_wrapping_behavior: self.default_wrapping_behavior,
            make_fields_public: self.make_fields_public,
        }
    }
}

/// The capabilities that every mirror is to have.
pub open spec fn default_derives() -> Seq<Seq<char>> {
    seq!["Clone"@, "PartialEq"@, "Default"@, "Debug"@]
}

/// The options that `attr` and the record's name resolve to.
pub open spec fn resolved_options(attr: ParametersView, ident: Seq<char>) -> OptionsView {
    OptionsView {
        new_struct_name: match attr.new_struct_name {
            Some(name) => name,
            None => default_prefix() + ident,
        },
        extra_derive: default_derives(),
        default_wrapping_behavior: attr.default_wrapping,
        make_fields_public: true,
    }
}

impl GlobalOptions {
    /// Resolves the options of one transformation: the mirror is named as
    /// `attr` asks, or else after the record; its fields are public; it gets
    /// the default capabilities.
    pub fn new(attr: ParsedMacroParameters, struct_definition: &Schema) -> (r: Self)
        ensures
            r@ == resolved_options(attr@, struct_definition@.ident),
    {
        let new_struct_name = match attr.new_struct_name {
            Some(name) => name,
            None => "Optional".to_owned().concat(struct_definition.ident.as_str()),
        };
        let mut extra_derive: Vec<String> = Vec::new();
        extra_derive.push("Clone".to_owned());
        extra_derive.push("PartialEq".to_owned());
        extra_derive.push("Default".to_owned());
        extra_derive.push("Debug".to_owned());
        assert(texts(extra_derive@) =~= default_derives());
        GlobalOptions {
            new_struct_name,
            extra_derive,
            default_wrapping_behavior: attr.default_wrapping,
            make_fields_public: true,
        }
    }
}

} // verus!
