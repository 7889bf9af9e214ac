//! The field classifier: resolves the type and the directives of a field
//! into one policy, which every later pass reads.
use crate::schema::{
    directives, opt_text, texts, Directive, DirectiveView, FieldDescriptor, FieldView,
    SchemaError, TypeKind, TypeShape, TypeShapeView,
};
use vstd::prelude::*;

verus! {

/// How generated code names a field: by its name, or by its position.
#[derive(Debug, PartialEq, Eq)]
pub enum FieldIdent {
    Named(String),
    Index(usize),
}

pub ghost enum FieldIdentView {
    Named(Seq<char>),
    Index(nat),
}

impl View for FieldIdent {
    type V = FieldIdentView;

    open spec fn view(&self) -> FieldIdentView {
        match self {
            FieldIdent::Named(name) => FieldIdentView::Named(name@),
            FieldIdent::Index(i) => FieldIdentView::Index(*i as nat),
        }
    }
}

impl Clone for FieldIdent {
    fn clone(&self) -> (r: Self)
        ensures
            r@ == self@,
    {
        match self {
            FieldIdent::Named(name) => FieldIdent::Named(name.clone()),
            FieldIdent::Index(i) => FieldIdent::Index(*i),
        }
    }
}

/// What the classifier decides for one field.
#[derive(Debug, PartialEq, Eq)]
pub struct FieldPolicy {
    /// Whether the mirror field's type is wrapped in a nullable wrapper.
    pub wrap: bool,
    /// The type of the mirror field, where it is not the field's own type.
    pub redirect: Option<String>,
    /// Whether the field's own type is a nullable wrapper.
    pub already_nullable: bool,
    /// Whether the mirror field is left out of serialized output while unset.
    pub serde_skip_if_absent: bool,
    /// The field's compilation guard.
    pub guard: Option<String>,
    pub field_ident: FieldIdent,
}

pub ghost struct PolicyView {
    pub wrap: bool,
    pub redirect: Option<Seq<char>>,
    pub already_nullable: bool,
    pub serde_skip_if_absent: bool,
    pub guard: Option<Seq<char>>,
    pub field_ident: FieldIdentView,
}

impl View for FieldPolicy {
    type V = PolicyView;

    open spec fn view(&self) -> PolicyView {
        PolicyView {
            wrap: self.wrap,
            redirect: opt_text(self.redirect),
            already_nullable: self.already_nullable,
            serde_skip_if_absent: self.serde_skip_if_absent,
            guard: opt_text(self.guard),
            field_ident: self.field_ident@,
        }
    }
}

/// The views of a vector of policies.
pub open spec fn policies(v: Seq<FieldPolicy>) -> Seq<PolicyView> {
    v.map_values(|p: FieldPolicy| p@)
}

/// The name of the nullable wrapper.
pub open spec fn wrapper_name() -> Seq<char> {
    "Option"@
}

/// Whether a path names the nullable wrapper: its last segment does.
pub open spec fn path_is_option(segments: Seq<Seq<char>>) -> bool {
    segments.len() > 0 && segments.last() == wrapper_name()
}

/// Whether a type of this form is a nullable wrapper, or why it cannot be
/// the type of a field. Parentheses are looked through; arrays and tuples
/// are never nullable; of the other forms none can be told.
pub open spec fn type_is_option(shape: TypeShapeView) -> Result<bool, SchemaError>
    decreases shape,
{
    match shape {
        TypeShapeView::Path(segments) => Ok(path_is_option(segments)),
        TypeShapeView::Paren(inner) => type_is_option(*inner),
        TypeShapeView::Other(kind) => if kind == TypeKind::Array || kind == TypeKind::Tuple {
            Ok(false)
        } else {
            Err(SchemaError::UnsupportedFieldType)
        },
    }
}

pub fn is_path_option(p: &Vec<String>) -> (r: bool)
    ensures
        r == path_is_option(texts(p@)),
{
    if p.len() == 0 {
        return false;
    }
    let wrapper = "Option".to_owned();
    p[p.len() - 1] == wrapper
}

pub fn is_type_option(t: &TypeShape) -> (r: Result<bool, SchemaError>)
    ensures
        r == type_is_option(t@),
    decreases *t,
{
    match t {
        TypeShape::Path(segments) => Ok(is_path_option(segments)),
        TypeShape::Paren(inner) => is_type_option(inner),
        TypeShape::Other(kind) => match kind {
            TypeKind::Array | TypeKind::Tuple => Ok(false),
            _ => Err(SchemaError::UnsupportedFieldType),
        },
    }
}

/// Whether the classifier consumes a directive. The compilation guard is
/// read but stays on the field.
pub open spec fn is_helper(d: DirectiveView) -> bool {
    d is Redirect || d is SkipWrap || d is Wrap || d is SerdeSkipNone
}

/// Whether some redirect among `dirs` does not name exactly one type.
pub open spec fn malformed(dirs: Seq<DirectiveView>) -> bool {
    exists|i: int| 0 <= i < dirs.len() && (#[trigger] dirs[i]) is Redirect && dirs[i]->Redirect_0.len() != 1
}

/// What the directives say of wrapping: the word of the last of them that
/// speaks of it. A redirect asks for no wrapping.
pub open spec fn wrap_override(dirs: Seq<DirectiveView>) -> Option<bool>
    decreases dirs.len(),
{
    if dirs.len() == 0 {
        None
    } else {
        match dirs.last() {
            DirectiveView::Wrap => Some(true),
            DirectiveView::SkipWrap => Some(false),
            DirectiveView::Redirect(_) => Some(false),
            _ => wrap_override(dirs.drop_last()),
        }
    }
}

/// The type that the last redirect among `dirs` names.
pub open spec fn redirect_target(dirs: Seq<DirectiveView>) -> Option<Seq<char>>
    decreases dirs.len(),
{
    if dirs.len() == 0 {
        None
    } else {
        match dirs.last() {
            DirectiveView::Redirect(args) if args.len() == 1 => Some(args[0]),
            _ => redirect_target(dirs.drop_last()),
        }
    }
}

/// The expression of the last compilation guard among `dirs`.
pub open spec fn guard_of(dirs: Seq<DirectiveView>) -> Option<Seq<char>>
    decreases dirs.len(),
{
    if dirs.len() == 0 {
        None
    } else {
        match dirs.last() {
            DirectiveView::Guard(expr) => Some(expr),
            _ => guard_of(dirs.drop_last()),
        }
    }
}

/// Whether some directive among `dirs` asks to skip serializing while unset.
pub open spec fn skips_serializing(dirs: Seq<DirectiveView>) -> bool {
    exists|i: int| 0 <= i < dirs.len() && (#[trigger] dirs[i]) is SerdeSkipNone
}

/// The name under which generated code reaches the field at `index`.
pub open spec fn field_ident_of(field: FieldView, index: nat) -> FieldIdentView {
    match field.ident {
        Some(name) => FieldIdentView::Named(name),
        None => FieldIdentView::Index(index),
    }
}

/// The policy of the field at `index`, or why the field has none.
///
/// A field whose type is unsupported has none, and neither has one with a
/// malformed redirect. Otherwise the field is wrapped as its directives say;
/// where they say nothing, it is wrapped if that is the default and its type
/// is not nullable already.
pub open spec fn classification(field: FieldView, index: nat, default_wrap: bool) -> Result<
    PolicyView,
    SchemaError,
> {
    match type_is_option(field.ty.shape) {
        Err(e) => Err(e),
        Ok(nullable) => if malformed(field.attrs) {
            Err(SchemaError::MalformedDirective)
        } else {
            Ok(
                PolicyView {
                    wrap: match wrap_override(field.attrs) {
                        Some(w) => w,
                        None => default_wrap && !nullable,
                    },
                    redirect: redirect_target(field.attrs),
                    already_nullable: nullable,
                    serde_skip_if_absent: skips_serializing(field.attrs),
                    guard: guard_of(field.attrs),
                    field_ident: field_ident_of(field, index),
                },
            )
        },
    }
}

/// Classifies the field at `index`.
pub fn classify_field(field: &FieldDescriptor, index: usize, default_wrap: bool) -> (r: Result<
    FieldPolicy,
    SchemaError,
>)
    ensures
        match r {
            Ok(policy) => classification(field@, index as nat, default_wrap) == Ok::<
                PolicyView,
                SchemaError,
            >(policy@),
            Err(e) => classification(field@, index as nat, default_wrap) == Err::<
                PolicyView,
                SchemaError,
            >(e),
        },
{
    let nullable = match is_type_option(&field.ty.shape) {
        Ok(nullable) => nullable,
        Err(e) => {
            return Err(e);
        },
    };
    let ghost dirs = field@.attrs;
    let mut wrap = default_wrap && !nullable;
    let mut redirect: Option<String> = None;
    let mut serde_skip = false;
    let mut guard: Option<String> = None;
    let mut i: usize = 0;
    while i < field.attrs.len()
        invariant
            i <= field.attrs.len(),
            dirs == directives(field.attrs@),
            dirs == field@.attrs,
            type_is_option(field@.ty.shape) == Ok::<bool, SchemaError>(nullable),
            !malformed(dirs.take(i as int)),
            wrap == match wrap_override(dirs.take(i as int)) {
                Some(w) => w,
                None => default_wrap && !nullable,
            },
            opt_text(redirect) == redirect_target(dirs.take(i as int)),
            serde_skip == skips_serializing(dirs.take(i as int)),
            opt_text(guard) == guard_of(dirs.take(i as int)),
        decreases field.attrs.len() - i,
    {
        proof {
            let before = dirs.take(i as int);
            let after = dirs.take(i + 1);
            assert(after.drop_last() =~= before);
            assert(after.last() == dirs[i as int]);
            assert(dirs[i as int] == field.attrs@[i as int]@);
            assert(forall|j: int| 0 <= j < i ==> before[j] == after[j]);
            if malformed(before) {
                let k = choose|k: int| 0 <= k < before.len() && (#[trigger] before[k]) is Redirect && before[k]->Redirect_0.len() != 1;
                assert(after[k] is Redirect);
            }
            if skips_serializing(before) {
                let k = choose|k: int| 0 <= k < before.len() && (#[trigger] before[k]) is SerdeSkipNone;
                assert(after[k] is SerdeSkipNone);
            }
            if skips_serializing(after) {
                let k = choose|k: int| 0 <= k < after.len() && (#[trigger] after[k]) is SerdeSkipNone;
                if k < i {
                    assert(before[k] is SerdeSkipNone);
                }
            }
            if malformed(after) {
                let k = choose|k: int| 0 <= k < after.len() && (#[trigger] after[k]) is Redirect && after[k]->Redirect_0.len() != 1;
                if k < i {
                    assert(before[k] is Redirect);
                }
            }
        }
        match &field.attrs[i] {
            Directive::Redirect(args) => {
                if args.len() != 1 {
                    proof {
                        assert(dirs[i as int] is Redirect);
                        assert(dirs[i as int]->Redirect_0.len() != 1);
                        assert(malformed(dirs));
                    }
                    return Err(SchemaError::MalformedDirective);
                }
                redirect = Some(args[0].clone());
                wrap = false;
            },
            Directive::SkipWrap => {
                wrap = false;
            },
            Directive::Wrap => {
                wrap = true;
            },
            Directive::SerdeSkipNone => {
                serde_skip = true;
                assert(dirs.take(i + 1)[i as int] is SerdeSkipNone);
            },
            Directive::Guard(expr) => {
                guard = Some(expr.clone());
            },
            Directive::Other(_) => {},
        }
        i += 1;
    }
    assert(dirs.take(i as int) =~= dirs);
    let field_ident = match &field.ident {
        Some(name) => FieldIdent::Named(name.clone()),
        None => FieldIdent::Index(index),
    };
    Ok(
        FieldPolicy {
            wrap,
            redirect,
            already_nullable: nullable,
            serde_skip_if_absent: serde_skip,
            guard,
            field_ident,
        },
    )
}

/// The policies of `fields`, in their order; or the error of the first
/// field that has none.
pub open spec fn classifications(fields: Seq<FieldView>, default_wrap: bool) -> Result<
    Seq<PolicyView>,
    SchemaError,
>
    decreases fields.len(),
{
    if fields.len() == 0 {
        Ok(Seq::empty())
    } else {
        match classifications(fields.drop_last(), default_wrap) {
            Err(e) => Err(e),
            Ok(front) => match classification(
                fields.last(),
                (fields.len() - 1) as nat,
                default_wrap,
            ) {
                Err(e) => Err(e),
                Ok(policy) => Ok(front.push(policy)),
            },
        }
    }
}

/// Classifies every field of a record, once.
pub fn classify_fields(fields: &Vec<FieldDescriptor>, default_wrap: bool) -> (r: Result<
    Vec<FieldPolicy>,
    SchemaError,
>)
    ensures
        match r {
            Ok(found) => classifications(crate::schema::fields(fields@), default_wrap) == Ok::<
                Seq<PolicyView>,
                SchemaError,
            >(policies(found@)),
            Err(e) => classifications(crate::schema::fields(fields@), default_wrap) == Err::<
                Seq<PolicyView>,
                SchemaError,
            >(e),
        },
{
    let ghost all = crate::schema::fields(fields@);
    let mut found: Vec<FieldPolicy> = Vec::new();
    let mut i: usize = 0;
    assert(all.take(0).len() == 0);
    assert(policies(found@) =~= Seq::empty());
    while i < fields.len()
        invariant
            i <= fields.len(),
            all == crate::schema::fields(fields@),
            classifications(all.take(i as int), default_wrap) == Ok::<Seq<PolicyView>, SchemaError>(
                policies(found@),
            ),
        decreases fields.len() - i,
    {
        proof {
            assert(all.take(i + 1).drop_last() =~= all.take(i as int));
            assert(all.take(i + 1).last() == fields@[i as int]@);
        }
        match classify_field(&fields[i], i, default_wrap) {
            Ok(policy) => {
                let ghost before = policies(found@);
                found.push(policy);
                assert(policies(found@) =~= before.push(policy@));
            },
            Err(e) => {
                proof {
                    lemma_failure_persists(all, i + 1, default_wrap);
                }
                return Err(e);
            },
        }
        i += 1;
    }
    assert(all.take(i as int) =~= all);
    Ok(found)
}

/// Once a prefix of the fields has failed, so has every longer one, with
/// the same error.
pub proof fn lemma_failure_persists(fields: Seq<FieldView>, n: int, default_wrap: bool)
    requires
        0 <= n <= fields.len(),
        classifications(fields.take(n), default_wrap) is Err,
    ensures
        classifications(fields, default_wrap) == classifications(fields.take(n), default_wrap),
    decreases fields.len() - n,
{
    if n == fields.len() {
        assert(fields.take(n) =~= fields);
    } else {
        assert(fields.take(n + 1).drop_last() =~= fields.take(n));
        lemma_failure_persists(fields, n + 1, default_wrap);
    }
}

/// The directives that stay on a field: all but those that the classifier
/// consumes, in their order.
pub open spec fn stripped(dirs: Seq<DirectiveView>) -> Seq<DirectiveView>
    decreases dirs.len(),
{
    if dirs.len() == 0 {
        dirs
    } else if is_helper(dirs.last()) {
        stripped(dirs.drop_last())
    } else {
        stripped(dirs.drop_last()).push(dirs.last())
    }
}

/// Copies the directives that stay on a field.
pub fn remove_helper_attributes(attrs: &Vec<Directive>) -> (r: Vec<Directive>)
    ensures
        directives(r@) == stripped(directives(attrs@)),
{
    let ghost dirs = directives(attrs@);
    let mut kept: Vec<Directive> = Vec::new();
    let mut i: usize = 0;
    while i < attrs.len()
        invariant
            i <= attrs.len(),
            dirs == directives(attrs@),
            directives(kept@) == stripped(dirs.take(i as int)),
        decreases attrs.len() - i,
    {
        proof {
            assert(dirs.take(i + 1).drop_last() =~= dirs.take(i as int));
            assert(dirs.take(i + 1).last() == attrs@[i as int]@);
        }
        match &attrs[i] {
            Directive::Redirect(_) | Directive::SkipWrap | Directive::Wrap | Directive::SerdeSkipNone => {},
            other => {
                let ghost before = directives(kept@);
                let copy = other.clone();
                kept.push(copy);
                assert(directives(kept@) =~= before.push(copy@));
            },
        }
        i += 1;
    }
    assert(dirs.take(i as int) =~= dirs);
    kept
}

} // verus!
