//! The names by which directives are written, and the directive that an
//! annotation of a given name stands for.
use crate::schema::{texts, Directive, DirectiveView, SchemaAttr, SchemaAttrView};
use vstd::prelude::*;

verus! {

/// The name of the directive that redirects a field to another type.
pub open spec fn rename_attribute() -> Seq<char> {
    "optional_rename"@
}

/// The name of the directive that keeps a field from being wrapped.
pub open spec fn skip_wrap_attribute() -> Seq<char> {
    "optional_skip_wrap"@
}

/// The name of the directive that has a field wrapped.
pub open spec fn wrap_attribute() -> Seq<char> {
    "optional_wrap"@
}

/// The name of the directive that skips serializing a field while unset.
pub open spec fn serde_skip_attribute() -> Seq<char> {
    "optional_serde_skip_none"@
}

/// The name of a compilation guard.
pub open spec fn cfg_attribute() -> Seq<char> {
    "cfg"@
}

/// The name of a list of requested capabilities.
pub open spec fn derive_attribute() -> Seq<char> {
    "derive"@
}

/// The directive that an annotation of a field stands for: one of the five
/// that the classifier reads, if the annotation has its name, and else an
/// annotation that passes through as it was written.
pub open spec fn directive_named(
    name: Option<Seq<char>>,
    arguments: Seq<Seq<char>>,
    inner: Seq<char>,
    tokens: Seq<char>,
) -> DirectiveView {
    if name == Some(rename_attribute()) {
        DirectiveView::Redirect(arguments)
    } else if name == Some(skip_wrap_attribute()) {
        DirectiveView::SkipWrap
    } else if name == Some(wrap_attribute()) {
        DirectiveView::Wrap
    } else if name == Some(serde_skip_attribute()) {
        DirectiveView::SerdeSkipNone
    } else if name == Some(cfg_attribute()) {
        DirectiveView::Guard(inner)
    } else {
        DirectiveView::Other(tokens)
    }
}

/// The annotation of a record that an annotation of a given name stands
/// for: a list of capabilities, if it is named so, and else an annotation
/// that passes through as it was written.
pub open spec fn schema_attr_named(name: Option<Seq<char>>, paths: Seq<Seq<char>>, tokens: Seq<char>) -> SchemaAttrView {
    if name == Some(derive_attribute()) {
        SchemaAttrView::Derive(paths)
    } else {
        SchemaAttrView::Other(tokens)
    }
}

/// Whether `name` is the name `word`.
fn is_ident(name: &Option<String>, word: &str) -> (r: bool)
    ensures
        r == (crate::schema::opt_text(*name) == Some(word@)),
{
    match name {
        Some(name) => {
            let word = word.to_owned();
            *name == word
        },
        None => false,
    }
}

impl Directive {
    /// Reads one annotation of a field. `name` is the annotation's name,
    /// where it is a single identifier; `arguments` are the token trees
    /// between its parentheses, `inner` is all that stands between them, and
    /// `tokens` is the annotation as a whole, each as it was written.
    pub fn named(name: &Option<String>, arguments: Vec<String>, inner: String, tokens: String) -> (r:
        Directive)
        ensures
            r@ == directive_named(
                crate::schema::opt_text(*name),
                texts(arguments@),
                inner@,
                tokens@,
            ),
    {
        if is_ident(name, "optional_rename") {
            Directive::Redirect(arguments)
        } else if is_ident(name, "optional_skip_wrap") {
            Directive::SkipWrap
        } else if is_ident(name, "optional_wrap") {
            Directive::Wrap
        } else if is_ident(name, "optional_serde_skip_none") {
            Directive::SerdeSkipNone
        } else if is_ident(name, "cfg") {
            Directive::Guard(inner)
        } else {
            Directive::Other(tokens)
        }
    }
}

impl SchemaAttr {
    /// Reads one annotation of a record. `name` is the annotation's name,
    /// where it is a single identifier; `paths` are the paths that it lists,
    /// and `tokens` is the annotation as a whole, each as it was written.
    pub fn named(name: &Option<String>, paths: Vec<String>, tokens: String) -> (r: SchemaAttr)
        ensures
            r@ == schema_attr_named(crate::schema::opt_text(*name), texts(paths@), tokens@),
    {
        if is_ident(name, "derive") {
            SchemaAttr::Derive(paths)
        } else {
            SchemaAttr::Other(tokens)
        }
    }
}

} // verus!
