//! The declarations of a type map as the registry builder reads them: items
//! with their attributes, already taken apart.

use crate::source::{DiagnosticError, DiagnosticModel, SourceId, Span};
use crate::trait_bounds::Generics;
use crate::type_expr::TypeExpr;
use vstd::prelude::*;
use vstd::string::*;

verus! {

/// Why a piece of source text could not be read.
pub struct SyntaxError {
    pub span: Span,
    pub message: String,
}

impl SyntaxError {
    /// The diagnostic that reports the syntax error.
    pub open spec fn diagnostic(&self) -> DiagnosticModel {
        DiagnosticModel {
            src_id: SourceId { id: None },
            span: self.span,
            message: self.message@,
            notes: Seq::empty(),
            internal: false,
        }
    }

    /// The diagnostic that reports the syntax error.
    pub fn to_diagnostic(&self) -> (r: DiagnosticError)
        ensures
            r@ == self.diagnostic(),
    {
        DiagnosticError::new(self.span, self.message.as_str())
    }
}

/// A literal: the text of its token and, for a string literal, the string it stands for.
pub struct Lit {
    pub token: String,
    pub str_value: Option<String>,
}

/// What stands inside the parentheses of a list attribute.
pub enum NestedMeta {
    /// `name = literal`.
    NameValue { ident: String, lit: Lit },
    /// Anything else.
    Other,
}

/// The structured form of an attribute.
pub enum Meta {
    /// `name`.
    Word { ident: String },
    /// `name(..)`.
    List { ident: String, nested: Vec<NestedMeta> },
    /// `name = literal`.
    NameValue { ident: String, lit: Lit },
}

/// An attribute of an item.
pub struct Attribute {
    pub span: Span,
    /// The token text of the attribute's path; for a plain name, the name.
    pub path: String,
    /// The structured form, or why the attribute has none.
    pub meta: Result<Meta, SyntaxError>,
    /// The token text of the whole attribute.
    pub text: String,
}

/// One generic argument of a trait path: the type where it is one.
pub struct TraitArgument {
    pub span: Span,
    pub ty: Option<TypeExpr>,
}

/// The arguments of a segment of a trait path.
pub enum TraitArguments {
    Absent,
    AngleBracketed { args: Vec<TraitArgument> },
    Parenthesized,
}

/// A segment of a trait path.
pub struct TraitSegment {
    pub ident: String,
    pub arguments_span: Span,
    pub arguments: TraitArguments,
}

/// The path of the trait that an `impl` implements.
pub struct TraitPath {
    pub span: Span,
    pub leading_colon: bool,
    pub segments: Vec<TraitSegment>,
}

/// An item inside an `impl`.
pub enum ImplItem {
    /// `type Name = Type;`
    Type { ident: String, ty: TypeExpr },
    /// Anything else.
    Other,
}

/// An `impl` block.
pub struct ItemImpl {
    pub trait_: Option<TraitPath>,
    pub generics: Generics,
    pub self_ty: TypeExpr,
    pub items: Vec<ImplItem>,
}

/// What kind of item a declaration is.
pub enum ItemKind {
    Mod { ident: String },
    Impl(ItemImpl),
    Trait { ident: String },
    Macro,
    Other,
}

/// One declaration of a type map.
pub struct Item {
    pub span: Span,
    pub attrs: Vec<Attribute>,
    pub kind: ItemKind,
    /// The token text of the whole declaration.
    pub tokens: String,
}

} // verus!
