//! What a binding is generated for: classes, enums and interfaces of the
//! foreign side, with their methods.

use crate::source::{DiagnosticError, Ident, SourceId, Span};
use crate::type_expr::{types_model, TypeExpr, TypeModel};
use vstd::prelude::*;
use vstd::string::*;

verus! {

/// How a method receives its object.
#[derive(PartialEq, Eq, Structural, Clone, Copy, Debug)]
pub enum SelfTypeVariant {
    RptrMut,
    Rptr,
    Mut,
    Default,
}

impl SelfTypeVariant {
    /// True when the receiver cannot be changed through the call.
    pub fn is_read_only(self) -> (r: bool)
        ensures
            r == (self == SelfTypeVariant::Default || self == SelfTypeVariant::Rptr),
    {
        match self {
            SelfTypeVariant::RptrMut | SelfTypeVariant::Mut => false,
            SelfTypeVariant::Default | SelfTypeVariant::Rptr => true,
        }
    }
}

/// Who may call a method.
#[derive(PartialEq, Eq, Structural, Clone, Copy, Debug)]
pub enum MethodAccess {
    Private,
    Public,
    Protected,
}

/// What kind of method a method is.
#[derive(PartialEq, Eq, Structural, Clone, Copy, Debug)]
pub enum MethodVariant {
    Constructor,
    Method(SelfTypeVariant),
    StaticMethod,
}

/// One argument of a function declaration.
pub enum FnArg {
    /// `&self` or `&mut self`.
    SelfRef,
    /// `self`.
    SelfValue,
    /// A pattern with its type.
    Captured { ty: TypeExpr },
    /// A pattern without a type.
    Inferred,
    /// A type without a pattern.
    Ignored(TypeExpr),
}

/// The declared type of an argument, where it has one.
pub open spec fn declared_type(a: FnArg) -> Option<TypeExpr> {
    match a {
        FnArg::Captured { ty } => Some(ty),
        FnArg::Ignored(ty) => Some(ty),
        _ => None,
    }
}

/// The declared type of the argument `a`, which is neither a receiver nor an
/// argument without a type.
pub fn fn_arg_type(a: &FnArg) -> (r: &TypeExpr)
    requires
        declared_type(*a) is Some,
    ensures
        declared_type(*a) == Some(*r),
{
    match a {
        FnArg::Captured { ty } => ty,
        FnArg::Ignored(ty) => ty,
        _ => vstd::pervasive::unreached(),
    }
}

/// What a function returns.
pub enum ReturnType {
    /// Nothing is written: the unit type.
    Default,
    /// The written type.
    Type(TypeExpr),
}

/// The declaration of a function: where it stands, what it takes and what it returns.
pub struct FnDecl {
    pub span: Span,
    pub inputs: Vec<FnArg>,
    pub output: ReturnType,
}

/// A path to an item of the host language.
pub struct RustPath {
    pub span: Span,
    pub segments: Vec<String>,
}

/// A method of a class of the foreign side.
pub struct ForeignerMethod {
    pub variant: MethodVariant,
    pub rust_id: RustPath,
    pub fn_decl: FnDecl,
    pub name_alias: Option<Ident>,
    pub access: MethodAccess,
    pub doc_comments: Vec<String>,
}

impl ForeignerMethod {
    /// The name the method goes by on the foreign side.
    pub open spec fn spec_short_name(&self) -> Seq<char> {
        match self.name_alias {
            Some(name) => name.name@,
            None => if self.rust_id.segments@.len() == 0 {
                Seq::empty()
            } else {
                self.rust_id.segments@[self.rust_id.segments@.len() - 1]@
            },
        }
    }

    /// The name the method goes by on the foreign side: its alias where it
    /// has one, else the last segment of its path, else nothing.
    pub fn short_name(&self) -> (r: String)
        ensures
            r@ == self.spec_short_name(),
    {
        match &self.name_alias {
            Some(name) => name.name.clone(),
            None => {
                let n = self.rust_id.segments.len();
                if n == 0 {
                    String::new()
                } else {
                    self.rust_id.segments[n - 1].clone()
                }
            },
        }
    }

    /// Where the method's path is written.
    pub fn span(&self) -> (r: Span)
        ensures
            r == self.rust_id.span,
    {
        self.rust_id.span
    }

    /// Whether the method is a constructor that stands for no function.
    pub fn is_dummy_constructor(&self) -> (r: bool)
        ensures
            r == (self.rust_id.segments@.len() == 0),
    {
        self.rust_id.segments.len() == 0
    }
}

/// The type a class wraps and the type its constructors return.
pub struct SelfTypeDesc {
    pub self_type: TypeExpr,
    pub constructor_ret_type: TypeExpr,
}

/// A class of the foreign side.
pub struct ForeignerClassInfo {
    pub src_id: SourceId,
    pub name: Ident,
    pub methods: Vec<ForeignerMethod>,
    pub self_desc: Option<SelfTypeDesc>,
    pub foreigner_code: String,
    pub doc_comments: Vec<String>,
    pub copy_derived: bool,
}

/// Whether one of the first `n` methods takes the object.
pub open spec fn has_methods(methods: Seq<ForeignerMethod>, n: nat) -> bool {
    exists|i: int| 0 <= i < n && i < methods.len() && (#[trigger] methods[i]).variant is Method
}

/// What is wrong with a class, if anything: it has methods that take the
/// object but no type for the object, or it has such a type and nothing else.
pub open spec fn class_fault(class: ForeignerClassInfo) -> Option<Seq<char>> {
    if class.self_desc is None && has_methods(class.methods@, class.methods@.len()) {
        Some("class "@ + class.name.name@ + " has methods, but no self_type defined"@)
    } else if class.self_desc is Some && class.methods@.len() == 0 {
        Some("class "@ + class.name.name@ + " has only self_type, but no methods or constructors"@)
    } else {
        None
    }
}

impl ForeignerClassInfo {
    /// Where the class's name is written.
    pub fn span(&self) -> (r: Span)
        ensures
            r == self.name.span,
    {
        self.name.span
    }

    /// The type the class wraps; the unit type where it wraps none.
    pub fn self_type_as_ty(&self) -> (r: TypeExpr)
        ensures
            r@ == match self.self_desc {
                Some(desc) => desc.self_type@,
                None => TypeModel::Tuple { elems: Seq::empty() },
            },
    {
        match &self.self_desc {
            Some(desc) => desc.self_type.clone_type(),
            None => {
                let elems: Vec<TypeExpr> = Vec::new();
                assert(types_model(elems@) =~= Seq::<TypeModel>::empty());
                TypeExpr::Tuple { elems }
            },
        }
    }

    /// Checks what every binding generator asks of a class: methods that take
    /// the object need a type for the object, and such a type needs at least
    /// one method or constructor.
    pub fn validate_class(&self) -> (r: Result<(), DiagnosticError>)
        ensures
            match r {
                Ok(_) => class_fault(*self) is None,
                Err(e) => class_fault(*self) == Some(e@.message) && e@.src_id == self.src_id
                    && e@.span == self.name.span && e@.notes.len() == 0,
            },
    {
        let mut has_constructor = false;
        let mut has_methods_ = false;
        let mut has_static_methods = false;
        let mut i: usize = 0;
        while i < self.methods.len()
            invariant
                i <= self.methods.len(),
                has_methods_ == has_methods(self.methods@, i as nat),
                (has_constructor || has_methods_ || has_static_methods) == (i > 0),
            decreases self.methods.len() - i,
        {
            match self.methods[i].variant {
                MethodVariant::Constructor => {
                    has_constructor = true;
                },
                MethodVariant::Method(_) => {
                    has_methods_ = true;
                },
                MethodVariant::StaticMethod => {
                    has_static_methods = true;
                },
            }
            i += 1;
        }
        let self_type_is_some = self.self_desc.is_some();
        if !self_type_is_some && has_methods_ {
            let mut message = String::from_str("class ");
            message.append(self.name.name.as_str());
            message.append(" has methods, but no self_type defined");
            Err(DiagnosticError::new_in(self.src_id, self.span(), message.as_str()))
        } else if self_type_is_some && !has_static_methods && !has_constructor && !has_methods_ {
            let mut message = String::from_str("class ");
            message.append(self.name.name.as_str());
            message.append(" has only self_type, but no methods or constructors");
            Err(DiagnosticError::new_in(self.src_id, self.span(), message.as_str()))
        } else {
            Ok(())
        }
    }
}

/// An item of an enum of the foreign side.
pub struct ForeignEnumItem {
    pub name: Ident,
    pub rust_name: RustPath,
    pub doc_comments: Vec<String>,
}

/// An enum of the foreign side.
pub struct ForeignEnumInfo {
    pub src_id: SourceId,
    pub name: Ident,
    pub items: Vec<ForeignEnumItem>,
    pub doc_comments: Vec<String>,
}

impl ForeignEnumInfo {
    /// The name of the enum on the host side.
    pub fn rust_enum_name(&self) -> (r: String)
        ensures
            r@ == self.name.name@,
    {
        self.name.name.clone()
    }

    /// Where the enum's name is written.
    pub fn span(&self) -> (r: Span)
        ensures
            r == self.name.span,
    {
        self.name.span
    }
}

/// A method of an interface of the foreign side.
pub struct ForeignInterfaceMethod {
    pub name: Ident,
    pub rust_name: RustPath,
    pub fn_decl: FnDecl,
    pub doc_comments: Vec<String>,
}

/// An interface of the foreign side: a trait that foreign code implements.
pub struct ForeignInterface {
    pub src_id: SourceId,
    pub name: Ident,
    pub self_type: RustPath,
    pub doc_comments: Vec<String>,
    pub items: Vec<ForeignInterfaceMethod>,
}

impl ForeignInterface {
    /// Where the interface's name is written.
    pub fn span(&self) -> (r: Span)
        ensures
            r == self.name.span,
    {
        self.name.span
    }

    /// The source and the place of the interface's name.
    pub fn src_id_span(&self) -> (r: (SourceId, Span))
        ensures
            r == (self.src_id, self.name.span),
    {
        (self.src_id, self.name.span)
    }
}

/// Something that a binding is generated for.
pub enum ItemToExpand {
    Class(ForeignerClassInfo),
    Interface(ForeignInterface),
    Enum(ForeignEnumInfo),
}

} // verus!
