//! Names of types: compact strings, unique names and names with a source position.

use crate::source::{Ident, SourceId, Span};
use crate::text::same_text;
use smol_str::SmolStr;
use vstd::std_specs::cmp::PartialEqSpecImpl;
use vstd::prelude::*;
use vstd::string::*;

verus! {

/// `smol_str::SmolStr`, a string that is cheap to copy. Nothing of its
/// inside is known here; what it holds goes by the name `smol_chars`.
#[verifier::external_type_specification]
#[verifier::external_body]
pub struct ExSmolStr(smol_str::SmolStr);

/// The characters that a compact string holds.
pub uninterp spec fn smol_chars(s: SmolStr) -> Seq<char>;

/// `SmolStr::new` on a string slice: the compact string holds the characters
/// of the slice.
#[verifier::external_body]
pub(crate) fn smol_new(text: &str) -> (r: SmolStr)
    ensures
        smol_chars(r) == text@,
{
    SmolStr::new(text)
}

/// `SmolStr::as_str`: the slice holds the characters of the compact string.
#[verifier::external_body]
pub(crate) fn smol_as_str(s: &SmolStr) -> (r: &str)
    ensures
        r@ == smol_chars(*s),
{
    s.as_str()
}

/// The delimiter between a type's name and the suffix that makes it unique.
pub open spec fn unique_delimiter() -> Seq<char> {
    seq!['\0']
}

/// The unique name made of a type's name and a suffix.
pub open spec fn unique_typename(name: Seq<char>, suffix: Seq<char>) -> Seq<char> {
    name + unique_delimiter() + suffix
}

/// The name of a type under an optional suffix: the bare name where there is none.
pub open spec fn unique_typename_if_need(name: Seq<char>, suffix: Option<Seq<char>>) -> Seq<char> {
    match suffix {
        Some(s) => unique_typename(name, s),
        None => name,
    }
}

/// Joins a type's name and a suffix by a delimiter that no type name holds.
pub fn make_unique_typename(not_unique_name: &str, suffix_to_make_unique: &str) -> (r: String)
    ensures
        r@ == unique_typename(not_unique_name@, suffix_to_make_unique@),
{
    let mut out = String::from_str(not_unique_name);
    out.append("\0");
    proof {
        reveal_strlit("\0");
        assert("\0"@ =~= unique_delimiter());
    }
    out.append(suffix_to_make_unique);
    out
}

/// The unique name of a type: its name where no suffix is given, the name
/// joined with the suffix otherwise.
pub fn make_unique_typename_if_need(rust_typename: String, suffix: Option<String>) -> (r: String)
    ensures
        r@ == unique_typename_if_need(
            rust_typename@,
            match suffix {
                Some(s) => Some(s@),
                None => None,
            },
        ),
{
    match suffix {
        Some(s) => make_unique_typename(rust_typename.as_str(), s.as_str()),
        None => rust_typename,
    }
}

/// The name of a type and the place where it is written. Two names are
/// equal when their texts are; the places do not count.
pub struct TypeName {
    pub typename: SmolStr,
    pub span: (SourceId, Span),
}

impl TypeName {
    /// The name `tn` written at `span`.
    pub fn new(tn: &str, span: (SourceId, Span)) -> (r: TypeName)
        ensures
            smol_chars(r.typename) == tn@,
            r.span == span,
    {
        TypeName { typename: smol_new(tn), span }
    }

    /// The name that the identifier `id` of the source `src_id` gives.
    pub fn from_ident(id: &Ident, src_id: SourceId) -> (r: TypeName)
        ensures
            smol_chars(r.typename) == id.name@,
            r.span == (src_id, id.span),
    {
        TypeName::new(id.name.as_str(), (src_id, id.span))
    }

    /// The text of the name.
    pub fn as_str(&self) -> (r: &str)
        ensures
            r@ == smol_chars(self.typename),
    {
        smol_as_str(&self.typename)
    }

    /// The text of the name, as a string of its own.
    pub fn to_string(&self) -> (r: String)
        ensures
            r@ == smol_chars(self.typename),
    {
        String::from_str(self.as_str())
    }
}

impl PartialEq for TypeName {
    fn eq(&self, o: &TypeName) -> (r: bool) {
        same_text(self.as_str(), o.as_str())
    }
}

impl PartialEqSpecImpl for TypeName {
    open spec fn obeys_eq_spec() -> bool {
        true
    }

    open spec fn eq_spec(&self, o: &TypeName) -> bool {
        smol_chars(self.typename) == smol_chars(o.typename)
    }
}

/// A text and the place where it is written. Two of them are equal when
/// their texts are.
pub struct SpannedSmolStr {
    pub sp: Span,
    pub value: SmolStr,
}

impl SpannedSmolStr {
    /// The text.
    pub fn as_str(&self) -> (r: &str)
        ensures
            r@ == smol_chars(self.value),
    {
        smol_as_str(&self.value)
    }

    /// Whether the text is that of `other`.
    pub fn eq_smol_str(&self, other: &SmolStr) -> (r: bool)
        ensures
            r == (smol_chars(self.value) == smol_chars(*other)),
    {
        same_text(self.as_str(), smol_as_str(other))
    }
}

impl PartialEq for SpannedSmolStr {
    fn eq(&self, other: &SpannedSmolStr) -> (r: bool) {
        same_text(self.as_str(), other.as_str())
    }
}

impl PartialEqSpecImpl for SpannedSmolStr {
    open spec fn obeys_eq_spec() -> bool {
        true
    }

    open spec fn eq_spec(&self, other: &SpannedSmolStr) -> bool {
        smol_chars(self.value) == smol_chars(other.value)
    }
}

/// The parameter that a capability bound is about: borrowed from the
/// declaration, or made up from the canonical name of a bounded type.
pub enum TyParamRef<'a> {
    Ref(&'a Ident),
    Own(Ident),
}

impl<'a> TyParamRef<'a> {
    /// The identifier, whichever way it is held.
    pub open spec fn ident(&self) -> Ident {
        match *self {
            TyParamRef::Ref(x) => *x,
            TyParamRef::Own(x) => x,
        }
    }

    /// The identifier, whichever way it is held.
    pub fn as_ref(&self) -> (r: &Ident)
        ensures
            *r == self.ident(),
    {
        match self {
            TyParamRef::Ref(x) => x,
            TyParamRef::Own(x) => x,
        }
    }

    /// Whether two parameters have the same name.
    pub fn same_param(&self, o: &TyParamRef) -> (r: bool)
        ensures
            r == (self.ident().name@ == o.ident().name@),
    {
        self.as_ref().name == o.as_ref().name
    }
}

} // verus!
