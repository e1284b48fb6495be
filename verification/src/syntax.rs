//! Reading type expressions from source text. The text is parsed by `syn`,
//! one level at a time; the tree is built here.
//!
//! What lies below a level is handed from `syn` to this module as the text
//! of its tokens, printed by `proc_macro2` with single spaces between the
//! tokens, and is parsed again for the next level. `proc_macro2` is built
//! without its bridge to the compiler, so it lexes and prints by itself
//! wherever it runs.
//!
//! `syn` panics on a trait object that is bound by `for<..>` and whose first
//! bound is a lifetime, as in `for<'a> dyn 'b + Trait`, and it calls itself
//! for each nested part of a type, as deep as the text is nested. No text in
//! which a lifetime can follow a `dyn`, and none with more than a few parts
//! that can be nested, is handed to `syn`: see [`readable`].

use crate::type_expr::{
    args_model, segments_model, types_model, ArgModel, GenericArgument, PathSegment, SegmentModel,
    TypeExpr, TypeModel,
};
use quote::ToTokens;
use vstd::prelude::*;
use vstd::string::*;

verus! {

/// The models of a list of texts.
pub open spec fn texts_model(texts: Seq<String>) -> Seq<Seq<char>> {
    Seq::new(texts.len(), |i: int| texts[i]@)
}

/// Which kind of type a parsed type is.
#[derive(Clone, Copy, PartialEq, Eq, Structural, Debug)]
pub enum TypeKind {
    Path,
    Reference,
    Slice,
    Tuple,
    Pointer,
    Array,
    Paren,
    Other,
}

/// The outermost level of a parsed type: its kind and the text of its tokens.
pub struct TypeHead {
    pub kind: TypeKind,
    pub text: String,
}

/// Mathematical model of [`TypeHead`].
pub struct TypeHeadModel {
    pub kind: TypeKind,
    pub text: Seq<char>,
}

impl View for TypeHead {
    type V = TypeHeadModel;

    open spec fn view(&self) -> TypeHeadModel {
        TypeHeadModel { kind: self.kind, text: self.text@ }
    }
}

/// A parsed path type; each segment is given as token text.
pub struct PathParts {
    /// Whether the path is qualified, as in `<T as Trait>::Item`.
    pub qualified: bool,
    /// Whether the path starts with `::`.
    pub global: bool,
    pub segments: Vec<String>,
}

/// Mathematical model of [`PathParts`].
pub struct PathPartsModel {
    pub qualified: bool,
    pub global: bool,
    pub segments: Seq<Seq<char>>,
}

impl View for PathParts {
    type V = PathPartsModel;

    open spec fn view(&self) -> PathPartsModel {
        PathPartsModel {
            qualified: self.qualified,
            global: self.global,
            segments: texts_model(self.segments@),
        }
    }
}

/// A parsed reference type; the target is given as token text.
pub struct ReferenceParts {
    pub lifetime: Option<String>,
    pub mutable: bool,
    pub elem: String,
}

/// Mathematical model of [`ReferenceParts`].
pub struct ReferencePartsModel {
    pub lifetime: Option<Seq<char>>,
    pub mutable: bool,
    pub elem: Seq<char>,
}

impl View for ReferenceParts {
    type V = ReferencePartsModel;

    open spec fn view(&self) -> ReferencePartsModel {
        ReferencePartsModel {
            lifetime: match self.lifetime {
                Some(l) => Some(l@),
                None => None,
            },
            mutable: self.mutable,
            elem: self.elem@,
        }
    }
}

/// A parsed raw pointer type; the target is given as token text.
pub struct PointerParts {
    pub mutable: bool,
    pub elem: String,
}

/// Mathematical model of [`PointerParts`].
pub struct PointerPartsModel {
    pub mutable: bool,
    pub elem: Seq<char>,
}

impl View for PointerParts {
    type V = PointerPartsModel;

    open spec fn view(&self) -> PointerPartsModel {
        PointerPartsModel { mutable: self.mutable, elem: self.elem@ }
    }
}

/// A parsed array type; the element and the length are given as token text.
pub struct ArrayParts {
    pub elem: String,
    pub len: String,
}

/// Mathematical model of [`ArrayParts`].
pub struct ArrayPartsModel {
    pub elem: Seq<char>,
    pub len: Seq<char>,
}

impl View for ArrayParts {
    type V = ArrayPartsModel;

    open spec fn view(&self) -> ArrayPartsModel {
        ArrayPartsModel { elem: self.elem@, len: self.len@ }
    }
}

/// The model of an optional text.
pub open spec fn optional_text(text: Option<String>) -> Option<Seq<char>> {
    match text {
        Some(t) => Some(t@),
        None => None,
    }
}

/// The model of an optional list of texts.
pub open spec fn optional_texts(texts: Option<Vec<String>>) -> Option<Seq<Seq<char>>> {
    match texts {
        Some(t) => Some(texts_model(t@)),
        None => None,
    }
}

/// The generic arguments of a parsed path segment, each given as token text.
pub enum ArgumentsParts {
    Absent,
    AngleBracketed { turbofish: bool, args: Vec<String> },
    Parenthesized,
}

/// Mathematical model of [`ArgumentsParts`].
pub enum ArgumentsPartsModel {
    Absent,
    AngleBracketed { turbofish: bool, args: Seq<Seq<char>> },
    Parenthesized,
}

/// A parsed path segment.
pub struct SegmentParts {
    pub ident: String,
    pub arguments: ArgumentsParts,
}

/// Mathematical model of [`SegmentParts`].
pub struct SegmentPartsModel {
    pub ident: Seq<char>,
    pub arguments: ArgumentsPartsModel,
}

impl View for SegmentParts {
    type V = SegmentPartsModel;

    open spec fn view(&self) -> SegmentPartsModel {
        SegmentPartsModel {
            ident: self.ident@,
            arguments: match self.arguments {
                ArgumentsParts::Absent => ArgumentsPartsModel::Absent,
                ArgumentsParts::AngleBracketed { turbofish, args } => {
                    ArgumentsPartsModel::AngleBracketed { turbofish, args: texts_model(args@) }
                },
                ArgumentsParts::Parenthesized => ArgumentsPartsModel::Parenthesized,
            },
        }
    }
}

/// A parsed generic argument; a type argument is given as token text.
pub enum ArgumentParts {
    Lifetime(String),
    Type(String),
    Binding { ident: String, ty: String },
    Other(String),
}

/// Mathematical model of [`ArgumentParts`].
pub enum ArgumentPartsModel {
    Lifetime(Seq<char>),
    Type(Seq<char>),
    Binding { ident: Seq<char>, ty: Seq<char> },
    Other(Seq<char>),
}

impl View for ArgumentParts {
    type V = ArgumentPartsModel;

    open spec fn view(&self) -> ArgumentPartsModel {
        match self {
            ArgumentParts::Lifetime(l) => ArgumentPartsModel::Lifetime(l@),
            ArgumentParts::Type(t) => ArgumentPartsModel::Type(t@),
            ArgumentParts::Binding { ident, ty } => ArgumentPartsModel::Binding {
                ident: ident@,
                ty: ty@,
            },
            ArgumentParts::Other(o) => ArgumentPartsModel::Other(o@),
        }
    }
}

/// Whether a character lies outside of the printed ASCII characters. Every
/// character that separates tokens does.
pub open spec fn is_blank(c: char) -> bool {
    c as u32 <= 0x20 || c as u32 > 0x7e
}

/// Whether the letters `dyn` stand at position `i` of a text.
pub open spec fn dyn_at(text: Seq<char>, i: int) -> bool {
    0 <= i && i + 3 <= text.len() && text[i] == 'd' && text[i + 1] == 'y' && text[i + 2] == 'n'
}

/// Whether the letters `dyn` stand before position `p`, with nothing but
/// blank characters between them and `p`.
pub open spec fn dyn_before(text: Seq<char>, p: int) -> bool {
    exists|i: int| #[trigger]
        dyn_at(text, i) && i + 3 <= p && forall|k: int|
            i + 3 <= k < p ==> is_blank(#[trigger] text[k])
}

/// Whether a `/` stands before position `p`, and the letters `dyn` before
/// it with nothing but blank characters between: a comment may start there,
/// and whatever follows it may follow the `dyn`.
pub open spec fn comment_after_dyn(text: Seq<char>, p: int) -> bool {
    exists|q: int| 0 <= q < p && text[q] == '/' && #[trigger] dyn_before(text, q)
}

/// Whether what stands at position `p` may follow the letters `dyn`:
/// nothing but blank characters stands between them, or nothing but blank
/// characters up to a `/`.
pub open spec fn follows_dyn(text: Seq<char>, p: int) -> bool {
    dyn_before(text, p) || comment_after_dyn(text, p)
}

/// Whether one of the first `n` characters is an apostrophe that may follow
/// the letters `dyn`.
pub open spec fn lifetime_after_dyn(text: Seq<char>, n: int) -> bool {
    exists|j: int| 0 <= j < n && text[j] == '\'' && #[trigger] follows_dyn(text, j)
}

/// How many characters of a text may open a nested part: `syn` calls itself
/// for each nested part of a type, and the stack has to hold those calls.
pub const MAX_TYPE_OPENERS: usize = 32;

/// Whether a character is a letter, a digit or `_` of ASCII.
pub open spec fn is_word(c: char) -> bool {
    (0x30 <= c as u32 <= 0x39) || (0x41 <= c as u32 <= 0x5a) || (0x61 <= c as u32 <= 0x7a) || c
        == '_'
}

/// Whether a character opens no nested part wherever it stands: a blank
/// ASCII character, or one of `, : ' ) ] } >`.
pub open spec fn is_flat(c: char) -> bool {
    c as u32 <= 0x20 || c == ',' || c == ':' || c == '\'' || c == ')' || c == ']' || c == '}' || c
        == '>'
}

/// Whether a `;` or a `{` stands before position `k`: only behind one of
/// them an expression is read, in which a word may open a nested part.
pub open spec fn in_expression(text: Seq<char>, k: int) -> bool {
    exists|j: int| 0 <= j < k && (#[trigger] text[j] == ';' || text[j] == '{')
}

/// Whether the character at position `k` may open a nested part: it is
/// neither flat nor of a word, or it starts a word where an expression is
/// read.
pub open spec fn opens_at(text: Seq<char>, k: int) -> bool {
    if is_word(text[k]) {
        in_expression(text, k) && (k == 0 || !is_word(text[k - 1]))
    } else {
        !is_flat(text[k])
    }
}

/// How many of the first `n` characters may open a nested part.
pub open spec fn openers(text: Seq<char>, n: nat) -> nat
    decreases n,
{
    if n == 0 || n > text.len() {
        0
    } else {
        openers(text, (n - 1) as nat) + if opens_at(text, n - 1) {
            1nat
        } else {
            0nat
        }
    }
}

/// Whether a text is handed to `syn`. No apostrophe may follow the letters
/// `dyn`, so no lifetime is the first token behind a `dyn`; and at most
/// [`MAX_TYPE_OPENERS`] of its characters may open a nested part.
pub open spec fn readable(text: Seq<char>) -> bool {
    !lifetime_after_dyn(text, text.len() as int) && openers(text, text.len()) <= MAX_TYPE_OPENERS
}

/// One more character between a `dyn` and the position behind it.
pub proof fn lemma_dyn_before_step(text: Seq<char>, p: int)
    requires
        0 <= p < text.len(),
    ensures
        dyn_before(text, p + 1) == ((dyn_before(text, p) && is_blank(text[p])) || dyn_at(
            text,
            p - 2,
        )),
{
    if dyn_before(text, p + 1) {
        let i = choose|i: int| #[trigger]
            dyn_at(text, i) && i + 3 <= p + 1 && forall|k: int|
                i + 3 <= k < p + 1 ==> is_blank(#[trigger] text[k]);
        if i + 3 <= p {
            assert(is_blank(text[p]));
            assert(dyn_at(text, i) && i + 3 <= p && forall|k: int|
                i + 3 <= k < p ==> is_blank(#[trigger] text[k]));
        } else {
            assert(i == p - 2);
        }
    }
    if dyn_before(text, p) && is_blank(text[p]) {
        let i = choose|i: int| #[trigger]
            dyn_at(text, i) && i + 3 <= p && forall|k: int|
                i + 3 <= k < p ==> is_blank(#[trigger] text[k]);
        assert(dyn_at(text, i) && i + 3 <= p + 1 && forall|k: int|
            i + 3 <= k < p + 1 ==> is_blank(#[trigger] text[k]));
    }
    if dyn_at(text, p - 2) {
        assert(dyn_at(text, p - 2) && (p - 2) + 3 <= p + 1 && forall|k: int|
            (p - 2) + 3 <= k < p + 1 ==> is_blank(#[trigger] text[k]));
    }
}

/// One more character behind a `/` that follows a `dyn`.
pub proof fn lemma_comment_after_dyn_step(text: Seq<char>, p: int)
    requires
        0 <= p < text.len(),
    ensures
        comment_after_dyn(text, p + 1) == (comment_after_dyn(text, p) || (text[p] == '/'
            && dyn_before(text, p))),
{
    if comment_after_dyn(text, p + 1) {
        let q = choose|q: int| 0 <= q < p + 1 && text[q] == '/' && #[trigger] dyn_before(text, q);
        if q < p {
            assert(comment_after_dyn(text, p));
        }
    }
    if comment_after_dyn(text, p) {
        let q = choose|q: int| 0 <= q < p && text[q] == '/' && #[trigger] dyn_before(text, q);
        assert(0 <= q < p + 1 && text[q] == '/' && dyn_before(text, q));
    }
    if text[p] == '/' && dyn_before(text, p) {
        assert(0 <= p < p + 1 && text[p] == '/' && dyn_before(text, p));
    }
}

/// More characters hold no fewer that may open a nested part.
pub proof fn lemma_openers_grow(text: Seq<char>, n: nat, m: nat)
    requires
        n <= m <= text.len(),
    ensures
        openers(text, n) <= openers(text, m),
    decreases m,
{
    if n < m {
        lemma_openers_grow(text, n, (m - 1) as nat);
    }
}

/// Tells whether a text is handed to `syn`.
pub fn is_readable(text: &str) -> (r: bool)
    ensures
        r == readable(text@),
{
    let n = text.unicode_len();
    let mut armed = false;
    let mut commented = false;
    let mut expression = false;
    let mut in_word = false;
    let mut count: usize = 0;
    let mut i: usize = 0;
    while i < n
        invariant
            i <= n,
            n == text@.len(),
            armed == dyn_before(text@, i as int),
            commented == comment_after_dyn(text@, i as int),
            expression == in_expression(text@, i as int),
            in_word == (i > 0 && is_word(text@[i - 1])),
            count == openers(text@, i as nat),
            count <= MAX_TYPE_OPENERS,
            !lifetime_after_dyn(text@, i as int),
        decreases n - i,
    {
        let c = text.get_char(i);
        if c == '\'' && (armed || commented) {
            assert(text@[i as int] == '\'' && follows_dyn(text@, i as int));
            return false;
        }
        let ends_dyn = i >= 2 && c == 'n' && text.get_char(i - 1) == 'y' && text.get_char(i - 2)
            == 'd';
        let code = c as u32;
        let blank = code <= 0x20 || code > 0x7e;
        let word = (0x30 <= code && code <= 0x39) || (0x41 <= code && code <= 0x5a) || (0x61
            <= code && code <= 0x7a) || c == '_';
        let flat = code <= 0x20 || c == ',' || c == ':' || c == '\'' || c == ')' || c == ']' || c
            == '}' || c == '>';
        let opens = if word {
            expression && !in_word
        } else {
            !flat
        };
        proof {
            lemma_dyn_before_step(text@, i as int);
            lemma_comment_after_dyn_step(text@, i as int);
            if lifetime_after_dyn(text@, i as int + 1) {
                let j = choose|j: int|
                    0 <= j < i + 1 && text@[j] == '\'' && #[trigger] follows_dyn(text@, j);
                if j < i {
                    assert(lifetime_after_dyn(text@, i as int));
                }
            }
            assert(ends_dyn == dyn_at(text@, i as int - 2));
            assert(opens == opens_at(text@, i as int));
            assert(in_expression(text@, i as int + 1) == (in_expression(text@, i as int) || c == ';'
                || c == '{')) by {
                if in_expression(text@, i as int + 1) {
                    let j = choose|j: int|
                        0 <= j < i + 1 && (#[trigger] text@[j] == ';' || text@[j] == '{');
                    if j < i {
                        assert(text@[j] == ';' || text@[j] == '{');
                    }
                }
                if in_expression(text@, i as int) {
                    let j = choose|j: int|
                        0 <= j < i && (#[trigger] text@[j] == ';' || text@[j] == '{');
                    assert(text@[j] == ';' || text@[j] == '{');
                }
                if c == ';' || c == '{' {
                    assert(text@[i as int] == ';' || text@[i as int] == '{');
                }
            }
        }
        commented = commented || (c == '/' && armed);
        armed = (armed && blank) || ends_dyn;
        expression = expression || c == ';' || c == '{';
        in_word = word;
        if opens {
            count += 1;
        }
        i += 1;
        if count > MAX_TYPE_OPENERS {
            proof {
                lemma_openers_grow(text@, i as nat, n as nat);
            }
            return false;
        }
    }
    true
}

/// What `syn` makes of a text read as a type: the kind of the type and the
/// text of its tokens, or the message of the syntax error.
pub uninterp spec fn syn_type_head(text: Seq<char>) -> Result<TypeHeadModel, Seq<char>>;

/// What `syn` makes of a text read as a path type; none where the text is none.
pub uninterp spec fn syn_path_parts(text: Seq<char>) -> Option<PathPartsModel>;

/// What `syn` makes of a text read as a reference type; none where the text is none.
pub uninterp spec fn syn_reference_parts(text: Seq<char>) -> Option<ReferencePartsModel>;

/// The token text of the element of the slice type that `syn` reads from a
/// text; none where the text is no slice type.
pub uninterp spec fn syn_slice_elem(text: Seq<char>) -> Option<Seq<char>>;

/// The token texts of the elements of the tuple type that `syn` reads from
/// a text; none where the text is no tuple type.
pub uninterp spec fn syn_tuple_elems(text: Seq<char>) -> Option<Seq<Seq<char>>>;

/// What `syn` makes of a text read as a raw pointer type; none where the text is none.
pub uninterp spec fn syn_pointer_parts(text: Seq<char>) -> Option<PointerPartsModel>;

/// What `syn` makes of a text read as an array type; none where the text is none.
pub uninterp spec fn syn_array_parts(text: Seq<char>) -> Option<ArrayPartsModel>;

/// The token text of the type inside the parenthesized type that `syn`
/// reads from a text; none where the text is no type in parentheses.
pub uninterp spec fn syn_paren_elem(text: Seq<char>) -> Option<Seq<char>>;

/// What `syn` makes of a text read as a path segment.
pub uninterp spec fn syn_segment_parts(text: Seq<char>) -> Result<SegmentPartsModel, Seq<char>>;

/// What `syn` makes of a text read as a generic argument.
pub uninterp spec fn syn_argument_parts(text: Seq<char>) -> Result<ArgumentPartsModel, Seq<char>>;

/// `syn::parse_str` for a `syn::Type`: which variant the parsed type is, and
/// the text of the type's tokens. A syntax error is handed out as its message.
/// Takes readable texts only: `syn` may panic on another.
#[verifier::external_body]
pub(crate) fn parse_type_head(text: &str) -> (r: Result<TypeHead, String>)
    requires
        readable(text@),
    ensures
        match r {
            Ok(head) => syn_type_head(text@) == Ok::<TypeHeadModel, Seq<char>>(head@),
            Err(message) => syn_type_head(text@) == Err::<TypeHeadModel, Seq<char>>(message@),
        },
{
    let ty = syn::parse_str::<syn::Type>(text).map_err(|e| e.to_string())?;
    let kind = match &ty {
        syn::Type::Path(_) => TypeKind::Path,
        syn::Type::Reference(_) => TypeKind::Reference,
        syn::Type::Slice(_) => TypeKind::Slice,
        syn::Type::Tuple(_) => TypeKind::Tuple,
        syn::Type::Ptr(_) => TypeKind::Pointer,
        syn::Type::Array(_) => TypeKind::Array,
        syn::Type::Paren(_) => TypeKind::Paren,
        _ => TypeKind::Other,
    };
    Ok(TypeHead { kind, text: ty.into_token_stream().to_string() })
}

/// `syn::parse_str` for a `syn::TypePath`: whether the path is qualified,
/// whether it starts with `::`, and the token text of each segment.
/// Takes readable texts only: `syn` may panic on another.
#[verifier::external_body]
pub(crate) fn parse_path_parts(text: &str) -> (r: Option<PathParts>)
    requires
        readable(text@),
    ensures
        match r {
            Some(parts) => syn_path_parts(text@) == Some(parts@),
            None => syn_path_parts(text@) is None,
        },
{
    let ty = syn::parse_str::<syn::TypePath>(text).ok()?;
    Some(PathParts {
        qualified: ty.qself.is_some(),
        global: ty.path.leading_colon.is_some(),
        segments: ty.path.segments.iter().map(|s| s.into_token_stream().to_string()).collect(),
    })
}

/// `syn::parse_str` for a `syn::TypeReference`: the name of the lifetime,
/// whether the reference is mutable, and the token text of the target.
/// Takes readable texts only: `syn` may panic on another.
#[verifier::external_body]
pub(crate) fn parse_reference_parts(text: &str) -> (r: Option<ReferenceParts>)
    requires
        readable(text@),
    ensures
        match r {
            Some(parts) => syn_reference_parts(text@) == Some(parts@),
            None => syn_reference_parts(text@) is None,
        },
{
    let ty = syn::parse_str::<syn::TypeReference>(text).ok()?;
    Some(ReferenceParts {
        lifetime: ty.lifetime.map(|l| l.ident.to_string()),
        mutable: ty.mutability.is_some(),
        elem: ty.elem.into_token_stream().to_string(),
    })
}

/// `syn::parse_str` for a `syn::TypeSlice`: the token text of the element.
/// Takes readable texts only: `syn` may panic on another.
#[verifier::external_body]
pub(crate) fn parse_slice_elem(text: &str) -> (r: Option<String>)
    requires
        readable(text@),
    ensures
        optional_text(r) == syn_slice_elem(text@),
{
    let ty = syn::parse_str::<syn::TypeSlice>(text).ok()?;
    Some(ty.elem.into_token_stream().to_string())
}

/// `syn::parse_str` for a `syn::TypeTuple`: the token text of each element.
/// Takes readable texts only: `syn` may panic on another.
#[verifier::external_body]
pub(crate) fn parse_tuple_elems(text: &str) -> (r: Option<Vec<String>>)
    requires
        readable(text@),
    ensures
        optional_texts(r) == syn_tuple_elems(text@),
{
    let ty = syn::parse_str::<syn::TypeTuple>(text).ok()?;
    Some(ty.elems.iter().map(|e| e.into_token_stream().to_string()).collect())
}

/// `syn::parse_str` for a `syn::TypePtr`: whether the pointer is `*mut`, and
/// the token text of the target.
/// Takes readable texts only: `syn` may panic on another.
#[verifier::external_body]
pub(crate) fn parse_pointer_parts(text: &str) -> (r: Option<PointerParts>)
    requires
        readable(text@),
    ensures
        match r {
            Some(parts) => syn_pointer_parts(text@) == Some(parts@),
            None => syn_pointer_parts(text@) is None,
        },
{
    let ty = syn::parse_str::<syn::TypePtr>(text).ok()?;
    Some(PointerParts {
        mutable: ty.mutability.is_some(),
        elem: ty.elem.into_token_stream().to_string(),
    })
}

/// `syn::parse_str` for a `syn::TypeArray`: the token text of the element
/// and the token text of the length.
/// Takes readable texts only: `syn` may panic on another.
#[verifier::external_body]
pub(crate) fn parse_array_parts(text: &str) -> (r: Option<ArrayParts>)
    requires
        readable(text@),
    ensures
        match r {
            Some(parts) => syn_array_parts(text@) == Some(parts@),
            None => syn_array_parts(text@) is None,
        },
{
    let ty = syn::parse_str::<syn::TypeArray>(text).ok()?;
    Some(ArrayParts {
        elem: ty.elem.into_token_stream().to_string(),
        len: ty.len.into_token_stream().to_string(),
    })
}

/// `syn::parse_str` for a `syn::TypeParen`: the token text of the type
/// inside the parentheses.
/// Takes readable texts only: `syn` may panic on another.
#[verifier::external_body]
pub(crate) fn parse_paren_elem(text: &str) -> (r: Option<String>)
    requires
        readable(text@),
    ensures
        optional_text(r) == syn_paren_elem(text@),
{
    let ty = syn::parse_str::<syn::TypeParen>(text).ok()?;
    Some(ty.elem.into_token_stream().to_string())
}

/// `syn::parse_str` for a `syn::PathSegment`: the name of the segment and the
/// variant of its arguments, each generic argument handed out as the text of
/// its tokens.
/// Takes readable texts only: `syn` may panic on another.
#[verifier::external_body]
pub(crate) fn parse_segment_parts(text: &str) -> (r: Result<SegmentParts, String>)
    requires
        readable(text@),
    ensures
        match r {
            Ok(parts) => syn_segment_parts(text@) == Ok::<SegmentPartsModel, Seq<char>>(parts@),
            Err(message) => syn_segment_parts(text@) == Err::<SegmentPartsModel, Seq<char>>(
                message@,
            ),
        },
{
    let segment = syn::parse_str::<syn::PathSegment>(text).map_err(|e| e.to_string())?;
    let arguments = match segment.arguments {
        syn::PathArguments::None => ArgumentsParts::Absent,
        syn::PathArguments::AngleBracketed(a) => ArgumentsParts::AngleBracketed {
            turbofish: a.colon2_token.is_some(),
            args: a.args.iter().map(|x| x.into_token_stream().to_string()).collect(),
        },
        syn::PathArguments::Parenthesized(_) => ArgumentsParts::Parenthesized,
    };
    Ok(SegmentParts { ident: segment.ident.to_string(), arguments })
}

/// `syn::parse_str` for a `syn::GenericArgument`: the variant of the
/// argument, a lifetime by its name, a binding by its name and the text of
/// its type, and anything else by the text of its tokens.
/// Takes readable texts only: `syn` may panic on another.
#[verifier::external_body]
pub(crate) fn parse_argument_parts(text: &str) -> (r: Result<ArgumentParts, String>)
    requires
        readable(text@),
    ensures
        match r {
            Ok(parts) => syn_argument_parts(text@) == Ok::<ArgumentPartsModel, Seq<char>>(parts@),
            Err(message) => syn_argument_parts(text@) == Err::<ArgumentPartsModel, Seq<char>>(
                message@,
            ),
        },
{
    Ok(match syn::parse_str::<syn::GenericArgument>(text).map_err(|e| e.to_string())? {
        syn::GenericArgument::Lifetime(l) => ArgumentParts::Lifetime(l.ident.to_string()),
        syn::GenericArgument::Type(t) => ArgumentParts::Type(t.into_token_stream().to_string()),
        syn::GenericArgument::Binding(b) => ArgumentParts::Binding {
            ident: b.ident.to_string(),
            ty: b.ty.into_token_stream().to_string(),
        },
        other => ArgumentParts::Other(other.into_token_stream().to_string()),
    })
}

/// How many levels of a type are taken apart: one for the type, and one for
/// each character of a readable text that may open a nested part. A type
/// that is nested deeper is not read.
pub const MAX_TYPE_DEPTH: usize = 33;

/// The message for a text that is not handed to `syn`.
pub const UNREADABLE_TYPE: &'static str =
    "a type must hold no `'` directly behind the letters `dyn`, and no more than 32 parts";

/// The message for a type that is nested deeper than it is taken apart.
pub const TYPE_TOO_DEEP: &'static str = "the type is nested too deeply";

/// The mark of a type that is nested deeper than it is taken apart.
pub struct TooDeep;

/// The type that stands for a text which is not taken apart.
pub open spec fn opaque_type(text: Seq<char>) -> TypeModel {
    TypeModel::Other { text }
}

/// The type read from the token text of a part of a type, `depth` levels
/// being left for it. A text that is not readable, or that `syn` does not
/// read as a type, is kept whole.
pub open spec fn lowered_child(text: Seq<char>, depth: nat) -> Result<TypeModel, TooDeep>
    decreases depth, 2nat, 0nat,
{
    if !readable(text) {
        Ok(opaque_type(text))
    } else {
        match syn_type_head(text) {
            Ok(head) => built_type(head, text, depth),
            Err(_) => Ok(opaque_type(text)),
        }
    }
}

/// The first `n` types read from the token texts of the parts of a type.
pub open spec fn lowered_children(texts: Seq<Seq<char>>, n: nat, depth: nat) -> Result<
    Seq<TypeModel>,
    TooDeep,
>
    decreases depth, 3nat, n,
{
    if n == 0 || n > texts.len() {
        Ok(Seq::empty())
    } else {
        match lowered_children(texts, (n - 1) as nat, depth) {
            Err(e) => Err(e),
            Ok(before) => match lowered_child(texts[n - 1], depth) {
                Ok(t) => Ok(before.push(t)),
                Err(e) => Err(e),
            },
        }
    }
}

/// The generic argument read from its token text; none where the text is
/// not readable or `syn` does not read it as a generic argument.
pub open spec fn lowered_argument(text: Seq<char>, depth: nat) -> Result<Option<ArgModel>, TooDeep>
    decreases depth, 3nat, 0nat,
{
    if !readable(text) {
        Ok(None)
    } else {
        match syn_argument_parts(text) {
            Err(_) => Ok(None),
            Ok(ArgumentPartsModel::Lifetime(l)) => Ok(Some(ArgModel::Lifetime(l))),
            Ok(ArgumentPartsModel::Type(t)) => match lowered_child(t, depth) {
                Ok(ty) => Ok(Some(ArgModel::Type(ty))),
                Err(e) => Err(e),
            },
            Ok(ArgumentPartsModel::Binding { ident, ty }) => match lowered_child(ty, depth) {
                Ok(ty) => Ok(Some(ArgModel::Binding { ident, ty })),
                Err(e) => Err(e),
            },
            Ok(ArgumentPartsModel::Other(o)) => Ok(Some(ArgModel::Other(o))),
        }
    }
}

/// The first `n` generic arguments read from their token texts, in their
/// order; none where one of them gives none.
pub open spec fn lowered_arguments(texts: Seq<Seq<char>>, n: nat, depth: nat) -> Result<
    Option<Seq<ArgModel>>,
    TooDeep,
>
    decreases depth, 4nat, n,
{
    if n == 0 || n > texts.len() {
        Ok(Some(Seq::empty()))
    } else {
        match lowered_arguments(texts, (n - 1) as nat, depth) {
            Ok(Some(before)) => match lowered_argument(texts[n - 1], depth) {
                Ok(Some(a)) => Ok(Some(before.push(a))),
                Ok(None) => Ok(None),
                Err(e) => Err(e),
            },
            other => other,
        }
    }
}

/// The path segment read from its token text; none where the text is not
/// readable, the segment has parenthesized arguments or a `::` before its
/// `<`, or `syn` does not read the text or one of the arguments.
pub open spec fn lowered_segment(text: Seq<char>, depth: nat) -> Result<
    Option<SegmentModel>,
    TooDeep,
>
    decreases depth, 5nat, 0nat,
{
    if !readable(text) {
        Ok(None)
    } else {
        match syn_segment_parts(text) {
            Err(_) => Ok(None),
            Ok(parts) => match parts.arguments {
                ArgumentsPartsModel::Absent => Ok(
                    Some(SegmentModel { ident: parts.ident, arguments: None }),
                ),
                ArgumentsPartsModel::Parenthesized => Ok(None),
                ArgumentsPartsModel::AngleBracketed { turbofish, args } => if turbofish {
                    Ok(None)
                } else {
                    match lowered_arguments(args, args.len(), depth) {
                        Ok(Some(a)) => Ok(
                            Some(SegmentModel { ident: parts.ident, arguments: Some(a) }),
                        ),
                        Ok(None) => Ok(None),
                        Err(e) => Err(e),
                    }
                },
            },
        }
    }
}

/// The first `n` path segments read from their token texts, in their order;
/// none where one of them gives none.
pub open spec fn lowered_segments(texts: Seq<Seq<char>>, n: nat, depth: nat) -> Result<
    Option<Seq<SegmentModel>>,
    TooDeep,
>
    decreases depth, 6nat, n,
{
    if n == 0 || n > texts.len() {
        Ok(Some(Seq::empty()))
    } else {
        match lowered_segments(texts, (n - 1) as nat, depth) {
            Ok(Some(before)) => match lowered_segment(texts[n - 1], depth) {
                Ok(Some(s)) => Ok(Some(before.push(s))),
                Ok(None) => Ok(None),
                Err(e) => Err(e),
            },
            other => other,
        }
    }
}

/// The tokens that stand before the target of a raw pointer.
pub open spec fn pointer_prefix(mutable: bool) -> Seq<char> {
    if mutable {
        "* mut"@
    } else {
        "* const"@
    }
}

/// The tokens that stand behind the element of an array of the length `len`.
pub open spec fn array_suffix(len: Seq<char>) -> Seq<char> {
    "; "@ + len + " ]"@
}

/// A type of one part: the part, with what stands before and behind it.
pub open spec fn wrapped(
    prefix: Seq<char>,
    elem: Result<TypeModel, TooDeep>,
    suffix: Seq<char>,
) -> Result<TypeModel, TooDeep> {
    match elem {
        Ok(t) => Ok(TypeModel::Around { prefix, elem: Box::new(t), suffix }),
        Err(e) => Err(e),
    }
}

/// The type built from the outermost level of the type that a readable text
/// spells, `depth` levels being left for it: none is left for a type at depth
/// zero. A path is taken apart unless it is qualified or one of its segments
/// cannot be; a reference, a slice, a tuple, a raw pointer, an array and a
/// type in parentheses are taken apart; everything else is kept whole.
pub open spec fn built_type(head: TypeHeadModel, text: Seq<char>, depth: nat) -> Result<
    TypeModel,
    TooDeep,
>
    decreases depth, 0nat, 0nat,
{
    if depth == 0 {
        Err(TooDeep)
    } else {
        let below = (depth - 1) as nat;
        match head.kind {
            TypeKind::Path => match syn_path_parts(text) {
                Some(parts) => if parts.qualified {
                    Ok(opaque_type(head.text))
                } else {
                    match lowered_segments(parts.segments, parts.segments.len(), below) {
                        Ok(Some(segments)) => Ok(
                            TypeModel::Path { global: parts.global, segments },
                        ),
                        Ok(None) => Ok(opaque_type(head.text)),
                        Err(e) => Err(e),
                    }
                },
                None => Ok(opaque_type(head.text)),
            },
            TypeKind::Reference => match syn_reference_parts(text) {
                Some(parts) => match lowered_child(parts.elem, below) {
                    Ok(elem) => Ok(
                        TypeModel::Reference {
                            lifetime: parts.lifetime,
                            mutable: parts.mutable,
                            elem: Box::new(elem),
                        },
                    ),
                    Err(e) => Err(e),
                },
                None => Ok(opaque_type(head.text)),
            },
            TypeKind::Slice => match syn_slice_elem(text) {
                Some(elem) => match lowered_child(elem, below) {
                    Ok(elem) => Ok(TypeModel::Slice { elem: Box::new(elem) }),
                    Err(e) => Err(e),
                },
                None => Ok(opaque_type(head.text)),
            },
            TypeKind::Tuple => match syn_tuple_elems(text) {
                Some(elems) => match lowered_children(elems, elems.len(), below) {
                    Ok(elems) => Ok(TypeModel::Tuple { elems }),
                    Err(e) => Err(e),
                },
                None => Ok(opaque_type(head.text)),
            },
            TypeKind::Pointer => match syn_pointer_parts(text) {
                Some(parts) => wrapped(
                    pointer_prefix(parts.mutable),
                    lowered_child(parts.elem, below),
                    Seq::empty(),
                ),
                None => Ok(opaque_type(head.text)),
            },
            TypeKind::Array => match syn_array_parts(text) {
                Some(parts) => wrapped(
                    "["@,
                    lowered_child(parts.elem, below),
                    array_suffix(parts.len),
                ),
                None => Ok(opaque_type(head.text)),
            },
            TypeKind::Paren => match syn_paren_elem(text) {
                Some(elem) => wrapped("("@, lowered_child(elem, below), ")"@),
                None => Ok(opaque_type(head.text)),
            },
            TypeKind::Other => Ok(opaque_type(head.text)),
        }
    }
}

/// The type expression that a text stands for, taken apart at most `depth`
/// levels deep, or a message: that the text is not readable, the message of
/// `syn` on a syntax error, or that the type is nested deeper.
pub open spec fn lowered_type(text: Seq<char>, depth: nat) -> Result<TypeModel, Seq<char>>
    decreases depth, 1nat, 0nat,
{
    if !readable(text) {
        Err(UNREADABLE_TYPE@)
    } else {
        match syn_type_head(text) {
            Ok(head) => match built_type(head, text, depth) {
                Ok(t) => Ok(t),
                Err(_) => Err(TYPE_TOO_DEEP@),
            },
            Err(message) => Err(message),
        }
    }
}

/// Once a generic argument was not read, none of the list is.
pub proof fn lemma_lowered_arguments_stop(texts: Seq<Seq<char>>, n: nat, m: nat, depth: nat)
    requires
        n <= m <= texts.len(),
        !(lowered_arguments(texts, n, depth) matches Ok(Some(_))),
    ensures
        lowered_arguments(texts, m, depth) == lowered_arguments(texts, n, depth),
    decreases m,
{
    if n < m {
        lemma_lowered_arguments_stop(texts, n, (m - 1) as nat, depth);
    }
}

/// Once a path segment was not read, none of the path is.
pub proof fn lemma_lowered_segments_stop(texts: Seq<Seq<char>>, n: nat, m: nat, depth: nat)
    requires
        n <= m <= texts.len(),
        !(lowered_segments(texts, n, depth) matches Ok(Some(_))),
    ensures
        lowered_segments(texts, m, depth) == lowered_segments(texts, n, depth),
    decreases m,
{
    if n < m {
        lemma_lowered_segments_stop(texts, n, (m - 1) as nat, depth);
    }
}

/// Once a part of a type is nested too deeply, the list of parts is.
pub proof fn lemma_lowered_children_stop(texts: Seq<Seq<char>>, n: nat, m: nat, depth: nat)
    requires
        n <= m <= texts.len(),
        lowered_children(texts, n, depth) is Err,
    ensures
        lowered_children(texts, m, depth) is Err,
    decreases m,
{
    if n < m {
        lemma_lowered_children_stop(texts, n, (m - 1) as nat, depth);
    }
}

/// Reads a part of a type; a text that is no type is kept whole.
fn lower_child(text: &str, depth: usize) -> (r: Result<TypeExpr, TooDeep>)
    ensures
        match r {
            Ok(t) => lowered_child(text@, depth as nat) == Ok::<TypeModel, TooDeep>(t@),
            Err(_) => lowered_child(text@, depth as nat) is Err,
        },
    decreases depth, 2nat, 0nat,
{
    if !is_readable(text) {
        return Ok(TypeExpr::Other { text: String::from_str(text) });
    }
    match parse_type_head(text) {
        Ok(head) => build_type(head, text, depth),
        Err(_) => Ok(TypeExpr::Other { text: String::from_str(text) }),
    }
}

/// Reads the elements of a tuple.
#[verifier::loop_isolation(false)]
fn lower_children(texts: &Vec<String>, depth: usize) -> (r: Result<Vec<TypeExpr>, TooDeep>)
    ensures
        match r {
            Ok(types) => lowered_children(texts_model(texts@), texts@.len(), depth as nat) == Ok::<
                Seq<TypeModel>,
                TooDeep,
            >(types_model(types@)),
            Err(_) => lowered_children(texts_model(texts@), texts@.len(), depth as nat) is Err,
        },
    decreases depth, 3nat, texts@.len(),
{
    let ghost model = texts_model(texts@);
    let mut out: Vec<TypeExpr> = Vec::new();
    let mut i: usize = 0;
    assert(types_model(out@) =~= Seq::<TypeModel>::empty());
    while i < texts.len()
        invariant
            i <= texts.len(),
            lowered_children(model, i as nat, depth as nat) == Ok::<Seq<TypeModel>, TooDeep>(
                types_model(out@),
            ),
        decreases texts.len() - i,
    {
        let ghost before = out@;
        assert(model[i as int] == texts@[i as int]@);
        match lower_child(texts[i].as_str(), depth) {
            Ok(t) => {
                out.push(t);
                assert(types_model(out@) =~= types_model(before).push(out@[out@.len() - 1]@));
            },
            Err(e) => {
                proof {
                    lemma_lowered_children_stop(
                        model,
                        (i + 1) as nat,
                        texts@.len() as nat,
                        depth as nat,
                    );
                }
                return Err(e);
            },
        }
        i += 1;
    }
    Ok(out)
}

/// Reads one generic argument.
fn lower_argument(text: &str, depth: usize) -> (r: Result<Option<GenericArgument>, TooDeep>)
    ensures
        match r {
            Ok(Some(a)) => lowered_argument(text@, depth as nat) == Ok::<Option<ArgModel>, TooDeep>(
                Some(a@),
            ),
            Ok(None) => lowered_argument(text@, depth as nat) == Ok::<Option<ArgModel>, TooDeep>(
                None,
            ),
            Err(_) => lowered_argument(text@, depth as nat) is Err,
        },
    decreases depth, 3nat, 0nat,
{
    if !is_readable(text) {
        return Ok(None);
    }
    match parse_argument_parts(text) {
        Err(_) => Ok(None),
        Ok(ArgumentParts::Lifetime(l)) => Ok(Some(GenericArgument::Lifetime(l))),
        Ok(ArgumentParts::Type(t)) => match lower_child(t.as_str(), depth) {
            Ok(ty) => Ok(Some(GenericArgument::Type(ty))),
            Err(e) => Err(e),
        },
        Ok(ArgumentParts::Binding { ident, ty }) => match lower_child(ty.as_str(), depth) {
            Ok(ty) => Ok(Some(GenericArgument::Binding { ident, ty })),
            Err(e) => Err(e),
        },
        Ok(ArgumentParts::Other(o)) => Ok(Some(GenericArgument::Other(o))),
    }
}

/// Reads the list of generic arguments of a path segment.
#[verifier::loop_isolation(false)]
fn lower_arguments(texts: &Vec<String>, depth: usize) -> (r: Result<
    Option<Vec<GenericArgument>>,
    TooDeep,
>)
    ensures
        match r {
            Ok(Some(args)) => lowered_arguments(texts_model(texts@), texts@.len(), depth as nat)
                == Ok::<Option<Seq<ArgModel>>, TooDeep>(Some(args_model(args@))),
            Ok(None) => lowered_arguments(texts_model(texts@), texts@.len(), depth as nat) == Ok::<
                Option<Seq<ArgModel>>,
                TooDeep,
            >(None),
            Err(_) => lowered_arguments(texts_model(texts@), texts@.len(), depth as nat) is Err,
        },
    decreases depth, 4nat, texts@.len(),
{
    let ghost model = texts_model(texts@);
    let mut out: Vec<GenericArgument> = Vec::new();
    let mut i: usize = 0;
    assert(args_model(out@) =~= Seq::<ArgModel>::empty());
    while i < texts.len()
        invariant
            i <= texts.len(),
            lowered_arguments(model, i as nat, depth as nat) == Ok::<
                Option<Seq<ArgModel>>,
                TooDeep,
            >(Some(args_model(out@))),
        decreases texts.len() - i,
    {
        let ghost before = out@;
        assert(model[i as int] == texts@[i as int]@);
        match lower_argument(texts[i].as_str(), depth) {
            Ok(Some(a)) => {
                out.push(a);
                assert(args_model(out@) =~= args_model(before).push(out@[out@.len() - 1]@));
            },
            other => {
                proof {
                    lemma_lowered_arguments_stop(
                        model,
                        (i + 1) as nat,
                        texts@.len() as nat,
                        depth as nat,
                    );
                }
                return match other {
                    Err(e) => Err(e),
                    _ => Ok(None),
                };
            },
        }
        i += 1;
    }
    Ok(Some(out))
}

/// Reads one path segment.
fn lower_segment(text: &str, depth: usize) -> (r: Result<Option<PathSegment>, TooDeep>)
    ensures
        match r {
            Ok(Some(s)) => lowered_segment(text@, depth as nat) == Ok::<
                Option<SegmentModel>,
                TooDeep,
            >(Some(s@)),
            Ok(None) => lowered_segment(text@, depth as nat) == Ok::<Option<SegmentModel>, TooDeep>(
                None,
            ),
            Err(_) => lowered_segment(text@, depth as nat) is Err,
        },
    decreases depth, 5nat, 0nat,
{
    if !is_readable(text) {
        return Ok(None);
    }
    match parse_segment_parts(text) {
        Err(_) => Ok(None),
        Ok(parts) => match parts.arguments {
            ArgumentsParts::Absent => Ok(Some(PathSegment { ident: parts.ident, arguments: None })),
            ArgumentsParts::Parenthesized => Ok(None),
            ArgumentsParts::AngleBracketed { turbofish, args } => {
                if turbofish {
                    Ok(None)
                } else {
                    assert(texts_model(args@).len() == args@.len());
                    match lower_arguments(&args, depth) {
                        Ok(Some(a)) => Ok(
                            Some(PathSegment { ident: parts.ident, arguments: Some(a) }),
                        ),
                        Ok(None) => Ok(None),
                        Err(e) => Err(e),
                    }
                }
            },
        },
    }
}

/// Reads the segments of a path.
#[verifier::loop_isolation(false)]
fn lower_segments(texts: &Vec<String>, depth: usize) -> (r: Result<
    Option<Vec<PathSegment>>,
    TooDeep,
>)
    ensures
        match r {
            Ok(Some(segments)) => lowered_segments(
                texts_model(texts@),
                texts@.len(),
                depth as nat,
            ) == Ok::<Option<Seq<SegmentModel>>, TooDeep>(Some(segments_model(segments@))),
            Ok(None) => lowered_segments(texts_model(texts@), texts@.len(), depth as nat) == Ok::<
                Option<Seq<SegmentModel>>,
                TooDeep,
            >(None),
            Err(_) => lowered_segments(texts_model(texts@), texts@.len(), depth as nat) is Err,
        },
    decreases depth, 6nat, texts@.len(),
{
    let ghost model = texts_model(texts@);
    let mut out: Vec<PathSegment> = Vec::new();
    let mut i: usize = 0;
    assert(segments_model(out@) =~= Seq::<SegmentModel>::empty());
    while i < texts.len()
        invariant
            i <= texts.len(),
            lowered_segments(model, i as nat, depth as nat) == Ok::<
                Option<Seq<SegmentModel>>,
                TooDeep,
            >(Some(segments_model(out@))),
        decreases texts.len() - i,
    {
        let ghost before = out@;
        assert(model[i as int] == texts@[i as int]@);
        match lower_segment(texts[i].as_str(), depth) {
            Ok(Some(s)) => {
                out.push(s);
                assert(segments_model(out@) =~= segments_model(before).push(
                    out@[out@.len() - 1]@,
                ));
            },
            other => {
                proof {
                    lemma_lowered_segments_stop(
                        model,
                        (i + 1) as nat,
                        texts@.len() as nat,
                        depth as nat,
                    );
                }
                return match other {
                    Err(e) => Err(e),
                    _ => Ok(None),
                };
            },
        }
        i += 1;
    }
    Ok(Some(out))
}

/// Puts what stands before and behind a part around it.
fn wrap(prefix: String, elem: Result<TypeExpr, TooDeep>, suffix: String) -> (r: Result<
    TypeExpr,
    TooDeep,
>)
    ensures
        match r {
            Ok(t) => match elem {
                Ok(e) => wrapped(prefix@, Ok(e@), suffix@) == Ok::<TypeModel, TooDeep>(t@),
                Err(_) => false,
            },
            Err(_) => elem is Err,
        },
{
    match elem {
        Ok(t) => Ok(TypeExpr::Around { prefix, elem: Box::new(t), suffix }),
        Err(e) => Err(e),
    }
}

/// Builds a type from its outermost level.
fn build_type(head: TypeHead, text: &str, depth: usize) -> (r: Result<TypeExpr, TooDeep>)
    requires
        readable(text@),
    ensures
        match r {
            Ok(t) => built_type(head@, text@, depth as nat) == Ok::<TypeModel, TooDeep>(t@),
            Err(_) => built_type(head@, text@, depth as nat) is Err,
        },
    decreases depth, 0nat, 0nat,
{
    if depth == 0 {
        return Err(TooDeep);
    }
    let below = depth - 1;
    match head.kind {
        TypeKind::Path => match parse_path_parts(text) {
            Some(parts) => {
                if parts.qualified {
                    return Ok(TypeExpr::Other { text: head.text });
                }
                assert(texts_model(parts.segments@).len() == parts.segments@.len());
                match lower_segments(&parts.segments, below) {
                    Ok(Some(segments)) => Ok(TypeExpr::Path { global: parts.global, segments }),
                    Ok(None) => Ok(TypeExpr::Other { text: head.text }),
                    Err(e) => Err(e),
                }
            },
            None => Ok(TypeExpr::Other { text: head.text }),
        },
        TypeKind::Reference => match parse_reference_parts(text) {
            Some(parts) => match lower_child(parts.elem.as_str(), below) {
                Ok(elem) => Ok(
                    TypeExpr::Reference {
                        lifetime: parts.lifetime,
                        mutable: parts.mutable,
                        elem: Box::new(elem),
                    },
                ),
                Err(e) => Err(e),
            },
            None => Ok(TypeExpr::Other { text: head.text }),
        },
        TypeKind::Slice => match parse_slice_elem(text) {
            Some(elem) => match lower_child(elem.as_str(), below) {
                Ok(elem) => Ok(TypeExpr::Slice { elem: Box::new(elem) }),
                Err(e) => Err(e),
            },
            None => Ok(TypeExpr::Other { text: head.text }),
        },
        TypeKind::Tuple => match parse_tuple_elems(text) {
            Some(elems) => {
                assert(texts_model(elems@).len() == elems@.len());
                match lower_children(&elems, below) {
                    Ok(elems) => Ok(TypeExpr::Tuple { elems }),
                    Err(e) => Err(e),
                }
            },
            None => Ok(TypeExpr::Other { text: head.text }),
        },
        TypeKind::Pointer => match parse_pointer_parts(text) {
            Some(parts) => {
                let prefix = if parts.mutable {
                    String::from_str("* mut")
                } else {
                    String::from_str("* const")
                };
                wrap(prefix, lower_child(parts.elem.as_str(), below), String::new())
            },
            None => Ok(TypeExpr::Other { text: head.text }),
        },
        TypeKind::Array => match parse_array_parts(text) {
            Some(parts) => {
                let mut suffix = String::from_str("; ");
                suffix.append(parts.len.as_str());
                suffix.append(" ]");
                wrap(String::from_str("["), lower_child(parts.elem.as_str(), below), suffix)
            },
            None => Ok(TypeExpr::Other { text: head.text }),
        },
        TypeKind::Paren => match parse_paren_elem(text) {
            Some(elem) => wrap(
                String::from_str("("),
                lower_child(elem.as_str(), below),
                String::from_str(")"),
            ),
            None => Ok(TypeExpr::Other { text: head.text }),
        },
        TypeKind::Other => Ok(TypeExpr::Other { text: head.text }),
    }
}

/// Reads a type from its text, taking it apart at most `depth` levels deep.
/// A text that is not readable, a syntax error and a type that is nested
/// deeper each give their message.
pub fn lower_type(text: &str, depth: usize) -> (r: Result<TypeExpr, String>)
    ensures
        match r {
            Ok(t) => lowered_type(text@, depth as nat) == Ok::<TypeModel, Seq<char>>(t@),
            Err(message) => lowered_type(text@, depth as nat) == Err::<TypeModel, Seq<char>>(
                message@,
            ),
        },
{
    if !is_readable(text) {
        return Err(String::from_str(UNREADABLE_TYPE));
    }
    match parse_type_head(text) {
        Ok(head) => match build_type(head, text, depth) {
            Ok(t) => Ok(t),
            Err(_) => Err(String::from_str(TYPE_TOO_DEEP)),
        },
        Err(message) => Err(message),
    }
}

/// Reads a type from its text. The type is taken apart whole, or not read:
/// one that is nested deeper than [`MAX_TYPE_DEPTH`] levels gives the message
/// [`TYPE_TOO_DEEP`].
pub fn parse_type(text: &str) -> (r: Result<TypeExpr, String>)
    ensures
        match r {
            Ok(t) => lowered_type(text@, MAX_TYPE_DEPTH as nat) == Ok::<TypeModel, Seq<char>>(t@),
            Err(message) => lowered_type(text@, MAX_TYPE_DEPTH as nat) == Err::<
                TypeModel,
                Seq<char>,
            >(message@),
        },
{
    lower_type(text, MAX_TYPE_DEPTH)
}

} // verus!
